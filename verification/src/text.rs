//! White space, words and lines.

use vstd::prelude::*;

verus! {

/// The characters that Unicode gives the `White_Space` property.
pub open spec fn white_space(c: char) -> bool {
    let n = c as u32;
    ||| 0x9 <= n <= 0xd
    ||| n == 0x20
    ||| n == 0x85
    ||| n == 0xa0
    ||| n == 0x1680
    ||| 0x2000 <= n <= 0x200a
    ||| n == 0x2028
    ||| n == 0x2029
    ||| n == 0x202f
    ||| n == 0x205f
    ||| n == 0x3000
}

/// `s` without the white space at its end.
pub open spec fn trimmed(s: Seq<char>) -> Seq<char>
    decreases s.len(),
{
    if s.len() > 0 && white_space(s.last()) {
        trimmed(s.drop_last())
    } else {
        s
    }
}

/// The maximal runs of characters of `s` that are not white space, in order.
pub open spec fn words(s: Seq<char>) -> Seq<Seq<char>>
    decreases s.len(),
{
    if s.len() == 0 {
        Seq::empty()
    } else {
        let before = words(s.drop_last());
        if white_space(s.last()) {
            before
        } else if s.len() >= 2 && !white_space(s[s.len() - 2]) {
            before.drop_last().push(before.last().push(s.last()))
        } else {
            before.push(seq![s.last()])
        }
    }
}

/// The parts in order, with `separator` between each two neighbours.
pub open spec fn joined(parts: Seq<Seq<char>>, separator: Seq<char>) -> Seq<char>
    decreases parts.len(),
{
    if parts.len() == 0 {
        Seq::empty()
    } else if parts.len() == 1 {
        parts[0]
    } else {
        joined(parts.drop_last(), separator) + separator + parts.last()
    }
}

/// The words of `s` with one space between each two of them.
pub open spec fn squeezed(s: Seq<char>) -> Seq<char> {
    joined(words(s), seq![' '])
}

/// `pattern` stands in `s` at index `at`.
pub open spec fn stands_at(s: Seq<char>, pattern: Seq<char>, at: int) -> bool {
    &&& 0 <= at
    &&& at + pattern.len() <= s.len()
    &&& s.subrange(at, at + pattern.len()) == pattern
}

/// `pattern` stands somewhere in `s`.
pub open spec fn occurs(s: Seq<char>, pattern: Seq<char>) -> bool {
    exists|at: int| stands_at(s, pattern, at)
}

/// The texts of some rows.
pub open spec fn texts(rows: Seq<String>) -> Seq<Seq<char>> {
    Seq::new(rows.len(), |i: int| rows[i]@)
}

proof fn lemma_trimmed_prefix(s: Seq<char>, keep: int)
    requires
        0 <= keep <= s.len(),
        forall|i: int| keep <= i < s.len() ==> white_space(#[trigger] s[i]),
        keep > 0 ==> !white_space(s[keep - 1]),
    ensures
        trimmed(s) == s.take(keep),
    decreases s.len(),
{
    if keep < s.len() {
        assert(white_space(s[s.len() - 1]));
        lemma_trimmed_prefix(s.drop_last(), keep);
        assert(s.drop_last().take(keep) =~= s.take(keep));
    } else {
        assert(s.take(keep) =~= s);
    }
}

/// A character that goes on with the last part goes on with the joined text.
proof fn lemma_joined_last_grows(parts: Seq<Seq<char>>, separator: Seq<char>, c: char)
    requires
        parts.len() > 0,
    ensures
        joined(parts.drop_last().push(parts.last().push(c)), separator) == joined(
            parts,
            separator,
        ).push(c),
{
    let grown = parts.drop_last().push(parts.last().push(c));
    assert(grown.drop_last() =~= parts.drop_last());
    assert(joined(grown, separator) =~= joined(parts, separator).push(c));
}

proof fn lemma_joined_push(parts: Seq<Seq<char>>, separator: Seq<char>, part: Seq<char>)
    requires
        parts.len() > 0,
    ensures
        joined(parts.push(part), separator) == joined(parts, separator) + separator + part,
{
    assert(parts.push(part).drop_last() =~= parts);
}

proof fn lemma_words_are_not_empty(s: Seq<char>)
    ensures
        forall|i: int| 0 <= i < words(s).len() ==> (#[trigger] words(s)[i]).len() > 0,
        s.len() > 0 && !white_space(s.last()) ==> words(s).len() > 0,
    decreases s.len(),
{
    if s.len() > 0 {
        let before = s.drop_last();
        lemma_words_are_not_empty(before);
        if s.len() >= 2 {
            assert(before.last() == s[s.len() - 2]);
        }
        assert forall|i: int| 0 <= i < words(s).len() implies (#[trigger] words(s)[i]).len()
            > 0 by {
            if i < words(before).len() {
                assert(words(before)[i].len() > 0);
            }
        }
    }
}

proof fn lemma_joined_is_empty(parts: Seq<Seq<char>>, separator: Seq<char>)
    requires
        forall|i: int| 0 <= i < parts.len() ==> (#[trigger] parts[i]).len() > 0,
    ensures
        joined(parts, separator).len() == 0 <==> parts.len() == 0,
{
    if parts.len() > 0 {
        assert(parts.last().len() > 0);
    }
}

/// Only white space at the end is lost when a text is trimmed, and all of it is.
pub proof fn law_trimmed_loses_only_white_space_at_the_end(s: Seq<char>)
    ensures
        trimmed(s).len() <= s.len(),
        trimmed(s) == s.take(trimmed(s).len() as int),
        forall|i: int| trimmed(s).len() <= i < s.len() ==> white_space(#[trigger] s[i]),
        trimmed(s).len() > 0 ==> !white_space(s[trimmed(s).len() - 1]),
    decreases s.len(),
{
    if s.len() > 0 && white_space(s.last()) {
        let before = s.drop_last();
        law_trimmed_loses_only_white_space_at_the_end(before);
        assert(before.take(trimmed(s).len() as int) =~= s.take(trimmed(s).len() as int));
        assert forall|i: int| trimmed(s).len() <= i < s.len() implies white_space(
            #[trigger] s[i],
        ) by {
            if i < before.len() {
                assert(white_space(before[i]));
            }
        }
    } else {
        assert(s.take(s.len() as int) =~= s);
    }
}

/// A text without white space is one word, and a text without characters is none.
pub proof fn law_a_word_is_one_word(s: Seq<char>)
    requires
        forall|i: int| 0 <= i < s.len() ==> !white_space(#[trigger] s[i]),
    ensures
        s.len() == 0 ==> words(s) == Seq::<Seq<char>>::empty(),
        s.len() > 0 ==> words(s) == seq![s],
    decreases s.len(),
{
    if s.len() > 0 {
        let before = s.drop_last();
        assert(!white_space(s[s.len() - 1]));
        assert forall|i: int| 0 <= i < before.len() implies !white_space(#[trigger] before[i]) by {
            assert(before[i] == s[i]);
        }
        law_a_word_is_one_word(before);
        if s.len() >= 2 {
            assert(!white_space(s[s.len() - 2]));
            assert(words(s) =~= seq![before.push(s.last())]);
            assert(before.push(s.last()) =~= s);
        } else {
            assert(seq![s.last()] =~= s);
            assert(words(s) =~= seq![s]);
        }
    }
}

/// White space parts words: those before it and those after it are the words of the whole.
pub proof fn law_white_space_parts_words(before: Seq<char>, c: char, after: Seq<char>)
    requires
        white_space(c),
    ensures
        words(before.push(c) + after) == words(before) + words(after),
    decreases after.len(),
{
    let whole = before.push(c) + after;
    if after.len() == 0 {
        assert(whole =~= before.push(c));
        assert(whole.drop_last() =~= before);
        assert(words(before) + words(after) =~= words(before));
    } else {
        let shorter = after.drop_last();
        law_white_space_parts_words(before, c, shorter);
        assert(whole.drop_last() =~= before.push(c) + shorter);
        assert(whole.last() == after.last());
        lemma_words_are_not_empty(shorter);
        if after.len() >= 2 {
            assert(whole[whole.len() - 2] == after[after.len() - 2]);
            assert(shorter.last() == after[after.len() - 2]);
        } else {
            assert(whole[whole.len() - 2] == c);
        }
        assert(words(whole) =~= words(before) + words(after));
    }
}

/// Joined lists of parts are joined by one more separator.
pub proof fn law_joined_lists_join(
    a: Seq<Seq<char>>,
    b: Seq<Seq<char>>,
    separator: Seq<char>,
)
    ensures
        a.len() == 0 ==> joined(a, separator) == Seq::<char>::empty(),
        a.len() == 1 ==> joined(a, separator) == a[0],
        a.len() > 0 && b.len() > 0 ==> joined(a + b, separator) == joined(a, separator) + separator
            + joined(b, separator),
    decreases b.len(),
{
    if a.len() > 0 && b.len() > 0 {
        let shorter = b.drop_last();
        assert((a + b).drop_last() =~= a + shorter);
        if shorter.len() == 0 {
            assert(a + shorter =~= a);
        } else {
            law_joined_lists_join(a, shorter, separator);
        }
        assert(joined(a + b, separator) =~= joined(a, separator) + separator + joined(b, separator));
    }
}

proof fn lemma_squeezed_is_empty(s: Seq<char>)
    ensures
        squeezed(s).len() == 0 <==> words(s).len() == 0,
{
    lemma_words_are_not_empty(s);
    lemma_joined_is_empty(words(s), seq![' ']);
}

/// White space of any kind and length between words becomes one space, and none is left elsewhere.
pub proof fn law_squeezed_around_white_space(before: Seq<char>, c: char, after: Seq<char>)
    requires
        white_space(c),
    ensures
        squeezed(before.push(c) + after) == if squeezed(before).len() == 0 {
            squeezed(after)
        } else if squeezed(after).len() == 0 {
            squeezed(before)
        } else {
            squeezed(before).push(' ') + squeezed(after)
        },
{
    law_white_space_parts_words(before, c, after);
    lemma_squeezed_is_empty(before);
    lemma_squeezed_is_empty(after);
    law_joined_lists_join(words(before), words(after), seq![' ']);
    assert(words(before).len() == 0 ==> words(before) + words(after) =~= words(after));
    assert(words(after).len() == 0 ==> words(before) + words(after) =~= words(before));
    assert(squeezed(before).push(' ') + squeezed(after) =~= squeezed(before) + seq![' ']
        + squeezed(after));
}

/// A text without white space stays as it is when it is squeezed.
pub proof fn law_a_word_is_not_squeezed(s: Seq<char>)
    requires
        forall|i: int| 0 <= i < s.len() ==> !white_space(#[trigger] s[i]),
    ensures
        squeezed(s) == s,
{
    law_a_word_is_one_word(s);
}

/// Something is left of a squeezed text where it holds a character that is no white space.
pub proof fn law_squeezed_is_empty_where_all_is_white(s: Seq<char>)
    ensures
        squeezed(s).len() > 0 <==> exists|i: int| 0 <= i < s.len() && !white_space(#[trigger] s[i]),
    decreases s.len(),
{
    lemma_squeezed_is_empty(s);
    if s.len() > 0 {
        let before = s.drop_last();
        law_squeezed_is_empty_where_all_is_white(before);
        lemma_squeezed_is_empty(before);
        lemma_words_are_not_empty(s);
        if white_space(s.last()) {
            if words(s).len() > 0 {
                let i = choose|i: int| 0 <= i < before.len() && !white_space(#[trigger] before[i]);
                assert(!white_space(s[i]));
            }
            if exists|i: int| 0 <= i < s.len() && !white_space(#[trigger] s[i]) {
                let i = choose|i: int| 0 <= i < s.len() && !white_space(#[trigger] s[i]);
                assert(!white_space(before[i]));
            }
        } else {
            assert(!white_space(s[s.len() - 1]));
        }
    }
}

/// A pattern occurs where something before it and something after it make up the text.
pub proof fn law_occurs_between(s: Seq<char>, pattern: Seq<char>)
    ensures
        occurs(s, pattern) <==> exists|before: Seq<char>, after: Seq<char>|
            s == #[trigger] (before + pattern + after),
{
    if occurs(s, pattern) {
        let at = choose|at: int| stands_at(s, pattern, at);
        let before = s.take(at);
        let after = s.skip(at + pattern.len());
        assert forall|i: int| 0 <= i < pattern.len() implies s[at + i] == pattern[i] by {
            assert(s.subrange(at, at + pattern.len())[i] == pattern[i]);
        }
        assert(s =~= before + pattern + after);
    }
    if exists|before: Seq<char>, after: Seq<char>| s == #[trigger] (before + pattern + after) {
        let (before, after) = choose|before: Seq<char>, after: Seq<char>|
            s == #[trigger] (before + pattern + after);
        assert(s.subrange(before.len() as int, (before.len() + pattern.len()) as int) =~= pattern);
        assert(stands_at(s, pattern, before.len() as int));
    }
}

/// The characters of the first `count` rows, with a line feed for each of them.
pub open spec fn length_of_lines(rows: Seq<Seq<char>>, count: nat) -> nat
    decreases count,
{
    if count == 0 {
        0
    } else {
        length_of_lines(rows, (count - 1) as nat) + rows[count - 1].len() + 1
    }
}

proof fn lemma_lines_of_more_rows(rows: Seq<Seq<char>>, row: Seq<char>)
    requires
        rows.len() > 0,
    ensures
        lines_text(rows.push(row)) == lines_text(rows) + row + seq!['\n'],
{
    reveal_strlit("\n");
    lemma_joined_push(rows, "\n"@, row);
    assert("\n"@ =~= seq!['\n']);
    assert(lines_text(rows.push(row)) =~= lines_text(rows) + row + seq!['\n']);
}

proof fn lemma_same_lengths(a: Seq<Seq<char>>, b: Seq<Seq<char>>, count: nat)
    requires
        count <= a.len(),
        count <= b.len(),
        forall|i: int| 0 <= i < count ==> #[trigger] a[i] == b[i],
    ensures
        length_of_lines(a, count) == length_of_lines(b, count),
    decreases count,
{
    if count > 0 {
        lemma_same_lengths(a, b, (count - 1) as nat);
        assert(a[count - 1] == b[count - 1]);
    }
}

/// The text of some rows holds every row in full, in order, with a line feed behind each of them,
/// and nothing else. The text of no rows is a line feed.
pub proof fn law_lines_hold_every_row(rows: Seq<Seq<char>>)
    ensures
        rows.len() == 0 ==> lines_text(rows) == seq!['\n'],
        rows.len() > 0 ==> lines_text(rows).len() == length_of_lines(rows, rows.len()),
        forall|i: int|
            0 <= i < rows.len() ==> {
                let from = length_of_lines(rows, i as nat) as int;
                let to = from + (#[trigger] rows[i]).len();
                &&& to < lines_text(rows).len()
                &&& lines_text(rows).subrange(from, to) == rows[i]
                &&& lines_text(rows)[to] == '\n'
            },
    decreases rows.len(),
{
    reveal_strlit("\n");
    assert("\n"@ =~= seq!['\n']);
    if rows.len() == 0 {
        assert(lines_text(rows) =~= seq!['\n']);
    } else if rows.len() == 1 {
        let row = rows[0];
        assert(length_of_lines(rows, 0) == 0);
        assert(length_of_lines(rows, 1) == row.len() + 1);
        assert(lines_text(rows) =~= row.push('\n'));
        assert(lines_text(rows).subrange(0, row.len() as int) =~= row);
    } else {
        let before = rows.drop_last();
        let row = rows.last();
        law_lines_hold_every_row(before);
        lemma_lines_of_more_rows(before, row);
        assert(before.push(row) =~= rows);
        let text = lines_text(before);
        let whole = lines_text(rows);
        assert(whole == text + row + seq!['\n']);
        lemma_same_lengths(rows, before, before.len());
        assert forall|i: int| 0 <= i < rows.len() implies ({
            let from = length_of_lines(rows, i as nat) as int;
            let to = from + (#[trigger] rows[i]).len();
            &&& to < whole.len()
            &&& whole.subrange(from, to) == rows[i]
            &&& whole[to] == '\n'
        }) by {
            let from = length_of_lines(rows, i as nat) as int;
            let to = from + rows[i].len();
            if i < before.len() {
                lemma_same_lengths(rows, before, i as nat);
                assert(before[i] == rows[i]);
                assert(whole.subrange(from, to) =~= text.subrange(from, to));
            } else {
                assert(whole.subrange(from, to) =~= row);
            }
        }
    }
}

proof fn lemma_row_at(rows: Seq<Seq<char>>, i: int)
    requires
        0 <= i < rows.len(),
    ensures
        ({
            let from = length_of_lines(rows, i as nat) as int;
            let to = from + rows[i].len();
            &&& to < lines_text(rows).len()
            &&& lines_text(rows).subrange(from, to) == rows[i]
            &&& lines_text(rows)[to] == '\n'
        }),
{
    law_lines_hold_every_row(rows);
}

/// A row without a line feed ends at the first line feed behind its beginning.
proof fn lemma_one_row(text: Seq<char>, from: int, x: Seq<char>, y: Seq<char>)
    requires
        0 <= from,
        from + x.len() < text.len(),
        from + y.len() < text.len(),
        text.subrange(from, from + x.len()) == x,
        text.subrange(from, from + y.len()) == y,
        text[from + x.len()] == '\n',
        text[from + y.len()] == '\n',
        !x.contains('\n'),
        !y.contains('\n'),
    ensures
        x == y,
{
    if x.len() < y.len() {
        assert(y[x.len() as int] == text[from + x.len()]);
    }
    if y.len() < x.len() {
        assert(x[y.len() as int] == text[from + y.len()]);
    }
}

proof fn lemma_same_first_rows(a: Seq<Seq<char>>, b: Seq<Seq<char>>, count: nat)
    requires
        count <= a.len(),
        count <= b.len(),
        lines_text(a) == lines_text(b),
        forall|i: int| 0 <= i < a.len() ==> !(#[trigger] a[i]).contains('\n'),
        forall|i: int| 0 <= i < b.len() ==> !(#[trigger] b[i]).contains('\n'),
    ensures
        forall|i: int| 0 <= i < count ==> #[trigger] a[i] == b[i],
    decreases count,
{
    if count > 0 {
        let last = count - 1;
        lemma_same_first_rows(a, b, last as nat);
        lemma_same_lengths(a, b, last as nat);
        lemma_row_at(a, last);
        lemma_row_at(b, last);
        let from = length_of_lines(a, last as nat) as int;
        lemma_one_row(lines_text(a), from, a[last], b[last]);
    }
}

proof fn lemma_more_rows_are_longer(rows: Seq<Seq<char>>, few: nat, many: nat)
    requires
        few < many,
    ensures
        length_of_lines(rows, few) < length_of_lines(rows, many),
    decreases many,
{
    if few + 1 < many {
        lemma_more_rows_are_longer(rows, few, (many - 1) as nat);
    }
}

/// A text tells which rows it holds: two lists of rows, none of which holds a line feed, have the
/// same text only if they are the same.
pub proof fn law_lines_tell_rows_apart(a: Seq<Seq<char>>, b: Seq<Seq<char>>)
    requires
        a.len() > 0,
        b.len() > 0,
        forall|i: int| 0 <= i < a.len() ==> !(#[trigger] a[i]).contains('\n'),
        forall|i: int| 0 <= i < b.len() ==> !(#[trigger] b[i]).contains('\n'),
        lines_text(a) == lines_text(b),
    ensures
        a == b,
{
    law_lines_hold_every_row(a);
    law_lines_hold_every_row(b);
    if a.len() <= b.len() {
        lemma_same_first_rows(a, b, a.len());
        lemma_same_lengths(a, b, a.len());
        if a.len() < b.len() {
            lemma_more_rows_are_longer(b, a.len(), b.len());
        }
    } else {
        lemma_same_first_rows(a, b, b.len());
        lemma_same_lengths(a, b, b.len());
        lemma_more_rows_are_longer(a, b.len(), a.len());
    }
    assert(a =~= b);
}

/// The texts of some rows are those of each of them, in order.
pub proof fn law_texts_of_every_row(rows: Seq<String>)
    ensures
        texts(rows).len() == rows.len(),
        forall|i: int| 0 <= i < rows.len() ==> #[trigger] texts(rows)[i] == rows[i]@,
{
}

/// Tells whether `c` is white space.
pub fn is_whitespace(c: char) -> (res: bool)
    ensures
        res == white_space(c),
{
    let n: u32 = c as u32;
    (0x9 <= n && n <= 0xd) || n == 0x20 || n == 0x85 || n == 0xa0 || n == 0x1680
        || (0x2000 <= n && n <= 0x200a) || n == 0x2028 || n == 0x2029 || n == 0x202f || n
        == 0x205f || n == 0x3000
}

fn chars_of(s: &str) -> (res: Vec<char>)
    ensures
        res@ == s@,
{
    let mut res: Vec<char> = Vec::new();
    for c in it: s.chars()
        invariant
            it.seq() == s@,
            res@ == s@.take(it.index() as int),
    {
        res.push(c);
    }
    res
}

/// `s` without the white space at its end.
pub fn trim_end(s: &str) -> (res: String)
    ensures
        res@ == trimmed(s@),
{
    let mut keep: usize = 0;
    let mut seen: usize = 0;
    let total: usize = s.unicode_len();
    for c in it: s.chars()
        invariant
            it.seq() == s@,
            total == s@.len(),
            seen == it.index(),
            keep <= seen,
            forall|i: int| keep <= i < seen ==> white_space(#[trigger] s@[i]),
            keep > 0 ==> !white_space(s@[keep - 1]),
    {
        seen = seen + 1;
        if !is_whitespace(c) {
            keep = seen;
        }
    }
    proof {
        lemma_trimmed_prefix(s@, keep as int);
    }
    s.substring_char(0, keep).to_owned()
}

/// The words of `s` with one space between each two of them.
pub fn squeeze(s: &str) -> (res: Vec<char>)
    ensures
        res@ == squeezed(s@),
{
    let mut res: Vec<char> = Vec::new();
    let mut in_word: bool = false;
    for c in it: s.chars()
        invariant
            it.seq() == s@,
            res@ == squeezed(s@.take(it.index() as int)),
            in_word == (it.index() > 0 && !white_space(s@[it.index() - 1])),
    {
        let ghost n = it.index() as int;
        let ghost before = s@.take(n);
        let ghost after = s@.take(n + 1);
        proof {
            assert(after.drop_last() =~= before);
            assert(after.last() == c);
            lemma_words_are_not_empty(before);
            lemma_joined_is_empty(words(before), seq![' ']);
            if n > 0 {
                assert(before.last() == s@[n - 1]);
            }
        }
        if is_whitespace(c) {
            in_word = false;
        } else {
            if in_word {
                proof {
                    lemma_joined_last_grows(words(before), seq![' '], c);
                }
                res.push(c);
            } else {
                let ghost text = res@;
                if res.len() > 0 {
                    proof {
                        lemma_joined_push(words(before), seq![' '], seq![c]);
                    }
                    res.push(' ');
                }
                res.push(c);
                proof {
                    if text.len() > 0 {
                        assert(res@ =~= text + seq![' '] + seq![c]);
                    } else {
                        assert(words(after) =~= seq![seq![c]]);
                        assert(res@ =~= seq![c]);
                    }
                }
            }
            in_word = true;
        }
    }
    proof {
        assert(s@.take(s@.len() as int) =~= s@);
    }
    res
}

fn is_at(text: &Vec<char>, pattern: &Vec<char>, at: usize) -> (res: bool)
    requires
        at + pattern.len() <= text.len(),
    ensures
        res == stands_at(text@, pattern@, at as int),
{
    for i in 0..pattern.len()
        invariant
            at + pattern.len() <= text.len(),
            forall|j: int| 0 <= j < i ==> text@[at + j] == #[trigger] pattern@[j],
    {
        if text[at + i] != pattern[i] {
            proof {
                let part = text@.subrange(at as int, at + pattern@.len());
                assert(part[i as int] != pattern@[i as int]);
            }
            return false;
        }
    }
    proof {
        assert(text@.subrange(at as int, at + pattern@.len()) =~= pattern@);
    }
    true
}

/// Tells whether `text` is `expected`.
pub fn is_text(text: &Vec<char>, expected: &str) -> (res: bool)
    ensures
        res == (text@ == expected@),
{
    let expected: Vec<char> = chars_of(expected);
    if text.len() != expected.len() {
        return false;
    }
    proof {
        assert(text@.subrange(0, expected@.len() as int) =~= text@);
    }
    is_at(text, &expected, 0)
}

/// Tells whether `text` begins with `prefix`.
pub fn starts_with(text: &Vec<char>, prefix: &str) -> (res: bool)
    ensures
        res == prefix@.is_prefix_of(text@),
{
    let prefix: Vec<char> = chars_of(prefix);
    if text.len() < prefix.len() {
        return false;
    }
    is_at(text, &prefix, 0)
}

/// Tells whether `pattern` stands somewhere in `text`.
pub fn contains(text: &str, pattern: &str) -> (res: bool)
    ensures
        res == occurs(text@, pattern@),
{
    let chars: Vec<char> = chars_of(text);
    let wanted: Vec<char> = chars_of(pattern);
    if chars.len() < wanted.len() {
        return false;
    }
    let last: usize = chars.len() - wanted.len();
    let mut at: usize = 0;
    while at < last && !is_at(&chars, &wanted, at)
        invariant
            at <= last,
            last + wanted.len() == chars.len(),
            forall|i: int| 0 <= i < at ==> !stands_at(chars@, wanted@, i),
        decreases last - at,
    {
        at = at + 1;
    }
    is_at(&chars, &wanted, at)
}

/// What a file holds of some rows: each on a line of its own.
pub open spec fn lines_text(rows: Seq<Seq<char>>) -> Seq<char> {
    joined(rows, "\n"@) + "\n"@
}

/// Writes each row on a line of its own.
pub fn to_lines(rows: &Vec<String>) -> (res: String)
    ensures
        res@ == lines_text(texts(rows@)),
{
    let mut res: String = String::new();
    for i in 0..rows.len()
        invariant
            res@ == joined(texts(rows@).take(i as int), "\n"@),
    {
        proof {
            let before = texts(rows@).take(i as int);
            assert(texts(rows@).take(i + 1) =~= before.push(rows@[i as int]@));
            if i > 0 {
                lemma_joined_push(before, "\n"@, rows@[i as int]@);
            }
        }
        if i > 0 {
            res.append("\n");
        }
        res.append(rows[i].as_str());
    }
    proof {
        assert(texts(rows@).take(rows@.len() as int) =~= texts(rows@));
    }
    res.append("\n");
    res
}

} // verus!
