//! How far a view of rows has moved, told from the rows that it shows.

use vstd::prelude::*;

use crate::text::texts;

verus! {

/// Moving `older` up by `shift` rows gives what `newer` shows above its last `shift` rows.
pub open spec fn overlaps(
    older: Seq<Seq<char>>,
    newer: Seq<Seq<char>>,
    shift: int,
) -> bool {
    older.subrange(shift, older.len() as int) == newer.subrange(0, newer.len() - shift)
}

/// A move of `shift` rows, one at least and `maximum` at most, explains both views, which then
/// have a row in common.
pub open spec fn explains(
    older: Seq<Seq<char>>,
    newer: Seq<Seq<char>>,
    maximum: nat,
    shift: nat,
) -> bool {
    &&& 1 <= shift <= maximum
    &&& shift < older.len()
    &&& overlaps(older, newer, shift as int)
}

/// `shift` is the one move that explains both views.
pub open spec fn only_explains(
    older: Seq<Seq<char>>,
    newer: Seq<Seq<char>>,
    maximum: nat,
    shift: nat,
) -> bool {
    &&& explains(older, newer, maximum, shift)
    &&& forall|other: nat| explains(older, newer, maximum, other) ==> other == shift
}

/// The move that explains both views, if there is one and no other does.
pub open spec fn distance(
    older: Seq<Seq<char>>,
    newer: Seq<Seq<char>>,
    maximum: nat,
) -> Option<nat> {
    if exists|shift: nat| only_explains(older, newer, maximum, shift) {
        Some(choose|shift: nat| only_explains(older, newer, maximum, shift))
    } else {
        None
    }
}

/// Some move of at most `maximum` rows could leave the view as it is.
pub open spec fn repeats(rows: Seq<Seq<char>>, maximum: nat) -> bool {
    exists|shift: nat| explains(rows, rows, maximum, shift)
}

/// Each row of `newer` but the last `shift` ones is the row of `older` that is `shift` rows further
/// down.
pub open spec fn moved(older: Seq<Seq<char>>, newer: Seq<Seq<char>>, shift: int) -> bool {
    &&& older.len() == newer.len()
    &&& forall|i: int| 0 <= i < newer.len() - shift ==> #[trigger] newer[i] == older[i + shift]
}

proof fn lemma_overlap_is_a_move(older: Seq<Seq<char>>, newer: Seq<Seq<char>>, shift: int)
    requires
        0 <= shift <= older.len(),
        shift <= newer.len(),
    ensures
        overlaps(older, newer, shift) <==> moved(older, newer, shift),
{
    let below = older.subrange(shift, older.len() as int);
    let above = newer.subrange(0, newer.len() - shift);
    if overlaps(older, newer, shift) {
        assert(below.len() == above.len());
        assert forall|i: int| 0 <= i < newer.len() - shift implies #[trigger] newer[i] == older[i
            + shift] by {
            assert(above[i] == below[i]);
        }
    }
    if moved(older, newer, shift) {
        assert forall|i: int| 0 <= i < below.len() implies below[i] == above[i] by {
            assert(newer[i] == older[i + shift]);
        }
        assert(below =~= above);
    }
}

/// The view moved by `rows` rows, from one to `maximum`, row by row and with a row left in common,
/// and by no other such number.
pub open spec fn only_move(
    older: Seq<Seq<char>>,
    newer: Seq<Seq<char>>,
    maximum: nat,
    rows: nat,
) -> bool {
    &&& 1 <= rows <= maximum
    &&& rows < older.len()
    &&& moved(older, newer, rows as int)
    &&& forall|other: int|
        1 <= other <= maximum && other < older.len() && #[trigger] moved(older, newer, other)
            ==> other == rows
}

/// A distance is told exactly where one number of rows, from one to the greatest that is allowed,
/// is how far the view moved row by row with a row left in common, and no other such number is.
pub proof fn law_distance_is_the_only_move(
    older: Seq<Seq<char>>,
    newer: Seq<Seq<char>>,
    maximum: nat,
    rows: nat,
)
    requires
        older.len() <= newer.len() + 1 || maximum <= newer.len(),
    ensures
        distance(older, newer, maximum) == Some(rows) <==> only_move(older, newer, maximum, rows),
{
    assert forall|other: int| 1 <= other <= maximum && other < older.len() implies moved(
        older,
        newer,
        other,
    ) == explains(older, newer, maximum, other as nat) by {
        lemma_overlap_is_a_move(older, newer, other);
    }
    if distance(older, newer, maximum) == Some(rows) {
        assert(only_explains(older, newer, maximum, rows));
        assert forall|other: int|
            1 <= other <= maximum && other < older.len() && #[trigger] moved(
                older,
                newer,
                other,
            ) implies other == rows by {
            assert(explains(older, newer, maximum, other as nat));
        }
        assert(moved(older, newer, rows as int));
    } else if only_move(older, newer, maximum, rows) {
        assert forall|other: nat| explains(older, newer, maximum, other) implies other == rows by {
            assert(moved(older, newer, other as int));
        }
        assert(only_explains(older, newer, maximum, rows));
    }
}

pub(crate) proof fn lemma_distance(older: Seq<Seq<char>>, newer: Seq<Seq<char>>, maximum: nat)
    requires
        older.len() == newer.len(),
    ensures
        distance(older, newer, maximum) matches Some(rows) ==> only_move(
            older,
            newer,
            maximum,
            rows,
        ),
        forall|rows: nat| #[trigger]
            only_move(older, newer, maximum, rows) ==> distance(older, newer, maximum) == Some(
                rows,
            ),
{
    if let Some(rows) = distance(older, newer, maximum) {
        law_distance_is_the_only_move(older, newer, maximum, rows);
    }
    assert forall|rows: nat| #[trigger] only_move(older, newer, maximum, rows) implies distance(
        older,
        newer,
        maximum,
    ) == Some(rows) by {
        law_distance_is_the_only_move(older, newer, maximum, rows);
    }
}

/// Rows repeat exactly where moving them by some number of rows, from one to the greatest that is
/// allowed, with a row left in common, leaves each row the same. Two equal rows alone are no
/// repetition.
pub proof fn law_repeated_rows_stay_the_same(rows: Seq<Seq<char>>, maximum: nat)
    ensures
        repeats(rows, maximum) <==> exists|shift: int|
            1 <= shift <= maximum && shift < rows.len() && #[trigger] moved(rows, rows, shift),
{
    if repeats(rows, maximum) {
        let shift = choose|shift: nat| explains(rows, rows, maximum, shift);
        lemma_overlap_is_a_move(rows, rows, shift as int);
        assert(moved(rows, rows, shift as int));
    }
    if exists|shift: int|
        1 <= shift <= maximum && shift < rows.len() && #[trigger] moved(rows, rows, shift) {
        let shift = choose|shift: int|
            1 <= shift <= maximum && shift < rows.len() && #[trigger] moved(rows, rows, shift);
        lemma_overlap_is_a_move(rows, rows, shift);
        assert(explains(rows, rows, maximum, shift as nat));
    }
}

fn is_overlap(older: &[String], newer: &[String], shift: usize) -> (res: bool)
    requires
        shift <= older.len(),
        shift <= newer.len(),
    ensures
        res == overlaps(texts(older@), texts(newer@), shift as int),
{
    let ghost below = texts(older@).subrange(shift as int, older@.len() as int);
    let ghost above = texts(newer@).subrange(0, newer@.len() - shift);
    if older.len() != newer.len() {
        assert(below.len() != above.len());
        return false;
    }
    for i in shift..older.len()
        invariant
            shift <= older.len(),
            older.len() == newer.len(),
            below == texts(older@).subrange(shift as int, older@.len() as int),
            above == texts(newer@).subrange(0, newer@.len() - shift),
            forall|j: int| 0 <= j < i - shift ==> #[trigger] below[j] == above[j],
    {
        if older[i] != newer[i - shift] {
            assert(below[i - shift] != above[i - shift]);
            return false;
        }
    }
    assert(below =~= above);
    true
}

/// Tells whether some move of at most `maximum` rows could leave the view as it is.
pub fn periodic(rows: &[String], maximum: usize) -> (res: bool)
    ensures
        res == repeats(texts(rows@), maximum as nat),
{
    let mut shift: usize = 1;
    while shift <= maximum && shift < rows.len()
        invariant
            1 <= shift,
            shift <= rows.len() || shift == 1,
            forall|other: nat|
                other < shift ==> !explains(texts(rows@), texts(rows@), maximum as nat, other),
        decreases rows.len() - shift,
    {
        if is_overlap(rows, rows, shift) {
            assert(explains(texts(rows@), texts(rows@), maximum as nat, shift as nat));
            return true;
        }
        shift = shift + 1;
    }
    false
}

/// How far a view moved down from `older` to `newer`, where `maximum` rows were asked for: the
/// single overlap of the two, so that a move cut short by an edge is measured too.
pub fn scroll_distance(older: &[String], newer: &[String], maximum: usize) -> (res: Option<usize>)
    requires
        maximum <= newer.len() || older.len() <= newer.len() + 1,
    ensures
        res matches Some(rows) ==> distance(texts(older@), texts(newer@), maximum as nat) == Some(
            rows as nat,
        ),
        res is None ==> distance(texts(older@), texts(newer@), maximum as nat) is None,
{
    let ghost a = texts(older@);
    let ghost b = texts(newer@);
    let mut found: Option<usize> = None;
    let mut shift: usize = 1;
    while shift <= maximum && shift < older.len()
        invariant
            1 <= shift,
            shift <= older.len() || shift == 1,
            maximum <= newer.len() || older.len() <= newer.len() + 1,
            a == texts(older@),
            b == texts(newer@),
            found matches Some(rows) ==> {
                &&& explains(a, b, maximum as nat, rows as nat)
                &&& rows < shift
                &&& forall|other: nat|
                    other < shift && explains(a, b, maximum as nat, other) ==> other == rows
            },
            found is None ==> forall|other: nat|
                other < shift ==> !explains(a, b, maximum as nat, other),
        decreases older.len() - shift,
    {
        if is_overlap(older, newer, shift) {
            assert(explains(a, b, maximum as nat, shift as nat));
            if found.is_some() {
                return None;
            }
            found = Some(shift);
        }
        shift = shift + 1;
    }
    proof {
        if let Some(rows) = found {
            assert(only_explains(a, b, maximum as nat, rows as nat));
        }
    }
    found
}

} // verus!
