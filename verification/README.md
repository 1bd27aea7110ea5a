# transcript_export

Exports the transcript of a Codex session from the pager that shows it, by
pressing the pager's keys and reading the screen, and leaves the pager where it
was.

The library in `src/` is verified with Verus:

- `text`: white space, words and lines.
- `transcript`: the transcript view of a screen.
- `scroll`: how far a view has moved, told from its rows.
- `failure`: why an export ends without a transcript.
- `capture`: the capture of one transcript, a state machine that is polled.
- `model`: what a capture does, as a function of its state and what it sees.
- `pager`: a pager over a document, and a capture that pages through it.
- `fidelity`: what a capture hands out is the whole document, and the view is
  back where it was.
- `progress`: a capture that nothing hinders does not fail, and it ends.
- `laws`: what holds of every poll.
- `export`, `export_model`: which requests become exports, and how they are
  answered.

The library reads no clock and no terminal, and nothing in it is trusted
without proof. `app/` connects it to both: it looks at the terminals and
clients of a server, hands in what it finds, presses keys and sends answers.
