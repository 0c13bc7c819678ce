//! The state the UI owns: the edited input and its cursor, the command
//! history, the output of the current run, and the decision to run the input
//! again by itself once editing has paused.

use crate::clock::millis_since;
use crate::execution::{ExecResult, UiMsg};
use crate::lines::{complete_lines, split_lines_into, texts, unfinished_line};
use crate::parser::{
    display_width, display_width_of, grapheme_starts_of, is_next_boundary, is_prev_boundary,
    next_grapheme_boundary, prev_grapheme_boundary,
};
use crate::text::{
    blank, bytes_of, decimal, decimal_of, insert_at, is_blank, remove_range, strip_last_char,
};
use std::time::Instant;
use vstd::prelude::*;
use vstd::string::StringExecFns;
use vstd::utf8::{decode_utf8, encode_utf8, is_char_boundary};

verus! {

/// The most entries the history keeps; the oldest go first.
pub const HISTORY_LIMIT: usize = 500;

/// How long the input must stay unedited before it runs by itself, in
/// milliseconds.
pub const QUIET_PERIOD_MS: u64 = 250;

pub struct App {
    pub input: String,
    /// A byte offset into `input`, on a character boundary.
    pub cursor: usize,
    pub history: Vec<String>,
    /// The history entry shown in the input while browsing the history.
    pub hist_pos: Option<usize>,
    pub output_lines: Vec<String>,
    pub error_lines: Vec<String>,
    pub status_line: String,
    pub stdout_partial: String,
    pub stderr_partial: String,
    pub is_running: bool,
    pub last_run_cmd: Option<String>,
    /// When the input was last edited, in milliseconds of `clock`; `None`
    /// when no edit waits to be run.
    pub last_edit_at: Option<u64>,
    pub append_history_on_finish: bool,
    /// The origin of the times in `last_edit_at`.
    pub clock: Instant,
}

/// The text of an optional string.
pub open spec fn opt_text(s: Option<String>) -> Option<Seq<char>> {
    match s {
        Some(t) => Some(t@),
        None => None,
    }
}

/// The milliseconds from `then` to `now`; none when the clock reads earlier.
pub open spec fn elapsed(then: u64, now: u64) -> int {
    if now >= then {
        now - then
    } else {
        0
    }
}

/// When the input is run by itself: no run is in flight, an edit is pending
/// and at least the quiet period old, the input is not blank, and it is not
/// the command that was run last.
pub open spec fn auto_run_rule(app: App, now: u64) -> bool {
    &&& !app.is_running
    &&& app.last_edit_at is Some
    &&& elapsed(app.last_edit_at->Some_0, now) >= QUIET_PERIOD_MS
    &&& !is_blank(app.input@)
    &&& opt_text(app.last_run_cmd) != Some(app.input@)
}

/// The history after `entry` is added: nothing changes when it equals the
/// newest entry; otherwise it goes at the end and the oldest entries leave
/// until at most `HISTORY_LIMIT` remain.
pub open spec fn history_after(h: Seq<Seq<char>>, entry: Seq<char>) -> Seq<Seq<char>> {
    if h.len() > 0 && h.last() == entry {
        h
    } else if h.len() + 1 > HISTORY_LIMIT {
        h.push(entry).subrange(h.len() + 1 - HISTORY_LIMIT, h.len() + 1int)
    } else {
        h.push(entry)
    }
}

/// A history within its bound, with no entry repeated right after itself.
pub open spec fn history_ok(h: Seq<Seq<char>>) -> bool {
    &&& h.len() <= HISTORY_LIMIT
    &&& forall|i: int| 0 <= i < h.len() - 1 ==> #[trigger] h[i] != h[i + 1]
}

/// `h` with each run of equal neighbouring entries kept once.
pub open spec fn collapse_repeats(h: Seq<Seq<char>>) -> Seq<Seq<char>>
    decreases h.len(),
{
    if h.len() == 0 {
        h
    } else {
        let c = collapse_repeats(h.drop_last());
        if c.len() > 0 && c.last() == h.last() {
            c
        } else {
            c.push(h.last())
        }
    }
}

/// A loaded history as it is kept: repeated neighbours collapsed, and only
/// the newest `HISTORY_LIMIT` entries.
pub open spec fn loaded_history(h: Seq<Seq<char>>) -> Seq<Seq<char>> {
    last_n(collapse_repeats(h), HISTORY_LIMIT as int)
}

/// The lines a whole captured stream shows: its complete lines, then what
/// follows the last newline unless that is empty.
pub open spec fn all_lines(s: Seq<char>) -> Seq<Seq<char>> {
    if unfinished_line(s).len() > 0 {
        complete_lines(s).push(unfinished_line(s))
    } else {
        complete_lines(s)
    }
}

/// A line as flushed at the end of a run: without any `'\r'` that ends it.
pub open spec fn trim_cr(s: Seq<char>) -> Seq<char>
    decreases s.len(),
{
    if s.len() > 0 && s.last() == '\r' {
        trim_cr(s.drop_last())
    } else {
        s
    }
}

/// The lines after the end of a run flushes the unfinished one.
pub open spec fn flushed(lines: Seq<Seq<char>>, partial: Seq<char>) -> Seq<Seq<char>> {
    if partial.len() > 0 {
        lines.push(trim_cr(partial))
    } else {
        lines
    }
}

/// The last `height` of `lines`, all of them when they are fewer.
pub open spec fn last_n(lines: Seq<Seq<char>>, height: int) -> Seq<Seq<char>> {
    if lines.len() <= height {
        lines
    } else {
        lines.subrange(lines.len() - height, lines.len() as int)
    }
}

/// The lines a stream's pane can show in `height` rows, two of which are its
/// border: the last complete lines, then the unfinished one if any.
pub open spec fn view_lines(lines: Seq<Seq<char>>, partial: Seq<char>, height: u16) -> Seq<
    Seq<char>,
> {
    let all = if partial.len() > 0 {
        lines.push(partial)
    } else {
        lines
    };
    last_n(all, if height >= 2 { height - 2 } else { 0 })
}

/// Fields that only edits change.
pub open spec fn same_input(a: App, b: App) -> bool {
    &&& a.input == b.input
    &&& a.cursor == b.cursor
    &&& a.hist_pos == b.hist_pos
    &&& a.last_edit_at == b.last_edit_at
    &&& a.clock == b.clock
}

/// Fields that only runs change.
pub open spec fn same_run(a: App, b: App) -> bool {
    &&& a.is_running == b.is_running
    &&& a.last_run_cmd == b.last_run_cmd
    &&& a.append_history_on_finish == b.append_history_on_finish
    &&& a.status_line == b.status_line
}

/// Fields that only output changes.
pub open spec fn same_output(a: App, b: App) -> bool {
    &&& a.output_lines == b.output_lines
    &&& a.error_lines == b.error_lines
    &&& a.stdout_partial == b.stdout_partial
    &&& a.stderr_partial == b.stderr_partial
}

/// What `prepare_run` does: a blank command is refused and changes nothing;
/// any other is recorded as the last run, marks a run in flight, ends the
/// pending edit and the history browsing, and notes whether to add it to the
/// history when done.
pub open spec fn prepared(a: App, b: App, cmd: Seq<char>, manual: bool, accepted: bool) -> bool {
    &&& accepted == !is_blank(cmd)
    &&& !accepted ==> a == b
    &&& accepted ==> {
        &&& b.hist_pos is None
        &&& opt_text(b.last_run_cmd) == Some(cmd)
        &&& b.last_edit_at is None
        &&& b.append_history_on_finish == manual
        &&& b.input == a.input
        &&& b.cursor == a.cursor
        &&& b.clock == a.clock
        &&& b.is_running
        &&& b.status_line == a.status_line
        &&& b.history == a.history
        &&& same_output(a, b)
    }
}

/// What `finish_run` does to the history and to the run's state: the command
/// is added to the history exactly when the run was a manual one and the
/// command is not blank; `saved` tells whether the history changed.
pub open spec fn recorded(a: App, b: App, res: ExecResult, saved: bool) -> bool {
    let add = a.append_history_on_finish && !is_blank(res.cmd@);
    &&& !b.is_running
    &&& !b.append_history_on_finish
    &&& b.status_line@ == "exit "@ + decimal_of(res.status as int)
    &&& b.last_run_cmd == a.last_run_cmd
    &&& texts(b.history@) == (if add {
        history_after(texts(a.history@), res.cmd@)
    } else {
        texts(a.history@)
    })
    &&& saved == (add && !(texts(a.history@).len() > 0 && texts(a.history@).last() == res.cmd@))
    &&& b.hist_pos == (if saved {
        None
    } else {
        a.hist_pos
    })
    &&& b.input == a.input
    &&& b.cursor == a.cursor
    &&& b.last_edit_at == a.last_edit_at
    &&& b.clock == a.clock
}

/// What `auto_submit_at` does: when the input is due at `now` it is
/// submitted as an automatic run and returned; otherwise nothing changes.
pub open spec fn auto_submitted(a: App, b: App, now: u64, r: Option<String>) -> bool {
    &&& (r is Some <==> auto_run_rule(a, now))
    &&& (r is None ==> b == a)
    &&& (r matches Some(cmd) ==> cmd@ == a.input@ && prepared(a, b, cmd@, false, true))
}

/// The state once a run has started.
pub open spec fn began(a: App, b: App) -> bool {
    &&& b.status_line@ == "running..."@
    &&& b.output_lines@.len() == 0
    &&& b.error_lines@.len() == 0
    &&& b.stdout_partial@.len() == 0
    &&& b.stderr_partial@.len() == 0
    &&& b.is_running
    &&& b.last_run_cmd == a.last_run_cmd
    &&& b.append_history_on_finish == a.append_history_on_finish
    &&& b.history == a.history
    &&& same_input(a, b)
}

/// The state after stdout text arrives.
pub open spec fn got_stdout(a: App, b: App, chunk: Seq<char>) -> bool {
    &&& texts(b.output_lines@) == texts(a.output_lines@) + complete_lines(
        a.stdout_partial@ + chunk,
    )
    &&& b.stdout_partial@ == unfinished_line(a.stdout_partial@ + chunk)
    &&& b.error_lines == a.error_lines
    &&& b.stderr_partial == a.stderr_partial
    &&& b.history == a.history
    &&& same_input(a, b)
    &&& same_run(a, b)
}

/// The state after stderr text arrives.
pub open spec fn got_stderr(a: App, b: App, chunk: Seq<char>) -> bool {
    &&& texts(b.error_lines@) == texts(a.error_lines@) + complete_lines(
        a.stderr_partial@ + chunk,
    )
    &&& b.stderr_partial@ == unfinished_line(a.stderr_partial@ + chunk)
    &&& b.output_lines == a.output_lines
    &&& b.stdout_partial == a.stdout_partial
    &&& b.history == a.history
    &&& same_input(a, b)
    &&& same_run(a, b)
}

/// The state once a run has finished.
pub open spec fn run_finished(a: App, b: App, res: ExecResult, saved: bool) -> bool {
    &&& recorded(a, b, res, saved)
    &&& ({
        let out = flushed(texts(a.output_lines@), a.stdout_partial@);
        texts(b.output_lines@) == if out.len() > 0 {
            out
        } else if res.stdout@.len() == 0 {
            seq!["<no stdout>"@]
        } else {
            all_lines(res.stdout@)
        }
    })
    &&& ({
        let err = flushed(texts(a.error_lines@), a.stderr_partial@);
        texts(b.error_lines@) == if err.len() == 0 && res.stderr@.len() > 0 {
            all_lines(res.stderr@)
        } else {
            err
        }
    })
    &&& b.stdout_partial@.len() == 0
    &&& b.stderr_partial@.len() == 0
}

/// The state after stepping back through the history.
pub open spec fn browsed_back(a: App, b: App) -> bool {
    &&& (a.history@.len() == 0 ==> b == a)
    &&& (a.history@.len() > 0 ==> {
        let idx = match a.hist_pos {
            None => a.history@.len() - 1,
            Some(i) => if i == 0 {
                0
            } else {
                i - 1
            },
        };
        &&& b.hist_pos == Some(idx as usize)
        &&& b.input@ == a.history@[idx]@
        &&& b.cursor == bytes_of(b.input@).len()
        &&& b.last_run_cmd == a.last_run_cmd
        &&& b.last_edit_at is Some
        &&& b.history == a.history
        &&& b.is_running == a.is_running
        &&& b.append_history_on_finish == a.append_history_on_finish
        &&& b.clock == a.clock
        &&& same_output(a, b)
    })
}

/// The state after stepping forward through the history.
pub open spec fn browsed_forward(a: App, b: App) -> bool {
    &&& (a.history@.len() == 0 ==> b == a)
    &&& (a.history@.len() > 0 ==> {
        &&& match a.hist_pos {
            Some(i) if i + 1 < a.history@.len() => {
                &&& b.hist_pos == Some((i + 1) as usize)
                &&& b.input@ == a.history@[i + 1]@
                &&& b.cursor == bytes_of(b.input@).len()
            },
            _ => {
                &&& b.hist_pos is None
                &&& b.input@.len() == 0
                &&& b.cursor == 0
            },
        }
        &&& b.last_run_cmd == a.last_run_cmd
        &&& b.last_edit_at is Some
        &&& b.history == a.history
        &&& b.is_running == a.is_running
        &&& b.append_history_on_finish == a.append_history_on_finish
        &&& b.clock == a.clock
        &&& same_output(a, b)
    })
}

/// The state after typing `ch` at the cursor.
pub open spec fn inserted(a: App, b: App, ch: char) -> bool {
    &&& bytes_of(b.input@) == bytes_of(a.input@).subrange(
        0,
        a.cursor as int,
    ) + encode_utf8(seq![ch]) + bytes_of(a.input@).subrange(
        a.cursor as int,
        bytes_of(a.input@).len() as int,
    )
    &&& is_next_boundary(
        grapheme_starts_of(b.input@),
        bytes_of(b.input@).len() as int,
        a.cursor,
        b.cursor,
    )
    &&& b.hist_pos is None
    &&& b.last_edit_at is Some
    &&& b.history == a.history
    &&& b.clock == a.clock
    &&& same_run(a, b)
    &&& same_output(a, b)
}

/// The state after deleting the cluster before the cursor.
pub open spec fn deleted_backward(a: App, b: App) -> bool {
    &&& (a.cursor == 0 ==> b == a)
    &&& (a.cursor > 0 ==> {
        &&& is_prev_boundary(
            grapheme_starts_of(a.input@),
            a.cursor,
            b.cursor,
        )
        &&& bytes_of(b.input@) == bytes_of(a.input@).subrange(
            0,
            b.cursor as int,
        ) + bytes_of(a.input@).subrange(
            a.cursor as int,
            bytes_of(a.input@).len() as int,
        )
        &&& b.hist_pos is None
        &&& b.last_edit_at is Some
        &&& b.history == a.history
        &&& b.clock == a.clock
        &&& same_run(a, b)
        &&& same_output(a, b)
    })
}

/// The state after deleting the cluster at the cursor.
pub open spec fn deleted_forward(a: App, b: App) -> bool {
    &&& (a.cursor >= bytes_of(a.input@).len() ==> b == a)
    &&& (a.cursor < bytes_of(a.input@).len() ==> {
        &&& exists|next: usize|
            is_next_boundary(
                grapheme_starts_of(a.input@),
                bytes_of(a.input@).len() as int,
                a.cursor,
                next,
            ) && bytes_of(b.input@) == bytes_of(a.input@).subrange(
                0,
                a.cursor as int,
            ) + bytes_of(a.input@).subrange(
                next as int,
                bytes_of(a.input@).len() as int,
            )
        &&& b.cursor == a.cursor
        &&& b.hist_pos is None
        &&& b.last_edit_at is Some
        &&& b.history == a.history
        &&& b.clock == a.clock
        &&& same_run(a, b)
        &&& same_output(a, b)
    })
}

/// The state after the input is emptied.
pub open spec fn cleared(a: App, b: App) -> bool {
    &&& b.input@.len() == 0
    &&& b.cursor == 0
    &&& b.hist_pos is None
    &&& b.last_edit_at is Some
    &&& b.history == a.history
    &&& b.clock == a.clock
    &&& same_run(a, b)
    &&& same_output(a, b)
}

/// The state after the cursor moves to the start.
pub open spec fn moved_home(a: App, b: App) -> bool {
    &&& b.cursor == 0
    &&& b == (App { cursor: 0, ..a })
}

/// The state after the cursor moves to the end.
pub open spec fn moved_end(a: App, b: App) -> bool {
    &&& b.cursor == bytes_of(a.input@).len()
    &&& b == (App { cursor: b.cursor, ..a })
}

/// The state after the cursor moves one cluster left.
pub open spec fn moved_left(a: App, b: App) -> bool {
    &&& is_prev_boundary(grapheme_starts_of(a.input@), a.cursor, b.cursor)
    &&& b == (App { cursor: b.cursor, ..a })
}

/// The state after the cursor moves one cluster right.
pub open spec fn moved_right(a: App, b: App) -> bool {
    &&& is_next_boundary(
        grapheme_starts_of(a.input@),
        bytes_of(a.input@).len() as int,
        a.cursor,
        b.cursor,
    )
    &&& b == (App { cursor: b.cursor, ..a })
}

impl App {
    /// The cursor sits on a character boundary of the input, a browsed
    /// history entry exists, and the history is within its bound with no
    /// entry repeated right after itself.
    pub open spec fn wf(&self) -> bool {
        &&& is_char_boundary(bytes_of(self.input@), self.cursor as int)
        &&& (self.hist_pos matches Some(i) ==> i < self.history@.len())
        &&& history_ok(texts(self.history@))
    }

    /// A fresh state around a history loaded by the caller, of which it keeps
    /// the newest `HISTORY_LIMIT` entries, each repeated neighbour once.
    pub fn new(history: Vec<String>) -> (r: App)
        ensures
            r.wf(),
            r.input@ == Seq::<char>::empty(),
            r.cursor == 0,
            texts(r.history@) == loaded_history(texts(history@)),
            r.hist_pos is None,
            texts(r.output_lines@) == seq!["(output will appear here)"@],
            r.error_lines@.len() == 0,
            r.status_line@ == "Ready"@,
            r.stdout_partial@ == Seq::<char>::empty(),
            r.stderr_partial@ == Seq::<char>::empty(),
            !r.is_running,
            r.last_run_cmd is None,
            r.last_edit_at is None,
            !r.append_history_on_finish,
    {
        let mut kept: Vec<String> = Vec::new();
        let mut i: usize = 0;
        while i < history.len()
            invariant
                i <= history@.len(),
                texts(kept@) == collapse_repeats(texts(history@).subrange(0, i as int)),
            decreases history@.len() - i,
        {
            let ghost before = kept@;
            let n = kept.len();
            let repeat = n > 0 && kept[n - 1] == history[i];
            if !repeat {
                kept.push(history[i].clone());
                proof {
                    assert(texts(kept@) =~= texts(before).push(history@[i as int]@));
                }
            }
            proof {
                let sub = texts(history@).subrange(0, i + 1);
                assert(sub.drop_last() =~= texts(history@).subrange(0, i as int));
                assert(sub.last() == history@[i as int]@);
            }
            i = i + 1;
        }
        proof {
            assert(texts(history@).subrange(0, history@.len() as int) =~= texts(history@));
            lemma_collapse_repeats_ok(texts(history@));
        }
        if kept.len() > HISTORY_LIMIT {
            let cut = kept.len() - HISTORY_LIMIT;
            kept = kept.split_off(cut);
        }
        proof {
            lemma_last_n_ok(collapse_repeats(texts(history@)));
        }
        let mut output_lines: Vec<String> = Vec::new();
        output_lines.push(String::from_str("(output will appear here)"));
        let r = App {
            input: String::new(),
            cursor: 0,
            history: kept,
            hist_pos: None,
            output_lines,
            error_lines: Vec::new(),
            status_line: String::from_str("Ready"),
            stdout_partial: String::new(),
            stderr_partial: String::new(),
            is_running: false,
            last_run_cmd: None,
            last_edit_at: None,
            append_history_on_finish: false,
            clock: Instant::now(),
        };
        proof {
            assert(texts(r.output_lines@) =~= seq!["(output will appear here)"@]);
            assert(texts(r.history@) =~= loaded_history(texts(history@)));
        }
        r
    }

    /// A run has started: its output panes are emptied.
    pub fn begin_run(&mut self, _cmd: String)
        ensures
            began(*old(self), *final(self)),
    {
        self.status_line = String::from_str("running...");
        self.output_lines = Vec::new();
        self.error_lines = Vec::new();
        self.stdout_partial = String::new();
        self.stderr_partial = String::new();
        self.is_running = true;
    }

    /// Adds stdout text: the lines it completes join the stdout lines.
    pub fn append_stdout_chunk(&mut self, chunk: String)
        ensures
            got_stdout(*old(self), *final(self), chunk@),
    {
        Self::append_chunk(chunk, &mut self.stdout_partial, &mut self.output_lines);
    }

    /// Adds stderr text: the lines it completes join the stderr lines.
    pub fn append_stderr_chunk(&mut self, chunk: String)
        ensures
            got_stderr(*old(self), *final(self), chunk@),
    {
        Self::append_chunk(chunk, &mut self.stderr_partial, &mut self.error_lines);
    }

    fn append_chunk(chunk: String, partial: &mut String, lines: &mut Vec<String>)
        ensures
            texts(final(lines)@) == texts(old(lines)@) + complete_lines(old(partial)@ + chunk@),
            final(partial)@ == unfinished_line(old(partial)@ + chunk@),
    {
        partial.append(chunk.as_str());
        let rest = split_lines_into(partial.as_str(), lines);
        *partial = rest;
    }
}

/// The input never runs by itself while a run is in flight, nor when it is
/// the command run last, nor before the quiet period has passed since the
/// last edit.
pub proof fn lemma_auto_run_guards(app: App, now: u64)
    ensures
        auto_run_rule(app, now) ==> {
            &&& !app.is_running
            &&& opt_text(app.last_run_cmd) != Some(app.input@)
            &&& app.last_edit_at matches Some(t) && now >= t && now - t >= QUIET_PERIOD_MS
        },
{
}

/// Adding an entry keeps a history within its bound and free of an entry
/// repeated right after itself.
pub proof fn lemma_history_after_ok(h: Seq<Seq<char>>, entry: Seq<char>)
    requires
        history_ok(h),
    ensures
        history_ok(history_after(h, entry)),
{
    if h.len() > 0 && h.last() == entry {
    } else {
        let p = h.push(entry);
        assert forall|i: int| 0 <= i < p.len() - 1 implies #[trigger] p[i] != p[i + 1] by {
            if i < h.len() - 1 {
                assert(p[i] == h[i] && p[i + 1] == h[i + 1]);
            } else {
                assert(p[i] == h.last() && p[i + 1] == entry);
            }
        }
        if h.len() + 1 > HISTORY_LIMIT {
            let lo = h.len() + 1 - HISTORY_LIMIT;
            let q = p.subrange(lo, h.len() + 1int);
            assert forall|i: int| 0 <= i < q.len() - 1 implies #[trigger] q[i] != q[i + 1] by {
                assert(q[i] == p[lo + i] && q[i + 1] == p[lo + i + 1]);
            }
        }
    }
}

/// Collapsing repeated neighbours leaves no entry repeated right after
/// itself.
pub proof fn lemma_collapse_repeats_ok(h: Seq<Seq<char>>)
    ensures
        forall|i: int|
            0 <= i < collapse_repeats(h).len() - 1 ==> #[trigger] collapse_repeats(h)[i]
                != collapse_repeats(h)[i + 1],
    decreases h.len(),
{
    if h.len() > 0 {
        lemma_collapse_repeats_ok(h.drop_last());
        let c = collapse_repeats(h.drop_last());
        if !(c.len() > 0 && c.last() == h.last()) {
            let p = c.push(h.last());
            assert forall|i: int| 0 <= i < p.len() - 1 implies #[trigger] p[i] != p[i + 1] by {
                if i < c.len() - 1 {
                    assert(p[i] == c[i] && p[i + 1] == c[i + 1]);
                }
            }
        }
    }
}

/// Keeping the newest `HISTORY_LIMIT` entries of a history without repeated
/// neighbours gives a history within its bound.
pub proof fn lemma_last_n_ok(h: Seq<Seq<char>>)
    requires
        forall|i: int| 0 <= i < h.len() - 1 ==> #[trigger] h[i] != h[i + 1],
    ensures
        history_ok(last_n(h, HISTORY_LIMIT as int)),
{
    let q = last_n(h, HISTORY_LIMIT as int);
    if h.len() > HISTORY_LIMIT {
        let lo = h.len() - HISTORY_LIMIT;
        assert forall|i: int| 0 <= i < q.len() - 1 implies #[trigger] q[i] != q[i + 1] by {
            assert(q[i] == h[lo + i] && q[i + 1] == h[lo + i + 1]);
        }
    }
}

/// However a run ends, the history stays within its bound and free of an
/// entry repeated right after itself.
pub proof fn lemma_finish_keeps_history_ok(a: App, b: App, res: ExecResult, saved: bool)
    requires
        recorded(a, b, res, saved),
        history_ok(texts(a.history@)),
    ensures
        history_ok(texts(b.history@)),
{
    lemma_history_after_ok(texts(a.history@), res.cmd@);
}

/// A command submitted by hand and accepted is added to the history when its
/// run finishes; one submitted by itself leaves the history as it was. Any
/// steps between that keep the history and the pending flag may intervene.
pub proof fn lemma_submission_history(
    a0: App,
    a1: App,
    a2: App,
    a3: App,
    cmd: Seq<char>,
    manual: bool,
    res: ExecResult,
    saved: bool,
)
    requires
        prepared(a0, a1, cmd, manual, true),
        a2.history == a1.history,
        a2.append_history_on_finish == a1.append_history_on_finish,
        recorded(a2, a3, res, saved),
        res.cmd@ == cmd,
    ensures
        !is_blank(cmd),
        texts(a3.history@) == if manual {
            history_after(texts(a0.history@), cmd)
        } else {
            texts(a0.history@)
        },
{
}

/// A blank command is never submitted.
pub proof fn lemma_blank_refused(a0: App, a1: App, cmd: Seq<char>, manual: bool, accepted: bool)
    requires
        prepared(a0, a1, cmd, manual, accepted),
        is_blank(cmd),
    ensures
        !accepted,
        a1 == a0,
{
}

/// `s` without any `'\r'` that ends it.
fn trim_trailing_cr(s: &str) -> (r: &str)
    ensures
        r@ == trim_cr(s@),
{
    let mut cur: &str = s;
    loop
        invariant
            trim_cr(cur@) == trim_cr(s@),
        decreases cur@.len(),
    {
        match strip_last_char(cur, '\r') {
            Some(t) => {
                cur = t;
            },
            None => {
                return cur;
            },
        }
    }
}

/// The lines of a whole captured stream.
pub fn str_lines(s: &str) -> (r: Vec<String>)
    ensures
        texts(r@) == all_lines(s@),
{
    let mut lines: Vec<String> = Vec::new();
    let rest = split_lines_into(s, &mut lines);
    proof {
        assert(texts(Seq::<String>::empty()) + complete_lines(s@) =~= complete_lines(s@));
    }
    if !rest.as_str().is_empty() {
        let ghost before = lines@;
        lines.push(rest);
        proof {
            assert(texts(lines@) =~= texts(before).push(unfinished_line(s@)));
        }
    }
    lines
}

/// The last lines of a stream that fit a pane of `height` rows with a border.
fn visible_chunk(lines: &Vec<String>, tail: &String, height: u16) -> (r: Vec<String>)
    ensures
        texts(r@) == view_lines(texts(lines@), tail@, height),
{
    let rows: usize = if height >= 2 {
        (height - 2) as usize
    } else {
        0
    };
    let mut all: Vec<String> = Vec::new();
    let mut i: usize = 0;
    while i < lines.len()
        invariant
            i <= lines@.len(),
            texts(all@) == texts(lines@).subrange(0, i as int),
        decreases lines@.len() - i,
    {
        let ghost before = all@;
        all.push(lines[i].clone());
        proof {
            assert(texts(all@) =~= texts(before).push(lines@[i as int]@));
            assert(texts(all@) =~= texts(lines@).subrange(0, i + 1));
        }
        i = i + 1;
    }
    proof {
        assert(texts(lines@).subrange(0, lines@.len() as int) =~= texts(lines@));
    }
    if !tail.as_str().is_empty() {
        let ghost before = all@;
        all.push(tail.clone());
        proof {
            assert(texts(all@) =~= texts(before).push(tail@));
        }
    }
    let start: usize = if all.len() > rows {
        all.len() - rows
    } else {
        0
    };
    let shown = all.split_off(start);
    proof {
        assert(texts(shown@) =~= last_n(texts(all@) + texts(shown@), rows as int));
        assert(texts(all@) + texts(shown@) =~= if tail@.len() > 0 {
            texts(lines@).push(tail@)
        } else {
            texts(lines@)
        });
    }
    shown
}

impl App {
    fn flush_partials(&mut self)
        ensures
            texts(final(self).output_lines@) == flushed(
                texts(old(self).output_lines@),
                old(self).stdout_partial@,
            ),
            texts(final(self).error_lines@) == flushed(
                texts(old(self).error_lines@),
                old(self).stderr_partial@,
            ),
            final(self).stdout_partial@.len() == 0,
            final(self).stderr_partial@.len() == 0,
            final(self).history == old(self).history,
            same_input(*old(self), *final(self)),
            same_run(*old(self), *final(self)),
    {
        if !self.stdout_partial.as_str().is_empty() {
            let line = trim_trailing_cr(self.stdout_partial.as_str()).to_owned();
            let ghost before = self.output_lines@;
            self.output_lines.push(line);
            proof {
                assert(texts(self.output_lines@) =~= texts(before).push(line@));
            }
            self.stdout_partial = String::new();
        }
        if !self.stderr_partial.as_str().is_empty() {
            let line = trim_trailing_cr(self.stderr_partial.as_str()).to_owned();
            let ghost before = self.error_lines@;
            self.error_lines.push(line);
            proof {
                assert(texts(self.error_lines@) =~= texts(before).push(line@));
            }
            self.stderr_partial = String::new();
        }
    }

    /// The run has ended. The unfinished lines are flushed; a pane that
    /// received nothing shows the captured stream instead (stdout shows
    /// `<no stdout>` when that is empty too). A manual run of a non-blank
    /// command is added to the history; the result tells whether the history
    /// changed, so that the caller can store it.
    pub fn finish_run(&mut self, res: ExecResult) -> (saved: bool)
        requires
            old(self).wf(),
        ensures
            final(self).wf(),
            run_finished(*old(self), *final(self), res, saved),
    {
        self.flush_partials();
        if self.output_lines.len() == 0 {
            if res.stdout.as_str().is_empty() {
                self.output_lines.push(String::from_str("<no stdout>"));
                proof {
                    assert(texts(self.output_lines@) =~= seq!["<no stdout>"@]);
                }
            } else {
                self.output_lines = str_lines(res.stdout.as_str());
            }
        }
        if self.error_lines.len() == 0 && !res.stderr.as_str().is_empty() {
            self.error_lines = str_lines(res.stderr.as_str());
        }
        let mut status = String::from_str("exit ");
        status.append(decimal(res.status).as_str());
        self.status_line = status;
        self.is_running = false;
        let mut saved = false;
        if self.append_history_on_finish && !blank(res.cmd.as_str()) {
            saved = self.append_history(res.cmd);
        }
        self.append_history_on_finish = false;
        saved
    }

    /// The stdout lines a pane of `height` rows shows.
    pub fn stdout_view(&self, height: u16) -> (r: Vec<String>)
        ensures
            texts(r@) == view_lines(texts(self.output_lines@), self.stdout_partial@, height),
    {
        visible_chunk(&self.output_lines, &self.stdout_partial, height)
    }

    /// The stderr lines a pane of `height` rows shows.
    pub fn stderr_view(&self, height: u16) -> (r: Vec<String>)
        ensures
            texts(r@) == view_lines(texts(self.error_lines@), self.stderr_partial@, height),
    {
        visible_chunk(&self.error_lines, &self.stderr_partial, height)
    }

    fn append_history(&mut self, entry: String) -> (pushed: bool)
        requires
            old(self).wf(),
        ensures
            final(self).wf(),
            texts(final(self).history@) == history_after(texts(old(self).history@), entry@),
            pushed == !(texts(old(self).history@).len() > 0 && texts(old(self).history@).last()
                == entry@),
            final(self).hist_pos == (if pushed {
                None
            } else {
                old(self).hist_pos
            }),
            final(self).input == old(self).input,
            final(self).cursor == old(self).cursor,
            final(self).last_edit_at == old(self).last_edit_at,
            final(self).clock == old(self).clock,
            same_run(*old(self), *final(self)),
            same_output(*old(self), *final(self)),
    {
        let ghost h = texts(self.history@);
        proof {
            lemma_history_after_ok(h, entry@);
        }
        let n = self.history.len();
        if n > 0 {
            if self.history[n - 1] == entry {
                return false;
            }
        }
        self.history.push(entry);
        proof {
            assert(texts(self.history@) =~= h.push(entry@));
        }
        if self.history.len() > HISTORY_LIMIT {
            let remove_count = self.history.len() - HISTORY_LIMIT;
            let kept = self.history.split_off(remove_count);
            self.history = kept;
            proof {
                assert(texts(self.history@) =~= h.push(entry@).subrange(
                    h.len() + 1 - HISTORY_LIMIT,
                    h.len() + 1int,
                ));
            }
        }
        self.hist_pos = None;
        true
    }

    /// Shows the history entry before the one shown, starting from the
    /// newest; the input becomes that entry, with the cursor at its end.
    pub fn history_prev(&mut self)
        requires
            old(self).wf(),
        ensures
            final(self).wf(),
            browsed_back(*old(self), *final(self)),
    {
        if self.history.len() == 0 {
            return;
        }
        let next_idx: usize = match self.hist_pos {
            None => self.history.len() - 1,
            Some(i) => if i == 0 {
                0
            } else {
                i - 1
            },
        };
        self.hist_pos = Some(next_idx);
        self.input = self.history[next_idx].clone();
        self.cursor = self.input.as_str().as_bytes().len();
        self.mark_edited();
        proof {
            vstd::utf8::encode_utf8_valid_utf8(self.input@);
            vstd::utf8::is_char_boundary_start_end_of_seq(bytes_of(self.input@));
        }
    }

    /// Shows the history entry after the one shown; past the newest, or when
    /// none is shown, the input is emptied.
    pub fn history_next(&mut self)
        requires
            old(self).wf(),
        ensures
            final(self).wf(),
            browsed_forward(*old(self), *final(self)),
    {
        if self.history.len() == 0 {
            return;
        }
        match self.hist_pos {
            Some(idx) => {
                if idx >= self.history.len() - 1 {
                    self.hist_pos = None;
                    self.input = String::new();
                    self.cursor = 0;
                                self.mark_edited();
                } else {
                    let next = idx + 1;
                    self.hist_pos = Some(next);
                    self.input = self.history[next].clone();
                    self.cursor = self.input.as_str().as_bytes().len();
                                self.mark_edited();
                    proof {
                        vstd::utf8::encode_utf8_valid_utf8(self.input@);
                        vstd::utf8::is_char_boundary_start_end_of_seq(bytes_of(self.input@));
                    }
                }
            },
            None => {
                self.input = String::new();
                self.cursor = 0;
                        self.mark_edited();
            },
        }
    }

    /// Types `ch` at the cursor; the cursor moves past the grapheme cluster
    /// that now starts there.
    pub fn insert_char(&mut self, ch: char)
        requires
            old(self).wf(),
        ensures
            final(self).wf(),
            inserted(*old(self), *final(self), ch),
    {
        insert_at(&mut self.input, self.cursor, ch);
        self.cursor = next_grapheme_boundary(self.input.as_str(), self.cursor);
        self.hist_pos = None;
        self.mark_edited();
    }

    /// Deletes the grapheme cluster before the cursor.
    pub fn delete_backward(&mut self)
        requires
            old(self).wf(),
        ensures
            final(self).wf(),
            deleted_backward(*old(self), *final(self)),
    {
        if self.cursor == 0 {
            return;
        }
        let ghost old_bytes = bytes_of(self.input@);
        let cur = self.cursor;
        let prev = prev_grapheme_boundary(self.input.as_str(), cur);
        proof {
            vstd::utf8::encode_utf8_valid_utf8(self.input@);
            vstd::utf8::is_char_boundary_start_end_of_seq(old_bytes);
        }
        remove_range(&mut self.input, prev, cur);
        proof {
            let nb = bytes_of(self.input@);
            vstd::utf8::encode_utf8_valid_utf8(self.input@);
            vstd::utf8::is_char_boundary_start_end_of_seq(nb);
            if prev < nb.len() {
                assert(nb[prev as int] == old_bytes[cur as int]);
                vstd::utf8::is_char_boundary_iff_not_is_continuation_byte(old_bytes, cur as int);
                vstd::utf8::is_char_boundary_iff_not_is_continuation_byte(nb, prev as int);
            }
        }
        self.cursor = prev;
        self.hist_pos = None;
        self.mark_edited();
    }

    /// Deletes the grapheme cluster at the cursor.
    pub fn delete_forward(&mut self)
        requires
            old(self).wf(),
        ensures
            final(self).wf(),
            deleted_forward(*old(self), *final(self)),
    {
        if self.cursor >= self.input.as_str().as_bytes().len() {
            return;
        }
        let ghost old_bytes = bytes_of(self.input@);
        let cur = self.cursor;
        let next = next_grapheme_boundary(self.input.as_str(), cur);
        proof {
            vstd::utf8::encode_utf8_valid_utf8(self.input@);
            vstd::utf8::is_char_boundary_start_end_of_seq(old_bytes);
        }
        remove_range(&mut self.input, cur, next);
        proof {
            let nb = bytes_of(self.input@);
            vstd::utf8::encode_utf8_valid_utf8(self.input@);
            vstd::utf8::is_char_boundary_start_end_of_seq(nb);
            if cur < nb.len() {
                assert(nb[cur as int] == old_bytes[next as int]);
                vstd::utf8::is_char_boundary_iff_not_is_continuation_byte(old_bytes, next as int);
                vstd::utf8::is_char_boundary_iff_not_is_continuation_byte(nb, cur as int);
            }
        }
        self.hist_pos = None;
        self.mark_edited();
    }

    /// Empties the input.
    pub fn clear_input(&mut self)
        requires
            old(self).wf(),
        ensures
            final(self).wf(),
            cleared(*old(self), *final(self)),
    {
        self.input = String::new();
        self.cursor = 0;
        self.hist_pos = None;
        self.mark_edited();
    }

    pub fn move_cursor_home(&mut self)
        requires
            old(self).wf(),
        ensures
            final(self).wf(),
            moved_home(*old(self), *final(self)),
    {
        self.cursor = 0;
        proof {
            vstd::utf8::encode_utf8_valid_utf8(self.input@);
        }
    }

    pub fn move_cursor_end(&mut self)
        requires
            old(self).wf(),
        ensures
            final(self).wf(),
            moved_end(*old(self), *final(self)),
    {
        self.cursor = self.input.as_str().as_bytes().len();
        proof {
            vstd::utf8::encode_utf8_valid_utf8(self.input@);
            vstd::utf8::is_char_boundary_start_end_of_seq(bytes_of(self.input@));
        }
    }

    /// Moves the cursor to the start of the grapheme cluster before it.
    pub fn move_cursor_left(&mut self)
        requires
            old(self).wf(),
        ensures
            final(self).wf(),
            moved_left(*old(self), *final(self)),
    {
        self.cursor = prev_grapheme_boundary(self.input.as_str(), self.cursor);
    }

    /// Moves the cursor to the start of the grapheme cluster after it.
    pub fn move_cursor_right(&mut self)
        requires
            old(self).wf(),
        ensures
            final(self).wf(),
            moved_right(*old(self), *final(self)),
    {
        self.cursor = next_grapheme_boundary(self.input.as_str(), self.cursor);
    }

    /// The terminal column of the cursor: the width of the input before it.
    pub fn cursor_column(&self) -> (r: usize)
        requires
            self.wf(),
        ensures
            r == display_width_of(
                decode_utf8(bytes_of(self.input@).subrange(0, self.cursor as int)),
            ),
    {
        proof {
            vstd::utf8::encode_utf8_decode_utf8(self.input@);
        }
        let (before, _after) = self.input.as_str().split_at(self.cursor);
        proof {
            vstd::utf8::encode_utf8_decode_utf8(before@);
        }
        display_width(before)
    }

    /// Records that the input was edited now.
    pub fn mark_edited(&mut self)
        ensures
            final(self).last_edit_at is Some,
            *final(self) == (App { last_edit_at: final(self).last_edit_at, ..*old(self) }),
    {
        self.last_edit_at = Some(millis_since(&self.clock));
    }

    /// Whether the input is to be run by itself at time `now` of `clock`.
    pub fn auto_run_due(&self, now: u64) -> (r: bool)
        ensures
            r == auto_run_rule(*self, now),
    {
        if self.is_running {
            return false;
        }
        let edit_at = match self.last_edit_at {
            Some(t) => t,
            None => {
                return false;
            },
        };
        let waited: u64 = if now >= edit_at {
            now - edit_at
        } else {
            0
        };
        if waited < QUIET_PERIOD_MS {
            return false;
        }
        if blank(self.input.as_str()) {
            return false;
        }
        match &self.last_run_cmd {
            Some(last) => {
                if *last == self.input {
                    return false;
                }
            },
            None => {},
        }
        true
    }

    /// Whether the input is to be run by itself now.
    pub fn should_auto_run(&self) -> (r: bool)
        ensures
            exists|now: u64| r == auto_run_rule(*self, now),
    {
        let now = millis_since(&self.clock);
        self.auto_run_due(now)
    }

    /// Submits `cmd`, by hand (`manual`) or by itself; a blank command is
    /// refused. Only a manual run is added to the history when it finishes.
    pub fn prepare_run(&mut self, cmd: &str, manual: bool) -> (r: bool)
        requires
            old(self).wf(),
        ensures
            final(self).wf(),
            prepared(*old(self), *final(self), cmd@, manual, r),
    {
        if blank(cmd) {
            return false;
        }
        self.hist_pos = None;
        self.last_run_cmd = Some(cmd.to_owned());
        self.last_edit_at = None;
        self.append_history_on_finish = manual;
        self.is_running = true;
        true
    }
    /// Takes one report of the worker. The result tells whether the history
    /// changed, so that the caller can store it.
    pub fn receive(&mut self, msg: UiMsg) -> (saved: bool)
        requires
            old(self).wf(),
        ensures
            final(self).wf(),
            match msg {
                UiMsg::Started(_) => began(*old(self), *final(self)) && !saved,
                UiMsg::StdoutChunk(c) => got_stdout(*old(self), *final(self), c@) && !saved,
                UiMsg::StderrChunk(c) => got_stderr(*old(self), *final(self), c@) && !saved,
                UiMsg::Finished(res) => run_finished(*old(self), *final(self), res, saved),
            },
    {
        match msg {
            UiMsg::Started(cmd) => {
                self.begin_run(cmd);
                false
            },
            UiMsg::StdoutChunk(chunk) => {
                self.append_stdout_chunk(chunk);
                false
            },
            UiMsg::StderrChunk(chunk) => {
                self.append_stderr_chunk(chunk);
                false
            },
            UiMsg::Finished(res) => self.finish_run(res),
        }
    }

    /// Submits the input by itself when it is due at time `now` of `clock`:
    /// the command to send to the worker, or `None` with nothing changed.
    pub fn auto_submit_at(&mut self, now: u64) -> (r: Option<String>)
        requires
            old(self).wf(),
        ensures
            final(self).wf(),
            auto_submitted(*old(self), *final(self), now, r),
    {
        if self.auto_run_due(now) {
            let cmd = self.input.clone();
            let accepted = self.prepare_run(cmd.as_str(), false);
            if accepted {
                return Some(cmd);
            }
        }
        None
    }

    /// Submits the input by itself when it is due now.
    pub fn auto_submit(&mut self) -> (r: Option<String>)
        requires
            old(self).wf(),
        ensures
            final(self).wf(),
            exists|now: u64| auto_submitted(*old(self), *final(self), now, r),
    {
        let now = millis_since(&self.clock);
        self.auto_submit_at(now)
    }
}

} // verus!
