//! Batching of the two output streams into a bounded rate of UI updates.
//!
//! Chunks only accumulate; the periodic tick is what hands text on, at most
//! one update per stream per tick. Closing a stream hands nothing on by
//! itself: pending text still goes out with the next tick. The aggregator is
//! done once both streams are closed and nothing is pending.

use vstd::prelude::*;
use vstd::string::StringExecFns;

verus! {

/// What the aggregator waits for.
pub enum StreamEvent {
    StdoutChunk(String),
    StderrChunk(String),
    StdoutClosed,
    StderrClosed,
    Tick,
}

/// What the aggregator hands on after one event.
pub struct Emission {
    pub stdout: Option<String>,
    pub stderr: Option<String>,
    /// Both streams are closed and everything has been handed on.
    pub done: bool,
}

pub struct Aggregator {
    pending_stdout: String,
    pending_stderr: String,
    stdout_open: bool,
    stderr_open: bool,
    received_stdout: Ghost<Seq<char>>,
    received_stderr: Ghost<Seq<char>>,
    emitted_stdout: Ghost<Seq<char>>,
    emitted_stderr: Ghost<Seq<char>>,
}

/// Appends what an update carries, if anything.
pub open spec fn after(text: Seq<char>, update: Option<String>) -> Seq<char> {
    match update {
        Some(s) => text + s@,
        None => text,
    }
}

impl Aggregator {
    pub closed spec fn pending_out(&self) -> Seq<char> {
        self.pending_stdout@
    }

    pub closed spec fn pending_err(&self) -> Seq<char> {
        self.pending_stderr@
    }

    pub closed spec fn stdout_is_open(&self) -> bool {
        self.stdout_open
    }

    pub closed spec fn stderr_is_open(&self) -> bool {
        self.stderr_open
    }

    /// All stdout text received so far.
    pub closed spec fn received_out(&self) -> Seq<char> {
        self.received_stdout@
    }

    /// All stderr text received so far.
    pub closed spec fn received_err(&self) -> Seq<char> {
        self.received_stderr@
    }

    /// All stdout text handed on so far.
    pub closed spec fn emitted_out(&self) -> Seq<char> {
        self.emitted_stdout@
    }

    /// All stderr text handed on so far.
    pub closed spec fn emitted_err(&self) -> Seq<char> {
        self.emitted_stderr@
    }

    /// Nothing received is lost: it has been handed on or is pending.
    pub closed spec fn wf(&self) -> bool {
        &&& self.received_stdout@ == self.emitted_stdout@ + self.pending_stdout@
        &&& self.received_stderr@ == self.emitted_stderr@ + self.pending_stderr@
    }

    pub fn new() -> (r: Aggregator)
        ensures
            r.wf(),
            r.stdout_is_open(),
            r.stderr_is_open(),
            r.received_out() == Seq::<char>::empty(),
            r.received_err() == Seq::<char>::empty(),
            r.emitted_out() == Seq::<char>::empty(),
            r.emitted_err() == Seq::<char>::empty(),
    {
        Aggregator {
            pending_stdout: String::new(),
            pending_stderr: String::new(),
            stdout_open: true,
            stderr_open: true,
            received_stdout: Ghost(Seq::empty()),
            received_stderr: Ghost(Seq::empty()),
            emitted_stdout: Ghost(Seq::empty()),
            emitted_stderr: Ghost(Seq::empty()),
        }
    }

    /// Whether the stdout stream is still to be waited on.
    pub fn stdout_open(&self) -> (r: bool)
        ensures
            r == self.stdout_is_open(),
    {
        self.stdout_open
    }

    /// Whether the stderr stream is still to be waited on.
    pub fn stderr_open(&self) -> (r: bool)
        ensures
            r == self.stderr_is_open(),
    {
        self.stderr_open
    }

    fn take_stdout(&mut self) -> (r: Option<String>)
        requires
            old(self).wf(),
        ensures
            final(self).wf(),
            final(self).pending_stdout@ == Seq::<char>::empty(),
            old(self).pending_stdout@.len() == 0 ==> r is None,
            old(self).pending_stdout@.len() > 0 ==> (r matches Some(s) && s@
                == old(self).pending_stdout@),
            final(self).emitted_stdout@ == after(old(self).emitted_stdout@, r),
            final(self).pending_stderr@ == old(self).pending_stderr@,
            final(self).emitted_stderr@ == old(self).emitted_stderr@,
            final(self).received_stdout@ == old(self).received_stdout@,
            final(self).received_stderr@ == old(self).received_stderr@,
            final(self).stdout_open == old(self).stdout_open,
            final(self).stderr_open == old(self).stderr_open,
    {
        if self.pending_stdout.as_str().is_empty() {
            proof {
                assert(self.pending_stdout@ =~= Seq::<char>::empty());
            }
            None
        } else {
            let mut s = String::new();
            core::mem::swap(&mut s, &mut self.pending_stdout);
            proof {
                self.emitted_stdout@ = self.emitted_stdout@ + s@;
                assert(self.received_stdout@ =~= self.emitted_stdout@ + self.pending_stdout@);
            }
            Some(s)
        }
    }

    fn take_stderr(&mut self) -> (r: Option<String>)
        requires
            old(self).wf(),
        ensures
            final(self).wf(),
            final(self).pending_stderr@ == Seq::<char>::empty(),
            old(self).pending_stderr@.len() == 0 ==> r is None,
            old(self).pending_stderr@.len() > 0 ==> (r matches Some(s) && s@
                == old(self).pending_stderr@),
            final(self).emitted_stderr@ == after(old(self).emitted_stderr@, r),
            final(self).pending_stdout@ == old(self).pending_stdout@,
            final(self).emitted_stdout@ == old(self).emitted_stdout@,
            final(self).received_stdout@ == old(self).received_stdout@,
            final(self).received_stderr@ == old(self).received_stderr@,
            final(self).stdout_open == old(self).stdout_open,
            final(self).stderr_open == old(self).stderr_open,
    {
        if self.pending_stderr.as_str().is_empty() {
            proof {
                assert(self.pending_stderr@ =~= Seq::<char>::empty());
            }
            None
        } else {
            let mut s = String::new();
            core::mem::swap(&mut s, &mut self.pending_stderr);
            proof {
                self.emitted_stderr@ = self.emitted_stderr@ + s@;
                assert(self.received_stderr@ =~= self.emitted_stderr@ + self.pending_stderr@);
            }
            Some(s)
        }
    }

    /// Takes one event. A chunk is only stored; a close only marks its stream;
    /// a tick hands on each non-empty pending text, once per stream.
    pub fn step(&mut self, event: StreamEvent) -> (r: Emission)
        requires
            old(self).wf(),
        ensures
            final(self).wf(),
            match event {
                StreamEvent::StdoutChunk(c) => {
                    &&& final(self).received_out() == old(self).received_out() + c@
                    &&& final(self).pending_out() == old(self).pending_out() + c@
                    &&& final(self).received_err() == old(self).received_err()
                    &&& final(self).pending_err() == old(self).pending_err()
                    &&& final(self).stdout_is_open() == old(self).stdout_is_open()
                    &&& final(self).stderr_is_open() == old(self).stderr_is_open()
                    &&& r.stdout is None && r.stderr is None && !r.done
                },
                StreamEvent::StderrChunk(c) => {
                    &&& final(self).received_err() == old(self).received_err() + c@
                    &&& final(self).pending_err() == old(self).pending_err() + c@
                    &&& final(self).received_out() == old(self).received_out()
                    &&& final(self).pending_out() == old(self).pending_out()
                    &&& final(self).stdout_is_open() == old(self).stdout_is_open()
                    &&& final(self).stderr_is_open() == old(self).stderr_is_open()
                    &&& r.stdout is None && r.stderr is None && !r.done
                },
                StreamEvent::StdoutClosed => {
                    &&& !final(self).stdout_is_open()
                    &&& final(self).stderr_is_open() == old(self).stderr_is_open()
                    &&& final(self).pending_out() == old(self).pending_out()
                    &&& final(self).pending_err() == old(self).pending_err()
                    &&& final(self).received_out() == old(self).received_out()
                    &&& final(self).received_err() == old(self).received_err()
                    &&& r.stdout is None && r.stderr is None
                },
                StreamEvent::StderrClosed => {
                    &&& !final(self).stderr_is_open()
                    &&& final(self).stdout_is_open() == old(self).stdout_is_open()
                    &&& final(self).pending_out() == old(self).pending_out()
                    &&& final(self).pending_err() == old(self).pending_err()
                    &&& final(self).received_out() == old(self).received_out()
                    &&& final(self).received_err() == old(self).received_err()
                    &&& r.stdout is None && r.stderr is None
                },
                StreamEvent::Tick => {
                    &&& final(self).pending_out() == Seq::<char>::empty()
                    &&& final(self).pending_err() == Seq::<char>::empty()
                    &&& (r.stdout is None <==> old(self).pending_out().len() == 0)
                    &&& (r.stdout matches Some(s) ==> s@ == old(self).pending_out())
                    &&& (r.stderr is None <==> old(self).pending_err().len() == 0)
                    &&& (r.stderr matches Some(s) ==> s@ == old(self).pending_err())
                    &&& final(self).received_out() == old(self).received_out()
                    &&& final(self).received_err() == old(self).received_err()
                    &&& final(self).stdout_is_open() == old(self).stdout_is_open()
                    &&& final(self).stderr_is_open() == old(self).stderr_is_open()
                },
            },
            final(self).emitted_out() == after(old(self).emitted_out(), r.stdout),
            final(self).emitted_err() == after(old(self).emitted_err(), r.stderr),
            !(event is StdoutChunk || event is StderrChunk) ==> (r.done <==> (
            !final(self).stdout_is_open() && !final(self).stderr_is_open()
                && final(self).pending_out().len() == 0 && final(self).pending_err().len() == 0)),
            r.done ==> !final(self).stdout_is_open() && !final(self).stderr_is_open(),
            r.done ==> final(self).emitted_out() == final(self).received_out()
                && final(self).emitted_err() == final(self).received_err(),
    {
        let mut out: Option<String> = None;
        let mut err: Option<String> = None;
        match event {
            StreamEvent::StdoutChunk(c) => {
                self.pending_stdout.append(c.as_str());
                proof {
                    self.received_stdout@ = self.received_stdout@ + c@;
                    assert(self.received_stdout@ =~= self.emitted_stdout@ + self.pending_stdout@);
                }
                return Emission { stdout: None, stderr: None, done: false };
            },
            StreamEvent::StderrChunk(c) => {
                self.pending_stderr.append(c.as_str());
                proof {
                    self.received_stderr@ = self.received_stderr@ + c@;
                    assert(self.received_stderr@ =~= self.emitted_stderr@ + self.pending_stderr@);
                }
                return Emission { stdout: None, stderr: None, done: false };
            },
            StreamEvent::StdoutClosed => {
                self.stdout_open = false;
            },
            StreamEvent::StderrClosed => {
                self.stderr_open = false;
            },
            StreamEvent::Tick => {
                out = self.take_stdout();
                err = self.take_stderr();
            },
        }
        let done = !self.stdout_open && !self.stderr_open && self.pending_stdout.as_str().is_empty()
            && self.pending_stderr.as_str().is_empty();
        proof {
            if done {
                assert(self.pending_stdout@ =~= Seq::<char>::empty());
                assert(self.pending_stderr@ =~= Seq::<char>::empty());
                assert(self.received_stdout@ =~= self.emitted_stdout@);
                assert(self.received_stderr@ =~= self.emitted_stderr@);
            }
        }
        Emission { stdout: out, stderr: err, done }
    }

    /// The last flush, after the loop has ended for whatever reason: hands on
    /// whatever is still pending.
    pub fn finish(self) -> (r: Emission)
        requires
            self.wf(),
        ensures
            r.stdout is None <==> self.pending_out().len() == 0,
            r.stdout matches Some(s) ==> s@ == self.pending_out(),
            r.stderr is None <==> self.pending_err().len() == 0,
            r.stderr matches Some(s) ==> s@ == self.pending_err(),
            after(self.emitted_out(), r.stdout) == self.received_out(),
            after(self.emitted_err(), r.stderr) == self.received_err(),
            r.done,
    {
        let mut me = self;
        let out = me.take_stdout();
        let err = me.take_stderr();
        proof {
            assert(me.received_stdout@ =~= me.emitted_stdout@ + me.pending_stdout@);
            assert(me.received_stderr@ =~= me.emitted_stderr@ + me.pending_stderr@);
        }
        Emission { stdout: out, stderr: err, done: true }
    }
}

} // verus!
