//! Turns the raw terminal output stream into clean, line-oriented log records.
//!
//! Characters are fed one by one through a two-state machine (`Normal`,
//! `AfterCarriageReturn`); a record is cut at a line feed, at a carriage
//! return, or when the buffer has been idle for longer than `IDLE_LIMIT_MS`.
//! Every record has its control sequences removed before it is handed out.
use vstd::prelude::*;
use crate::escape::{lemma_strip_keeps_single_line, no_line_breaks, remove_escapes, strip_escapes};
use crate::text::push_char;
use crate::clock::local_now;

verus! {

/// Milliseconds of silence after which a non-empty buffer is cut into a record.
pub const IDLE_LIMIT_MS: i64 = 1000;

#[derive(Clone, Copy, Debug, PartialEq, Eq, Structural)]
pub enum LineMode {
    Normal,
    AfterCarriageReturn,
}

/// One step of the line machine on character `c`: the new buffer, the new
/// mode, and the raw record cut by this character, if any.
pub open spec fn line_step(buffer: Seq<char>, mode: LineMode, c: char) -> (Seq<char>, LineMode, Option<Seq<char>>) {
    match mode {
        LineMode::Normal => if c == '\n' {
            (Seq::empty(), LineMode::Normal, Some(buffer))
        } else if c == '\r' {
            (Seq::empty(), LineMode::AfterCarriageReturn, Some(buffer))
        } else {
            (buffer.push(c), LineMode::Normal, None)
        },
        LineMode::AfterCarriageReturn => if c == '\n' {
            // completes a `\r\n` pair
            (buffer, LineMode::Normal, None)
        } else if c == '\r' {
            // the buffer is empty here: cutting it again gives an empty record
            (buffer, LineMode::AfterCarriageReturn, Some(buffer))
        } else {
            (buffer.push(c), LineMode::Normal, None)
        },
    }
}

/// The line machine run over `s`: final buffer, final mode, and the raw
/// records cut along the way, in order.
pub open spec fn line_run(buffer: Seq<char>, mode: LineMode, s: Seq<char>) -> (Seq<char>, LineMode, Seq<Seq<char>>)
    decreases s.len(),
{
    if s.len() == 0 {
        (buffer, mode, Seq::empty())
    } else {
        let (b, m, records) = line_run(buffer, mode, s.drop_last());
        let (b2, m2, cut) = line_step(b, m, s.last());
        match cut {
            Some(r) => (b2, m2, records.push(r)),
            None => (b2, m2, records),
        }
    }
}

/// The records do not depend on how the terminal stream is cut into chunks:
/// running the line machine over `s1` and then, from where it stopped, over
/// `s2` cuts the same records, in the same order, and ends in the same state
/// as running it over `s1 + s2` at once.
pub proof fn lemma_chunking_does_not_matter(buffer: Seq<char>, mode: LineMode, s1: Seq<char>, s2: Seq<char>)
    ensures
        ({
            let (b1, m1, r1) = line_run(buffer, mode, s1);
            let (b2, m2, r2) = line_run(b1, m1, s2);
            line_run(buffer, mode, s1 + s2) == (b2, m2, r1 + r2)
        }),
    decreases s2.len(),
{
    let (b1, m1, r1) = line_run(buffer, mode, s1);
    if s2.len() == 0 {
        assert(s1 + s2 =~= s1);
        assert(r1 + Seq::<Seq<char>>::empty() =~= r1);
    } else {
        let s2p = s2.drop_last();
        lemma_chunking_does_not_matter(buffer, mode, s1, s2p);
        assert((s1 + s2).drop_last() =~= s1 + s2p);
        assert((s1 + s2).last() == s2.last());
        let (bp, mp, rp) = line_run(b1, m1, s2p);
        let (bq, mq, cut) = line_step(bp, mp, s2.last());
        match cut {
            Some(x) => {
                assert(r1 + rp.push(x) =~= (r1 + rp).push(x));
            },
            None => {},
        }
    }
}

/// The records as they reach the log: control sequences removed.
pub open spec fn cleaned(records: Seq<Seq<char>>) -> Seq<Seq<char>> {
    records.map_values(|r: Seq<char>| strip_escapes(r))
}

pub open spec fn views_of(v: Seq<String>) -> Seq<Seq<char>> {
    v.map_values(|s: String| s@)
}

pub struct LogAccumulator {
    buffer: String,
    mode: LineMode,
    last_activity: i64,
}

impl LogAccumulator {
    /// Characters received since the last record was cut.
    pub closed spec fn buffer(&self) -> Seq<char> {
        self.buffer@
    }

    pub closed spec fn mode(&self) -> LineMode {
        self.mode
    }

    /// Time, in milliseconds, at which input last arrived.
    pub closed spec fn last_activity(&self) -> i64 {
        self.last_activity
    }

    /// Right after a carriage return nothing is buffered yet, and the buffer
    /// never holds a line break.
    pub open spec fn wf(&self) -> bool {
        &&& self.mode() == LineMode::AfterCarriageReturn ==> self.buffer().len() == 0
        &&& no_line_breaks(self.buffer())
    }

    pub fn new(now_ms: i64) -> (r: Self)
        ensures
            r.wf(),
            r.buffer() == Seq::<char>::empty(),
            r.mode() == LineMode::Normal,
            r.last_activity() == now_ms,
    {
        LogAccumulator { buffer: String::new(), mode: LineMode::Normal, last_activity: now_ms }
    }

    pub fn is_empty(&self) -> (r: bool)
        ensures
            r == (self.buffer().len() == 0),
    {
        self.buffer.as_str().unicode_len() == 0
    }

    /// Cuts the buffer into a record and clears it.
    fn take_record(&mut self) -> (r: String)
        requires
            no_line_breaks(old(self).buffer()),
        ensures
            r@ == strip_escapes(old(self).buffer()),
            no_line_breaks(r@),
            final(self).buffer() == Seq::<char>::empty(),
            final(self).mode() == old(self).mode(),
            final(self).last_activity() == old(self).last_activity(),
    {
        let r = remove_escapes(self.buffer.as_str());
        proof {
            lemma_strip_keeps_single_line(self.buffer@);
        }
        self.buffer = String::new();
        r
    }

    /// Feeds one character; returns the record it cuts, if any.
    pub fn feed_char(&mut self, c: char) -> (r: Option<String>)
        requires
            old(self).wf(),
        ensures
            final(self).wf(),
            ({
                let (b, m, cut) = line_step(old(self).buffer(), old(self).mode(), c);
                &&& final(self).buffer() == b
                &&& final(self).mode() == m
                &&& match cut {
                    Some(raw) => r is Some && r->0@ == strip_escapes(raw),
                    None => r is None,
                }
            }),
            r matches Some(line) ==> no_line_breaks(line@),
            final(self).last_activity() == old(self).last_activity(),
    {
        match self.mode {
            LineMode::Normal => {
                if c == '\n' {
                    Some(self.take_record())
                } else if c == '\r' {
                    let r = self.take_record();
                    self.mode = LineMode::AfterCarriageReturn;
                    Some(r)
                } else {
                    push_char(&mut self.buffer, c);
                    None
                }
            },
            LineMode::AfterCarriageReturn => {
                if c == '\n' {
                    self.mode = LineMode::Normal;
                    None
                } else if c == '\r' {
                    Some(self.take_record())
                } else {
                    self.mode = LineMode::Normal;
                    push_char(&mut self.buffer, c);
                    None
                }
            },
        }
    }

    /// Feeds a chunk of terminal output that arrived at `now_ms`; returns the
    /// records it completes, in order.
    pub fn feed(&mut self, data: &str, now_ms: i64) -> (lines: Vec<String>)
        requires
            old(self).wf(),
        ensures
            final(self).wf(),
            ({
                let (b, m, records) = line_run(old(self).buffer(), old(self).mode(), data@);
                &&& final(self).buffer() == b
                &&& final(self).mode() == m
                &&& views_of(lines@) == cleaned(records)
            }),
            forall|i: int| 0 <= i < lines@.len() ==> no_line_breaks(#[trigger] lines@[i]@),
            final(self).last_activity() == now_ms,
    {
        let mut lines: Vec<String> = Vec::new();
        let ghost start_buffer = self.buffer();
        let ghost start_mode = self.mode();
        for c in it: data.chars()
            invariant
                self.wf(),
                it.seq() == data@,
                ({
                    let (b, m, records) = line_run(start_buffer, start_mode, data@.take(it.index() as int));
                    &&& self.buffer() == b
                    &&& self.mode() == m
                    &&& views_of(lines@) == cleaned(records)
                }),
                forall|i: int| 0 <= i < lines@.len() ==> no_line_breaks(#[trigger] lines@[i]@),
        {
            let ghost done = data@.take(it.index() as int);
            let ghost next = data@.take(it.index() + 1);
            assert(next.drop_last() == done);
            assert(next.last() == c);
            let ghost before = lines@;
            let cut = self.feed_char(c);
            match cut {
                Some(line) => {
                    lines.push(line);
                },
                None => {},
            }
            proof {
                let (b0, m0, records0) = line_run(start_buffer, start_mode, done);
                assert(views_of(before) == cleaned(records0));
                let (b, m, records) = line_run(start_buffer, start_mode, next);
                let (b2, m2, piece) = line_step(b0, m0, c);
                match piece {
                    Some(raw) => {
                        assert(records == records0.push(raw));
                        assert(lines@ == before.push(cut->0));
                        assert(cut->0@ == strip_escapes(raw));
                        assert(views_of(before).len() == before.len());
                        assert(cleaned(records0).len() == records0.len());
                        assert(records.len() == before.len() + 1);
                        assert forall|i: int| 0 <= i < before.len() implies views_of(lines@)[i] == cleaned(records)[i] by {
                            assert(views_of(lines@)[i] == views_of(before)[i]);
                            assert(cleaned(records)[i] == cleaned(records0)[i]);
                        }
                        assert(views_of(lines@)[before.len() as int] == cleaned(records)[before.len() as int]);
                        assert(views_of(lines@) =~= cleaned(records));
                    },
                    None => {
                        assert(records == records0);
                        assert(lines@ == before);
                    },
                }
            }
        }
        assert(data@.take(data@.len() as int) =~= data@);
        self.last_activity = now_ms;
        lines
    }

    /// A fresh accumulator whose idle time counts from now.
    pub fn start_now() -> (r: Self)
        ensures
            r.wf(),
            r.buffer() == Seq::<char>::empty(),
            r.mode() == LineMode::Normal,
    {
        Self::new(local_now().epoch_millis)
    }

    /// Feeds a chunk of terminal output that arrives now; returns the records
    /// it completes, in order.
    pub fn feed_now(&mut self, data: &str) -> (lines: Vec<String>)
        requires
            old(self).wf(),
        ensures
            final(self).wf(),
            ({
                let (b, m, records) = line_run(old(self).buffer(), old(self).mode(), data@);
                &&& final(self).buffer() == b
                &&& final(self).mode() == m
                &&& views_of(lines@) == cleaned(records)
            }),
            forall|i: int| 0 <= i < lines@.len() ==> no_line_breaks(#[trigger] lines@[i]@),
    {
        self.feed(data, local_now().epoch_millis)
    }

    /// Cuts the buffer into a record if it has been idle for too long by now.
    /// Whatever the clock says, only a non-empty buffer is ever cut, and what
    /// comes out is its cleaned content.
    pub fn poll_idle_now(&mut self) -> (r: Option<String>)
        requires
            old(self).wf(),
        ensures
            final(self).wf(),
            final(self).mode() == old(self).mode(),
            final(self).last_activity() == old(self).last_activity(),
            match r {
                Some(line) => {
                    &&& old(self).buffer().len() > 0
                    &&& line@ == strip_escapes(old(self).buffer())
                    &&& no_line_breaks(line@)
                    &&& final(self).buffer() == Seq::<char>::empty()
                },
                None => final(self).buffer() == old(self).buffer(),
            },
    {
        self.poll_idle(local_now().epoch_millis)
    }

    /// Cuts whatever is buffered into a last record, for when the stream ends.
    pub fn flush_pending(&mut self) -> (r: Option<String>)
        requires
            old(self).wf(),
        ensures
            final(self).wf(),
            final(self).buffer() == Seq::<char>::empty(),
            final(self).mode() == old(self).mode(),
            final(self).last_activity() == old(self).last_activity(),
            old(self).buffer().len() == 0 ==> r is None,
            old(self).buffer().len() > 0 ==> r is Some && r->0@ == strip_escapes(old(self).buffer())
                && no_line_breaks(r->0@),
    {
        if self.is_empty() {
            None
        } else {
            Some(self.take_record())
        }
    }

    /// Cuts the buffer into a record when it holds something and no input
    /// has arrived for more than `IDLE_LIMIT_MS` milliseconds before `now_ms`.
    pub fn poll_idle(&mut self, now_ms: i64) -> (r: Option<String>)
        requires
            old(self).wf(),
        ensures
            final(self).wf(),
            final(self).mode() == old(self).mode(),
            final(self).last_activity() == old(self).last_activity(),
            if old(self).buffer().len() > 0 && now_ms - old(self).last_activity() > IDLE_LIMIT_MS {
                &&& r is Some
                &&& r->0@ == strip_escapes(old(self).buffer())
                &&& no_line_breaks(r->0@)
                &&& final(self).buffer() == Seq::<char>::empty()
            } else {
                &&& r is None
                &&& final(self).buffer() == old(self).buffer()
            },
    {
        let idle = (now_ms as i128) - (self.last_activity as i128);
        if !self.is_empty() && idle > IDLE_LIMIT_MS as i128 {
            Some(self.take_record())
        } else {
            None
        }
    }
}

} // verus!
