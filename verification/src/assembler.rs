//! The packet assembler: the stateful half of the core.
//!
//! The assembler consumes raw lines one at a time.  It owns the single
//! in-progress record — there is never more than one — and per line it
//! flushes that record when a new header arrives, merges the line's
//! extracted fields into it, and emits it when a packet-end line is seen.
//! An end-of-stream [`Assembler::finish`] flush guarantees that accumulated
//! fields are never lost when the input closes mid-packet.
//!
//! The whole per-line behaviour is pinned down by the four step functions
//! [`step_flushed`], [`step_merged`], [`step_completed`] and [`step_state`].

use vstd::prelude::*;

use crate::deputy_interpreter::{
    classify_line, parse_zephyr_line_at, spec_is_meaningful, spec_is_packet_end,
    spec_is_packet_start, spec_partial, ParseError,
};
use crate::telemetry::{merge_view, opt_view, DataPacket, PacketView};
use crate::text::line_chars;

verus! {

/// What feeding one line to the assembler produced.
pub struct LineOutcome {
    /// A record emitted because a new header line arrived while this record
    /// was still in progress (flush-before-start).
    pub flushed: Option<DataPacket>,
    /// A record emitted because this line marked the packet's end.
    pub completed: Option<DataPacket>,
    /// The extraction failure to report upstream, if the line yielded
    /// nothing; it never interrupts assembly.
    pub error: Option<ParseError>,
}

/// The record a line flushes: the in-progress record, exactly when the line
/// is a packet start.
pub open spec fn step_flushed(cur: Option<PacketView>, s: Seq<char>) -> Option<PacketView> {
    if spec_is_packet_start(s) {
        cur
    } else {
        None
    }
}

/// The in-progress record after a line's fields are applied: a packet-start
/// line first clears the slot; a meaningful line then merges into the
/// record in progress or becomes a fresh one; a meaningless line changes
/// nothing.
pub open spec fn step_merged(cur: Option<PacketView>, s: Seq<char>, now: i64) -> Option<
    PacketView,
> {
    let cur1 = if spec_is_packet_start(s) {
        None::<PacketView>
    } else {
        cur
    };
    if spec_is_meaningful(s) {
        match cur1 {
            Some(c) => Some(merge_view(c, spec_partial(s, now))),
            None => Some(spec_partial(s, now)),
        }
    } else {
        cur1
    }
}

/// The record a line completes: the merged record, exactly when the line is
/// a packet end.
pub open spec fn step_completed(cur: Option<PacketView>, s: Seq<char>, now: i64) -> Option<
    PacketView,
> {
    if spec_is_packet_end(s) {
        step_merged(cur, s, now)
    } else {
        None
    }
}

/// The assembler's state after a line: empty when the line completed a
/// packet, else the merged record.
pub open spec fn step_state(cur: Option<PacketView>, s: Seq<char>, now: i64) -> Option<
    PacketView,
> {
    if spec_is_packet_end(s) {
        None
    } else {
        step_merged(cur, s, now)
    }
}

/// The packet assembler.  Its state is the single optional in-progress
/// record; its model is that record's [`PacketView`].
pub struct Assembler {
    current: Option<DataPacket>,
}

impl View for Assembler {
    type V = Option<PacketView>;

    closed spec fn view(&self) -> Option<PacketView> {
        match self.current {
            Some(p) => Some(p@),
            None => None,
        }
    }
}

impl Assembler {
    /// A fresh assembler, with no record in progress.
    pub fn new() -> (r: Assembler)
        ensures
            r@ is None,
    {
        Assembler { current: None }
    }

    /// Feeds one line, stamped with the clock reading `now`.
    ///
    /// The line's boundary classification is structural — it depends on the
    /// line's shape alone, never on whether extraction succeeded — and the
    /// outcome follows the step functions exactly: flush-before-start, then
    /// merge, then emit-on-end.  At most one record is ever in progress.
    pub fn process_line(&mut self, line: &str, now: i64) -> (r: LineOutcome)
        ensures
            opt_view(r.flushed) == step_flushed(old(self)@, line@),
            opt_view(r.completed) == step_completed(old(self)@, line@, now),
            final(self)@ == step_state(old(self)@, line@, now),
            (r.error is Some) == !spec_is_meaningful(line@),
            match r.error {
                Some(e) => e is NoMatch,
                None => true,
            },
    {
        let chars = line_chars(line);
        let (is_start, is_end) = classify_line(&chars);
        let flushed = if is_start {
            self.current.take()
        } else {
            None
        };
        let mut error: Option<ParseError> = None;
        match parse_zephyr_line_at(line, now) {
            Ok(part) => {
                let prev = self.current.take();
                match prev {
                    Some(mut cur) => {
                        cur.merge_from(part);
                        self.current = Some(cur);
                    },
                    None => {
                        self.current = Some(part);
                    },
                }
            },
            Err(e) => {
                error = Some(e);
            },
        }
        let completed = if is_end {
            self.current.take()
        } else {
            None
        };
        LineOutcome { flushed, completed, error }
    }

    /// End-of-stream flush: hands out the in-progress record, if any, and
    /// leaves the assembler empty.  Exactly the record accumulated so far is
    /// emitted — no data is lost on shutdown.
    pub fn finish(&mut self) -> (r: Option<DataPacket>)
        ensures
            opt_view(r) == old(self)@,
            final(self)@ is None,
    {
        self.current.take()
    }
}

} // verus!
