//! Crate-wide guarantees, stated as proof functions.
//!
//! Each law is proved from the contracts and specification functions that
//! the executable code is verified against, so it holds of every run of the
//! library:
//!
//! * field non-regression over any sequence of merges;
//! * flush-before-start whenever a header arrives mid-record;
//! * boundary classification decided by the structural line predicates
//!   alone;
//! * idempotent re-parse up to the capture timestamp.

use vstd::prelude::*;

use crate::assembler::{step_completed, step_flushed, step_merged, step_state};
use crate::deputy_interpreter::{spec_is_packet_end, spec_is_packet_start, spec_partial};
use crate::telemetry::{merge_view, FixStatus, PacketView};

verus! {

/// The record after merging a sequence of partial records into `base`, in
/// order.
pub open spec fn merge_all(base: PacketView, parts: Seq<PacketView>) -> PacketView
    decreases parts.len(),
{
    if parts.len() == 0 {
        base
    } else {
        merge_all(merge_view(base, parts[0]), parts.drop_first())
    }
}

/// The last present value among a starting value and a sequence of optional
/// updates: an absent update never erases anything.
pub open spec fn last_set<A>(base: Option<A>, vs: Seq<Option<A>>) -> Option<A>
    decreases vs.len(),
{
    if vs.len() == 0 {
        base
    } else {
        last_set(
            if vs[0] is Some {
                vs[0]
            } else {
                base
            },
            vs.drop_first(),
        )
    }
}

/// The last fix status that is not `Unknown`, after a sequence of updates:
/// `Unknown` never erases a known status.
pub open spec fn last_status(base: FixStatus, vs: Seq<FixStatus>) -> FixStatus
    decreases vs.len(),
{
    if vs.len() == 0 {
        base
    } else {
        last_status(
            if vs[0] != FixStatus::Unknown {
                vs[0]
            } else {
                base
            },
            vs.drop_first(),
        )
    }
}

/// Field non-regression, exact form: after merging any sequence of partial
/// records, every optional field holds the last present value contributed
/// for it (the base record's value where no part contributed one), and the
/// fix status holds the last value other than `Unknown`.  A field is thus
/// overwritten only by a later present value of the same field.
pub proof fn lemma_field_non_regression(base: PacketView, parts: Seq<PacketView>)
    ensures
        merge_all(base, parts).node_id == last_set(
            base.node_id,
            parts.map_values(|p: PacketView| p.node_id),
        ),
        merge_all(base, parts).callsign == last_set(
            base.callsign,
            parts.map_values(|p: PacketView| p.callsign),
        ),
        merge_all(base, parts).latitude_udeg == last_set(
            base.latitude_udeg,
            parts.map_values(|p: PacketView| p.latitude_udeg),
        ),
        merge_all(base, parts).longitude_udeg == last_set(
            base.longitude_udeg,
            parts.map_values(|p: PacketView| p.longitude_udeg),
        ),
        merge_all(base, parts).satellites_count == last_set(
            base.satellites_count,
            parts.map_values(|p: PacketView| p.satellites_count),
        ),
        merge_all(base, parts).receiver_rssi == last_set(
            base.receiver_rssi,
            parts.map_values(|p: PacketView| p.receiver_rssi),
        ),
        merge_all(base, parts).receiver_snr == last_set(
            base.receiver_snr,
            parts.map_values(|p: PacketView| p.receiver_snr),
        ),
        merge_all(base, parts).fix_status == last_status(
            base.fix_status,
            parts.map_values(|p: PacketView| p.fix_status),
        ),
    decreases parts.len(),
{
    if parts.len() > 0 {
        let merged = merge_view(base, parts[0]);
        let rest = parts.drop_first();
        lemma_field_non_regression(merged, rest);
        assert(parts.map_values(|p: PacketView| p.node_id).drop_first() =~= rest.map_values(
            |p: PacketView| p.node_id,
        ));
        assert(parts.map_values(|p: PacketView| p.callsign).drop_first() =~= rest.map_values(
            |p: PacketView| p.callsign,
        ));
        assert(parts.map_values(|p: PacketView| p.latitude_udeg).drop_first() =~= rest.map_values(
            |p: PacketView| p.latitude_udeg,
        ));
        assert(parts.map_values(|p: PacketView| p.longitude_udeg).drop_first() =~= rest.map_values(
            |p: PacketView| p.longitude_udeg,
        ));
        assert(parts.map_values(|p: PacketView| p.satellites_count).drop_first()
            =~= rest.map_values(|p: PacketView| p.satellites_count));
        assert(parts.map_values(|p: PacketView| p.receiver_rssi).drop_first() =~= rest.map_values(
            |p: PacketView| p.receiver_rssi,
        ));
        assert(parts.map_values(|p: PacketView| p.receiver_snr).drop_first() =~= rest.map_values(
            |p: PacketView| p.receiver_snr,
        ));
        assert(parts.map_values(|p: PacketView| p.fix_status).drop_first() =~= rest.map_values(
            |p: PacketView| p.fix_status,
        ));
    }
}

/// A present value survives any sequence of optional updates.
pub proof fn lemma_last_set_present<A>(base: Option<A>, vs: Seq<Option<A>>)
    requires
        base is Some,
    ensures
        last_set(base, vs) is Some,
    decreases vs.len(),
{
    if vs.len() > 0 {
        lemma_last_set_present(
            if vs[0] is Some {
                vs[0]
            } else {
                base
            },
            vs.drop_first(),
        );
    }
}

/// A known fix status survives any sequence of status updates.
pub proof fn lemma_last_status_known(base: FixStatus, vs: Seq<FixStatus>)
    requires
        base != FixStatus::Unknown,
    ensures
        last_status(base, vs) != FixStatus::Unknown,
    decreases vs.len(),
{
    if vs.len() > 0 {
        lemma_last_status_known(
            if vs[0] != FixStatus::Unknown {
                vs[0]
            } else {
                base
            },
            vs.drop_first(),
        );
    }
}

/// Field non-regression, survival form: a field of the accumulated record
/// that is present is never observed as absent after any sequence of
/// merges, and a known fix status never falls back to `Unknown`.
pub proof fn lemma_merge_preserves_present(base: PacketView, parts: Seq<PacketView>)
    ensures
        base.node_id is Some ==> merge_all(base, parts).node_id is Some,
        base.callsign is Some ==> merge_all(base, parts).callsign is Some,
        base.latitude_udeg is Some ==> merge_all(base, parts).latitude_udeg is Some,
        base.longitude_udeg is Some ==> merge_all(base, parts).longitude_udeg is Some,
        base.satellites_count is Some ==> merge_all(base, parts).satellites_count is Some,
        base.receiver_rssi is Some ==> merge_all(base, parts).receiver_rssi is Some,
        base.receiver_snr is Some ==> merge_all(base, parts).receiver_snr is Some,
        base.fix_status != FixStatus::Unknown ==> merge_all(base, parts).fix_status
            != FixStatus::Unknown,
{
    lemma_field_non_regression(base, parts);
    if base.node_id is Some {
        lemma_last_set_present(base.node_id, parts.map_values(|p: PacketView| p.node_id));
    }
    if base.callsign is Some {
        lemma_last_set_present(base.callsign, parts.map_values(|p: PacketView| p.callsign));
    }
    if base.latitude_udeg is Some {
        lemma_last_set_present(
            base.latitude_udeg,
            parts.map_values(|p: PacketView| p.latitude_udeg),
        );
    }
    if base.longitude_udeg is Some {
        lemma_last_set_present(
            base.longitude_udeg,
            parts.map_values(|p: PacketView| p.longitude_udeg),
        );
    }
    if base.satellites_count is Some {
        lemma_last_set_present(
            base.satellites_count,
            parts.map_values(|p: PacketView| p.satellites_count),
        );
    }
    if base.receiver_rssi is Some {
        lemma_last_set_present(
            base.receiver_rssi,
            parts.map_values(|p: PacketView| p.receiver_rssi),
        );
    }
    if base.receiver_snr is Some {
        lemma_last_set_present(
            base.receiver_snr,
            parts.map_values(|p: PacketView| p.receiver_snr),
        );
    }
    if base.fix_status != FixStatus::Unknown {
        lemma_last_status_known(base.fix_status, parts.map_values(|p: PacketView| p.fix_status));
    }
}

/// Flush-before-start: a packet-start line arriving while a record is in
/// progress always emits exactly that record first, and whatever is in
/// progress or completed afterwards derives from the new line alone.
pub proof fn lemma_flush_before_start(cur: Option<PacketView>, s: Seq<char>, now: i64)
    requires
        spec_is_packet_start(s),
        cur is Some,
    ensures
        step_flushed(cur, s) == cur,
        step_merged(cur, s, now) is Some ==> step_merged(cur, s, now) == Some(
            spec_partial(s, now),
        ),
        step_state(cur, s, now) is Some ==> step_state(cur, s, now) == Some(spec_partial(s, now)),
        step_completed(cur, s, now) is Some ==> step_completed(cur, s, now) == Some(
            spec_partial(s, now),
        ),
{
}

/// Idempotent re-parse: extracting the same line at two clock readings
/// yields field-for-field identical partial records — only the capture
/// timestamp differs.
pub proof fn lemma_reparse_idempotent(s: Seq<char>, t1: i64, t2: i64)
    ensures
        spec_partial(s, t1) == (PacketView { timestamp_ms: t1, ..spec_partial(s, t2) }),
{
    assert(spec_partial(s, t1) =~= (PacketView { timestamp_ms: t1, ..spec_partial(s, t2) }));
}

/// Classification independence: whether a line flushes or completes a
/// record is decided by the structural predicates of the line's characters
/// alone — the same line makes the same boundary decisions whatever the
/// clock reading, and extraction success or failure plays no part in them.
pub proof fn lemma_classification_independent(
    cur: Option<PacketView>,
    s: Seq<char>,
    now1: i64,
    now2: i64,
)
    ensures
        (step_flushed(cur, s) is Some) == (spec_is_packet_start(s) && cur is Some),
        !spec_is_packet_end(s) ==> step_completed(cur, s, now1) is None,
        (step_completed(cur, s, now1) is Some) == (step_completed(cur, s, now2) is Some),
        (step_state(cur, s, now1) is Some) == (step_state(cur, s, now2) is Some),
{
}

} // verus!
