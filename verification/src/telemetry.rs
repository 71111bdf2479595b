//! The telemetry record: the unit of output of the packet assembler.
//!
//! Every field that a device line can contribute is independently optional;
//! a field, once set, is never regressed to absent by a later line.  The
//! merge semantics of partial records is defined here, both as the
//! specification function [`merge_view`] and as the executable
//! [`DataPacket::merge_from`], which is proved to implement it.

use vstd::prelude::*;

verus! {

/// GPS fix quality reported by the device, a closed set.
///
/// `Unknown` is the default and the only value that a later line may
/// overwrite with anything.
#[derive(Clone, Copy, Debug, PartialEq, Eq, Structural)]
pub enum FixStatus {
    NoFix,
    Fix,
    Differential,
    Estimated,
    Unknown,
}

/// Mathematical model of a [`DataPacket`]: the same fields over `Seq<char>`
/// instead of heap strings.
#[verifier::ext_equal]
pub struct PacketView {
    pub node_id: Option<u8>,
    pub callsign: Option<Seq<char>>,
    pub latitude_udeg: Option<i64>,
    pub longitude_udeg: Option<i64>,
    pub satellites_count: Option<u8>,
    pub receiver_rssi: Option<i16>,
    pub receiver_snr: Option<i8>,
    pub fix_status: FixStatus,
    pub timestamp_ms: i64,
    pub raw_lines: Seq<Seq<char>>,
}

/// One reconstructed position/status record.
///
/// Angles are carried as micro-degrees (`degrees * 1_000_000`), so that a
/// coordinate such as `37.1234` is the exact integer `37_123_400`.
#[derive(Clone, Debug)]
pub struct DataPacket {
    /// Device identifier from a header line.
    pub node_id: Option<u8>,
    /// Licensed-operator identifier, from a licensed header or a labelled
    /// callsign line.
    pub callsign: Option<String>,
    /// Latitude in micro-degrees.
    pub latitude_udeg: Option<i64>,
    /// Longitude in micro-degrees.
    pub longitude_udeg: Option<i64>,
    /// Number of satellites in view.
    pub satellites_count: Option<u8>,
    /// Received signal strength, dBm.
    pub receiver_rssi: Option<i16>,
    /// Signal-to-noise ratio, dB.
    pub receiver_snr: Option<i8>,
    /// Fix quality; `Unknown` until some line says otherwise.
    pub fix_status: FixStatus,
    /// Clock reading (milliseconds) when the most recent contributing line
    /// was processed.
    pub timestamp_ms: i64,
    /// The raw text lines that contributed to this record, in arrival order.
    pub raw_lines: Vec<String>,
}

impl View for DataPacket {
    type V = PacketView;

    open spec fn view(&self) -> PacketView {
        PacketView {
            node_id: self.node_id,
            callsign: self.callsign.deep_view(),
            latitude_udeg: self.latitude_udeg,
            longitude_udeg: self.longitude_udeg,
            satellites_count: self.satellites_count,
            receiver_rssi: self.receiver_rssi,
            receiver_snr: self.receiver_snr,
            fix_status: self.fix_status,
            timestamp_ms: self.timestamp_ms,
            raw_lines: self.raw_lines.deep_view(),
        }
    }
}

/// The model of an optional packet, used for the assembler's state and
/// emissions.
pub open spec fn opt_view(o: Option<DataPacket>) -> Option<PacketView> {
    match o {
        Some(p) => Some(p@),
        None => None,
    }
}

/// Merge of a later partial record `src` into an accumulated record `dst`:
/// each optional field is overwritten only where `src` carries a present
/// value; the fix status is overwritten unless `src` still says `Unknown`;
/// the timestamp always follows `src`; the raw lines of `src` are appended.
pub open spec fn merge_view(dst: PacketView, src: PacketView) -> PacketView {
    PacketView {
        node_id: if src.node_id is Some {
            src.node_id
        } else {
            dst.node_id
        },
        callsign: if src.callsign is Some {
            src.callsign
        } else {
            dst.callsign
        },
        latitude_udeg: if src.latitude_udeg is Some {
            src.latitude_udeg
        } else {
            dst.latitude_udeg
        },
        longitude_udeg: if src.longitude_udeg is Some {
            src.longitude_udeg
        } else {
            dst.longitude_udeg
        },
        satellites_count: if src.satellites_count is Some {
            src.satellites_count
        } else {
            dst.satellites_count
        },
        receiver_rssi: if src.receiver_rssi is Some {
            src.receiver_rssi
        } else {
            dst.receiver_rssi
        },
        receiver_snr: if src.receiver_snr is Some {
            src.receiver_snr
        } else {
            dst.receiver_snr
        },
        fix_status: if src.fix_status != FixStatus::Unknown {
            src.fix_status
        } else {
            dst.fix_status
        },
        timestamp_ms: src.timestamp_ms,
        raw_lines: dst.raw_lines + src.raw_lines,
    }
}

impl DataPacket {
    /// Merges the partial record `src` into `self`, field by field, as
    /// [`merge_view`] says: no field of `self` is regressed to absent.
    pub fn merge_from(&mut self, src: DataPacket)
        ensures
            final(self)@ == merge_view(old(self)@, src@),
    {
        let ghost src0 = src@;
        if src.node_id.is_some() {
            self.node_id = src.node_id;
        }
        if src.callsign.is_some() {
            self.callsign = src.callsign;
        }
        if src.latitude_udeg.is_some() {
            self.latitude_udeg = src.latitude_udeg;
        }
        if src.longitude_udeg.is_some() {
            self.longitude_udeg = src.longitude_udeg;
        }
        if src.satellites_count.is_some() {
            self.satellites_count = src.satellites_count;
        }
        if src.receiver_rssi.is_some() {
            self.receiver_rssi = src.receiver_rssi;
        }
        if src.receiver_snr.is_some() {
            self.receiver_snr = src.receiver_snr;
        }
        if src.fix_status != FixStatus::Unknown {
            self.fix_status = src.fix_status;
        }
        self.timestamp_ms = src.timestamp_ms;
        let mut extra = src.raw_lines;
        self.raw_lines.append(&mut extra);
        proof {
            assert(self.raw_lines.deep_view() =~= old(self).raw_lines.deep_view()
                + src0.raw_lines);
            assert(self@ =~= merge_view(old(self)@, src0));
        }
    }
}

} // verus!
