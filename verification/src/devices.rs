//! How to talk to a headset: what a device's reports carry, how commands are
//! framed, and what the values in a report mean.
//!
//! A device is described by a [`DeviceSpec`], which is plain data. Byte offsets
//! are relative to the buffer that a read of the hidraw node fills: with
//! numbered HID reports that buffer starts with the report id, with unnumbered
//! ones it is bare payload.
use vstd::prelude::*;

use crate::labels::{described, Labels};
use crate::text::{opt_text, starts_with};

verus! {

/// The length of a report, without the report id that an unnumbered interface
/// has written before it.
pub const REPORT_LEN: usize = 64;

/// The USB vendor id of every supported headset.
pub const VENDOR_ID: u16 = 0x1038;

/// A value that some report carries.
#[derive(Clone, Copy, PartialEq, Eq, Debug, Structural)]
pub enum Field {
    Power,
    Battery,
    SlotBattery,
    Charging,
    MicMuted,
    GameMix,
    ChatMix,
    Anc,
    Transparency,
    WirelessMode,
    Pairing,
    BtPower,
    BtConnection,
    BtAutoMute,
    AutoOff,
    Gain,
    MicVolume,
    SideTone,
    LineOut,
}

/// One report that a device can send: known by its prefix, with fields at fixed
/// byte offsets.
#[derive(Clone, Copy, Debug)]
pub struct Frame {
    pub prefix: &'static [u8],
    pub fields: &'static [(Field, usize)],
}

// ---------------------------------------------------------------------------
// Collected field values
// ---------------------------------------------------------------------------

/// The value of the first entry for `field`.
pub open spec fn entry(entries: Seq<(Field, u8)>, field: Field) -> Option<u8>
    decreases entries.len(),
{
    if entries.len() == 0 {
        None
    } else if entries[0].0 == field {
        Some(entries[0].1)
    } else {
        entry(entries.drop_first(), field)
    }
}

/// Values extracted from one or more reports: at most one for each field. Few
/// enough that a vector beats a map.
#[derive(Debug)]
pub struct Collected(Vec<(Field, u8)>);

impl View for Collected {
    type V = Map<Field, u8>;

    closed spec fn view(&self) -> Map<Field, u8> {
        Map::new(|f: Field| entry(self.0@, f) is Some, |f: Field| entry(self.0@, f)->0)
    }
}

/// No entry precedes `i` for `field`, and the entry at `i`, if there is one, is
/// for `field`.
proof fn lemma_entry_at(entries: Seq<(Field, u8)>, field: Field, i: int)
    requires
        0 <= i <= entries.len(),
        forall|j: int| 0 <= j < i ==> (#[trigger] entries[j]).0 != field,
        i < entries.len() ==> entries[i].0 == field,
    ensures
        entry(entries, field) == if i < entries.len() {
            Some(entries[i].1)
        } else {
            None
        },
    decreases entries.len(),
{
    if entries.len() > 0 && i > 0 {
        assert(entries[0].0 != field);
        assert forall|j: int| 0 <= j < i - 1 implies (
        #[trigger] entries.drop_first()[j]).0 != field by {
            assert(entries[j + 1].0 != field);
        }
        lemma_entry_at(entries.drop_first(), field, i - 1);
    }
}

/// Where there is a value, some entry holds it; no entry comes before it.
proof fn lemma_entry_index(entries: Seq<(Field, u8)>, field: Field) -> (i: int)
    ensures
        0 <= i <= entries.len(),
        i < entries.len() ==> entries[i].0 == field,
        forall|j: int| 0 <= j < i ==> (#[trigger] entries[j]).0 != field,
    decreases entries.len(),
{
    if entries.len() == 0 || entries[0].0 == field {
        0
    } else {
        let i = lemma_entry_index(entries.drop_first(), field);
        assert forall|j: int| 0 <= j < i + 1 implies (#[trigger] entries[j]).0 != field by {
            if j > 0 {
                assert(entries.drop_first()[j - 1].0 != field);
            }
        }
        i + 1
    }
}

impl Collected {
    /// No field has two entries.
    #[verifier::type_invariant]
    spec fn distinct(self) -> bool {
        forall|i: int, j: int|
            0 <= i < j < self.0@.len() ==> (#[trigger] self.0@[i]).0 != (#[trigger] self.0@[j]).0
    }

    /// The value of `field`, where there is one.
    pub fn get(&self, field: Field) -> (r: Option<u8>)
        ensures
            r == if self@.dom().contains(field) {
                Some(self@[field])
            } else {
                None
            },
    {
        let mut i: usize = 0;
        while i < self.0.len()
            invariant
                i <= self.0@.len(),
                forall|j: int| 0 <= j < i ==> (#[trigger] self.0@[j]).0 != field,
            decreases self.0@.len() - i,
        {
            if self.0[i].0 == field {
                proof {
                    lemma_entry_at(self.0@, field, i as int);
                }
                return Some(self.0[i].1);
            }
            i += 1;
        }
        proof {
            lemma_entry_at(self.0@, field, i as int);
        }
        None
    }

    /// Sets the value of `field`, in place of the one it had.
    pub fn insert(&mut self, field: Field, value: u8)
        ensures
            final(self)@ == old(self)@.insert(field, value),
    {
        proof {
            use_type_invariant(&*self);
        }
        let ghost before = self.0@;
        let mut entries: Vec<(Field, u8)> = Vec::new();
        std::mem::swap(&mut entries, &mut self.0);
        let mut i: usize = 0;
        while i < entries.len() && entries[i].0 != field
            invariant
                entries@ == before,
                i <= entries@.len(),
                forall|j: int| 0 <= j < i ==> (#[trigger] entries@[j]).0 != field,
            decreases entries@.len() - i,
        {
            i += 1;
        }
        if i < entries.len() {
            entries[i] = (field, value);
        } else {
            entries.push((field, value));
        }
        proof {
            assert forall|f: Field| #[trigger] entry(entries@, f) == if f == field {
                Some(value)
            } else {
                entry(before, f)
            } by {
                if f == field {
                    lemma_entry_at(entries@, f, i as int);
                } else {
                    let k = lemma_entry_index(before, f);
                    lemma_entry_at(before, f, k);
                    let k2 = if k == before.len() {
                        entries@.len() as int
                    } else {
                        k
                    };
                    assert forall|j: int| 0 <= j < k2 implies (#[trigger] entries@[j]).0 != f by {
                        if j != i {
                            assert(before[j].0 != f);
                        }
                    }
                    lemma_entry_at(entries@, f, k2);
                }
            }
        }
        self.0 = entries;
        assert(self@ =~= old(self)@.insert(field, value));
    }

    /// Sets every value of `other`.
    pub fn merge(&mut self, other: &Collected)
        ensures
            final(self)@ == old(self)@.union_prefer_right(other@),
    {
        proof {
            use_type_invariant(other);
        }
        let ghost start = self@;
        let ghost entries = other.0@;
        let mut i: usize = 0;
        while i < other.0.len()
            invariant
                i <= other.0@.len(),
                other.distinct(),
                forall|f: Field| #[trigger]
                    self@.dom().contains(f) <==> start.dom().contains(f) || entry(
                        other.0@.take(i as int),
                        f,
                    ) is Some,
                forall|f: Field| #[trigger]
                    self@.dom().contains(f) ==> self@[f] == match entry(
                        other.0@.take(i as int),
                        f,
                    ) {
                        Some(v) => v,
                        None => start[f],
                    },
            decreases other.0@.len() - i,
        {
            let ghost head = other.0@.take(i as int);
            let ghost longer = other.0@.take(i + 1);
            let (field, value) = other.0[i];
            self.insert(field, value);
            proof {
                assert forall|f: Field| #[trigger] entry(longer, f) == if f == field {
                    Some(value)
                } else {
                    entry(head, f)
                } by {
                    if f == field {
                        lemma_entry_at(longer, f, i as int);
                    } else {
                        let k = lemma_entry_index(head, f);
                        lemma_entry_at(head, f, k);
                        let k2 = if k == i {
                            i + 1
                        } else {
                            k
                        };
                        assert forall|j: int| 0 <= j < k2 implies (#[trigger] longer[j]).0 != f by {
                            if j != i {
                                assert(head[j].0 != f);
                            }
                        }
                        lemma_entry_at(longer, f, k2);
                    }
                }
            }
            i += 1;
        }
        assert(other.0@.take(i as int) =~= other.0@);
        assert(self@ =~= start.union_prefer_right(other@));
    }

    /// There is no value at all.
    pub fn is_empty(&self) -> (r: bool)
        ensures
            r == (self@ =~= Map::<Field, u8>::empty()),
    {
        let r = self.0.len() == 0;
        proof {
            if !r {
                assert(self@.dom().contains(self.0@[0].0));
            }
        }
        r
    }
}

impl Default for Collected {
    /// No values.
    fn default() -> (r: Collected)
        ensures
            r@ == Map::<Field, u8>::empty(),
    {
        let r = Collected(Vec::new());
        assert(r@ =~= Map::<Field, u8>::empty());
        r
    }
}

// ---------------------------------------------------------------------------
// Devices
// ---------------------------------------------------------------------------

/// A headset family.
#[derive(Clone, Copy, Debug)]
pub struct DeviceSpec {
    pub name: &'static str,
    pub product_ids: &'static [u16],
    /// The USB interface that commands and status requests are written to.
    /// Reports are read from it too.
    pub command_interface: u32,
    /// Further interfaces to read reports from: some models stream dial events
    /// on another interface than status. One that a model lacks is skipped.
    pub extra_listen_interfaces: &'static [u32],
    /// The interface uses unnumbered HID reports: a write needs a zero report id
    /// in front, which the kernel strips.
    pub unnumbered_reports: bool,
    /// The handshake, sent once for each connection. Queries and the ChatMix
    /// enables only, nothing that overwrites a setting stored on the device.
    pub init: &'static [&'static [u8]],
    /// Written to solicit status frames; repeated while connected.
    pub status_requests: &'static [&'static [u8]],
    /// Seconds between two status polls.
    pub status_poll_secs: u64,
    pub frames: &'static [Frame],
    /// The raw battery value that means full; 0 where no battery is reported.
    pub battery_max: u8,
    /// Raw power values that mean: on and connected.
    pub power_online: &'static [u8],
    /// Raw power values that mean: off, charging by cable.
    pub power_charging: &'static [u8],
    /// Raw values of the charging field that mean: charging.
    pub charging_on: &'static [u8],
    /// The wording of the field values.
    pub labels: Labels,
}

/// The share of `max` that `raw` is, in whole percent; a `raw` above `max` counts
/// as full.
pub open spec fn percent(raw: int, max: int) -> int {
    if max == 0 {
        0
    } else {
        (if raw < max {
            raw
        } else {
            max
        }) * 100 / max
    }
}

/// Some frame carries `field`.
pub open spec fn carries(frames: Seq<Frame>, field: Field) -> bool {
    exists|i: int, k: int|
        0 <= i < frames.len() && 0 <= k < frames[i].fields@.len() && (
        #[trigger] frames[i].fields@[k]).0 == field
}

impl DeviceSpec {
    /// A device whose charging field is absent is charging where its power state
    /// says so.
    pub open spec fn charging(self, fields: Map<Field, u8>) -> bool {
        if fields.dom().contains(Field::Charging) {
            self.charging_on@.contains(fields[Field::Charging])
        } else {
            fields.dom().contains(Field::Power) && self.power_charging@.contains(
                fields[Field::Power],
            )
        }
    }

    /// The raw power value means that the headset is on and connected.
    pub fn is_online(&self, power: u8) -> (r: bool)
        ensures
            r == self.power_online@.contains(power),
    {
        has_byte(self.power_online, power)
    }

    /// The charge in percent for a raw battery value.
    pub fn battery_percent(&self, raw: u8) -> (r: u32)
        ensures
            r == percent(raw as int, self.battery_max as int),
            r <= 100,
    {
        if self.battery_max == 0 {
            return 0;
        }
        let level = if raw < self.battery_max {
            raw
        } else {
            self.battery_max
        };
        let max: u32 = self.battery_max as u32;
        let scaled: u32 = level as u32 * 100;
        proof {
            assert(scaled / max <= 100) by (nonlinear_arith)
                requires
                    scaled <= max * 100,
                    max > 0,
            ;
        }
        scaled / max
    }

    /// The headset is charging.
    pub fn is_charging(&self, fields: &Collected) -> (r: bool)
        ensures
            r == self.charging(fields@),
    {
        if let Some(c) = fields.get(Field::Charging) {
            return has_byte(self.charging_on, c);
        }
        match fields.get(Field::Power) {
            Some(p) => has_byte(self.power_charging, p),
            None => false,
        }
    }

    /// The wording for the collected value of `field`.
    pub fn describe(&self, fields: &Collected, field: Field) -> (r: Option<String>)
        ensures
            opt_text(r) == described(self.labels, fields@, field),
    {
        self.labels.describe(fields, field)
    }

    /// The device reports its ChatMix dial.
    pub fn has_chatmix(&self) -> (r: bool)
        ensures
            r == carries(self.frames@, Field::GameMix),
    {
        let mut i: usize = 0;
        while i < self.frames.len()
            invariant
                i <= self.frames@.len(),
                forall|j: int, k: int|
                    0 <= j < i && 0 <= k < self.frames@[j].fields@.len() ==> (
                    #[trigger] self.frames@[j].fields@[k]).0 != Field::GameMix,
            decreases self.frames@.len() - i,
        {
            let fields = self.frames[i].fields;
            let mut n: usize = 0;
            while n < fields.len()
                invariant
                    i < self.frames@.len(),
                    fields == self.frames@[i as int].fields,
                    n <= fields@.len(),
                    forall|k: int| 0 <= k < n ==> (#[trigger] fields@[k]).0 != Field::GameMix,
                decreases fields@.len() - n,
            {
                if fields[n].0 == Field::GameMix {
                    assert(self.frames@[i as int].fields@[n as int].0 == Field::GameMix);
                    return true;
                }
                n += 1;
            }
            i += 1;
        }
        false
    }

    /// The device answers status requests.
    pub fn has_status(&self) -> (r: bool)
        ensures
            r == (self.status_requests@.len() > 0),
    {
        self.status_requests.len() > 0
    }
}

/// `bytes` holds `b`.
fn has_byte(bytes: &[u8], b: u8) -> (r: bool)
    ensures
        r == bytes@.contains(b),
{
    let mut i: usize = 0;
    while i < bytes.len()
        invariant
            i <= bytes@.len(),
            forall|j: int| 0 <= j < i ==> bytes@[j] != b,
        decreases bytes@.len() - i,
    {
        if bytes[i] == b {
            assert(bytes@.contains(bytes@[i as int]));
            return true;
        }
        i += 1;
    }
    false
}

// ---------------------------------------------------------------------------
// Commands and reports
// ---------------------------------------------------------------------------

/// The command, with a zero report id in front on an unnumbered interface.
pub open spec fn addressed(cmd: Seq<u8>, unnumbered: bool) -> Seq<u8> {
    if unnumbered {
        seq![0u8] + cmd
    } else {
        cmd
    }
}

/// `bytes`, cut or filled up with zeros to `len`.
pub open spec fn fitted(bytes: Seq<u8>, len: nat) -> Seq<u8> {
    Seq::new(
        len,
        |i: int|
            if i < bytes.len() {
                bytes[i]
            } else {
                0u8
            },
    )
}

/// A command as it is written to the hidraw node.
pub open spec fn framed(cmd: Seq<u8>, unnumbered: bool) -> Seq<u8> {
    fitted(
        addressed(cmd, unnumbered),
        REPORT_LEN as nat + if unnumbered {
            1nat
        } else {
            0nat
        },
    )
}

/// Frames a command for a hidraw write.
pub fn frame_command(cmd: &[u8], unnumbered: bool) -> (r: Vec<u8>)
    ensures
        r@ == framed(cmd@, unnumbered),
{
    let mut r: Vec<u8> = Vec::with_capacity(REPORT_LEN + 1);
    if unnumbered {
        r.push(0x00);
    }
    r.extend_from_slice(cmd);
    assert(r@ =~= addressed(cmd@, unnumbered));
    let len = if unnumbered {
        REPORT_LEN + 1
    } else {
        REPORT_LEN
    };
    r.resize(len, 0x00);
    assert(r@ =~= framed(cmd@, unnumbered));
    r
}

/// The first frame whose prefix the report has.
pub open spec fn frame_for(frames: Seq<Frame>, report: Seq<u8>) -> Option<Frame>
    decreases frames.len(),
{
    if frames.len() == 0 {
        None
    } else if starts_with(report, frames[0].prefix@) {
        Some(frames[0])
    } else {
        frame_for(frames.drop_first(), report)
    }
}

/// The values that a report holds at the offsets of `fields`. An offset beyond
/// the report yields nothing; of two for one field the later counts.
pub open spec fn extracted(fields: Seq<(Field, usize)>, report: Seq<u8>) -> Map<Field, u8>
    decreases fields.len(),
{
    if fields.len() == 0 {
        Map::empty()
    } else {
        let rest = extracted(fields.drop_last(), report);
        if fields.last().1 < report.len() {
            rest.insert(fields.last().0, report[fields.last().1 as int])
        } else {
            rest
        }
    }
}

/// The values that a report carries.
pub open spec fn parsed(frames: Seq<Frame>, report: Seq<u8>) -> Map<Field, u8> {
    match frame_for(frames, report) {
        Some(frame) => extracted(frame.fields@, report),
        None => Map::empty(),
    }
}

/// `report` begins with `prefix`.
fn has_prefix(report: &[u8], prefix: &[u8]) -> (r: bool)
    ensures
        r == starts_with(report@, prefix@),
{
    if report.len() < prefix.len() {
        return false;
    }
    let mut i: usize = 0;
    while i < prefix.len()
        invariant
            i <= prefix@.len() <= report@.len(),
            forall|j: int| 0 <= j < i ==> report@[j] == prefix@[j],
        decreases prefix@.len() - i,
    {
        if report[i] != prefix[i] {
            assert(report@.subrange(0, prefix@.len() as int)[i as int] != prefix@[i as int]);
            return false;
        }
        i += 1;
    }
    assert(report@.subrange(0, prefix@.len() as int) =~= prefix@);
    true
}

/// Matches a report against the frames of a device and extracts the fields that
/// fit.
pub fn parse_report(spec: &DeviceSpec, report: &[u8]) -> (r: Collected)
    ensures
        r@ == parsed(spec.frames@, report@),
{
    let mut r = Collected::default();
    let mut i: usize = 0;
    assert(spec.frames@.skip(0) =~= spec.frames@);
    while i < spec.frames.len()
        invariant
            i <= spec.frames@.len(),
            r@ == Map::<Field, u8>::empty(),
            frame_for(spec.frames@, report@) == frame_for(spec.frames@.skip(i as int), report@),
        decreases spec.frames@.len() - i,
    {
        let frame = spec.frames[i];
        assert(spec.frames@.skip(i as int)[0] == frame);
        assert(spec.frames@.skip(i as int).drop_first() =~= spec.frames@.skip(i + 1));
        if has_prefix(report, frame.prefix) {
            let mut n: usize = 0;
            assert(frame.fields@.take(0) =~= seq![]);
            while n < frame.fields.len()
                invariant
                    n <= frame.fields@.len(),
                    r@ == extracted(frame.fields@.take(n as int), report@),
                decreases frame.fields@.len() - n,
            {
                let (field, offset) = frame.fields[n];
                assert(frame.fields@.take(n + 1).drop_last() =~= frame.fields@.take(n as int));
                if offset < report.len() {
                    r.insert(field, report[offset]);
                }
                n += 1;
            }
            assert(frame.fields@.take(n as int) =~= frame.fields@);
            return r;
        }
        i += 1;
    }
    r
}

// ---------------------------------------------------------------------------
// What holds of frames, reports and charges
// ---------------------------------------------------------------------------

/// A framed command has the length of a report, and one byte more on an unnumbered interface.
pub proof fn a_frame_has_the_length_of_a_report(cmd: Seq<u8>, unnumbered: bool)
    ensures
        framed(cmd, unnumbered).len() == REPORT_LEN + if unnumbered {
            1int
        } else {
            0int
        },
{
}

/// The two framings of a command differ by the zero report id alone.
pub proof fn framings_differ_by_the_report_id(cmd: Seq<u8>)
    ensures
        framed(cmd, true) == seq![0u8] + framed(cmd, false),
{
    assert(framed(cmd, true) =~= seq![0u8] + framed(cmd, false));
}

/// A command that fits into a report is written whole, with nothing but zeros behind it.
pub proof fn a_command_that_fits_is_written_whole(cmd: Seq<u8>)
    requires
        cmd.len() <= REPORT_LEN,
    ensures
        framed(cmd, false).take(cmd.len() as int) == cmd,
        forall|i: int| cmd.len() <= i < REPORT_LEN ==> #[trigger] framed(cmd, false)[i] == 0,
{
    assert(framed(cmd, false).take(cmd.len() as int) =~= cmd);
}

/// The charge is a percentage: none for nothing, all for a full battery and beyond, and never
/// less for more.
pub proof fn the_charge_is_a_percentage(raw: int, more: int, max: int)
    requires
        0 <= raw <= more,
        0 <= max,
    ensures
        0 <= percent(raw, max) <= percent(more, max) <= 100,
        percent(0, max) == 0,
        0 < max <= raw ==> percent(raw, max) == 100,
{
    if max > 0 {
        let (a, b) = (
            if raw < max {
                raw
            } else {
                max
            },
            if more < max {
                more
            } else {
                max
            },
        );
        assert(0 <= a * 100 / max <= b * 100 / max <= 100) by (nonlinear_arith)
            requires
                0 <= a <= b <= max,
                max > 0,
        ;
        assert(0int * 100 / max == 0) by (nonlinear_arith)
            requires
                max > 0,
        ;
        assert(max * 100 / max == 100) by (nonlinear_arith)
            requires
                max > 0,
        ;
    }
}

/// Every value taken from a report stands in it, where the frame that the report begins like
/// has that field.
pub proof fn a_value_stands_in_the_report(frames: Seq<Frame>, report: Seq<u8>, field: Field)
    requires
        parsed(frames, report).dom().contains(field),
    ensures
        ({
            let frame = frame_for(frames, report);
            &&& frame is Some
            &&& starts_with(report, frame->0.prefix@)
            &&& exists|k: int|
                0 <= k < frame->0.fields@.len() && (#[trigger] frame->0.fields@[k]).0 == field
                    && frame->0.fields@[k].1 < report.len() && parsed(frames, report)[field]
                    == report[frame->0.fields@[k].1 as int]
        }),
{
    lemma_frame_begins(frames, report);
    lemma_extracted(frame_for(frames, report)->0.fields@, report, field);
}

proof fn lemma_frame_begins(frames: Seq<Frame>, report: Seq<u8>)
    ensures
        frame_for(frames, report) is Some ==> starts_with(
            report,
            frame_for(frames, report)->0.prefix@,
        ),
    decreases frames.len(),
{
    if frames.len() > 0 {
        lemma_frame_begins(frames.drop_first(), report);
    }
}

proof fn lemma_extracted(fields: Seq<(Field, usize)>, report: Seq<u8>, field: Field)
    requires
        extracted(fields, report).dom().contains(field),
    ensures
        exists|k: int|
            0 <= k < fields.len() && (#[trigger] fields[k]).0 == field && fields[k].1 < report.len()
                && extracted(fields, report)[field] == report[fields[k].1 as int],
    decreases fields.len(),
{
    let last = fields.len() - 1;
    if fields[last].0 == field && fields[last].1 < report.len() {
        assert(extracted(fields, report)[field] == report[fields[last].1 as int]);
    } else {
        lemma_extracted(fields.drop_last(), report, field);
        let k = choose|k: int|
            0 <= k < last && (#[trigger] fields.drop_last()[k]).0 == field
                && fields.drop_last()[k].1 < report.len() && extracted(
                fields.drop_last(),
                report,
            )[field] == report[fields.drop_last()[k].1 as int];
        assert(fields[k] == fields.drop_last()[k]);
    }
}

/// A report that begins like none of the frames carries nothing.
pub proof fn an_unknown_report_carries_nothing(frames: Seq<Frame>, report: Seq<u8>)
    requires
        forall|i: int|
            0 <= i < frames.len() ==> !starts_with(report, (#[trigger] frames[i]).prefix@),
    ensures
        parsed(frames, report) == Map::<Field, u8>::empty(),
    decreases frames.len(),
{
    if frames.len() > 0 {
        assert(!starts_with(report, frames[0].prefix@));
        assert forall|i: int| 0 <= i < frames.len() - 1 implies !starts_with(
            report,
            (#[trigger] frames.drop_first()[i]).prefix@,
        ) by {
            assert(frames.drop_first()[i] == frames[i + 1]);
        }
        an_unknown_report_carries_nothing(frames.drop_first(), report);
    }
}

} // verus!
