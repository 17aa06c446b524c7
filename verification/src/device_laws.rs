//! What holds of every report, charge and wording.
use vstd::prelude::*;

use crate::devices::{
    carries, extracted, frame_for, framed, parsed, percent, DeviceSpec, Field, Frame,
};
use crate::labels::{described, named, Labels};
use crate::text::{hex, starts_with};

verus! {

// ---------------------------------------------------------------------------
// Reports
// ---------------------------------------------------------------------------

/// The report begins with the prefix of the frame.
pub open spec fn begins_like(report: Seq<u8>, frame: Frame) -> bool {
    frame.prefix@.len() <= report.len() && forall|n: int|
        0 <= n < frame.prefix@.len() ==> #[trigger] report[n] == frame.prefix@[n]
}

/// The report has a byte at the offset of the field of this number.
pub open spec fn reaches(report: Seq<u8>, frame: Frame, k: int) -> bool {
    0 <= k < frame.fields@.len() && frame.fields@[k].1 < report.len()
}

proof fn lemma_begins(report: Seq<u8>, frame: Frame)
    ensures
        starts_with(report, frame.prefix@) <==> begins_like(report, frame),
{
    let p = frame.prefix@;
    if begins_like(report, frame) {
        assert(report.subrange(0, p.len() as int) =~= p);
    }
    if starts_with(report, p) {
        assert forall|n: int| 0 <= n < p.len() implies #[trigger] report[n] == p[n] by {
            assert(report.subrange(0, p.len() as int)[n] == p[n]);
        }
    }
}

pub proof fn lemma_first_frame(frames: Seq<Frame>, report: Seq<u8>, i: int)
    requires
        0 <= i < frames.len(),
        begins_like(report, frames[i]),
        forall|j: int| 0 <= j < i ==> !begins_like(report, #[trigger] frames[j]),
    ensures
        frame_for(frames, report) == Some(frames[i]),
    decreases i,
{
    lemma_begins(report, frames[0]);
    if i > 0 {
        assert(!begins_like(report, frames[0]));
        let rest = frames.drop_first();
        assert forall|j: int| 0 <= j < i - 1 implies !begins_like(report, #[trigger] rest[j]) by {
            assert(rest[j] == frames[j + 1]);
        }
        lemma_first_frame(rest, report, i - 1);
    }
}

proof fn lemma_taken(fields: Seq<(Field, usize)>, report: Seq<u8>, k: int)
    requires
        0 <= k < fields.len(),
        fields[k].1 < report.len(),
        forall|m: int|
            k < m < fields.len() && (#[trigger] fields[m]).0 == fields[k].0 ==> fields[m].1
                >= report.len(),
    ensures
        extracted(fields, report).dom().contains(fields[k].0),
        extracted(fields, report)[fields[k].0] == report[fields[k].1 as int],
    decreases fields.len(),
{
    let last = fields.len() - 1;
    if k < last {
        let rest = fields.drop_last();
        assert forall|m: int| k < m < rest.len() && (#[trigger] rest[m]).0 == rest[k].0 implies
            rest[m].1 >= report.len() by {
            assert(rest[m] == fields[m]);
        }
        lemma_taken(rest, report, k);
        assert(fields.last() == fields[last]);
    }
}

proof fn lemma_not_taken(fields: Seq<(Field, usize)>, report: Seq<u8>, field: Field)
    requires
        forall|k: int|
            0 <= k < fields.len() && (#[trigger] fields[k]).0 == field ==> fields[k].1
                >= report.len(),
    ensures
        !extracted(fields, report).dom().contains(field),
    decreases fields.len(),
{
    if fields.len() > 0 {
        let rest = fields.drop_last();
        assert forall|k: int| 0 <= k < rest.len() && (#[trigger] rest[k]).0 == field implies
            rest[k].1 >= report.len() by {
            assert(rest[k] == fields[k]);
        }
        lemma_not_taken(rest, report, field);
        assert(fields.last() == fields[fields.len() - 1]);
    }
}

/// A report is read by the first frame that it begins like: every field of the frame that the
/// report reaches has the byte at its offset, and no other field has a value.
pub proof fn a_report_is_read_by_its_frame(frames: Seq<Frame>, report: Seq<u8>, i: int)
    requires
        0 <= i < frames.len(),
        begins_like(report, frames[i]),
        forall|j: int| 0 <= j < i ==> !begins_like(report, #[trigger] frames[j]),
    ensures
        forall|k: int|
            #![trigger frames[i].fields@[k]]
            reaches(report, frames[i], k) && (forall|m: int|
                k < m && #[trigger] reaches(report, frames[i], m) ==> frames[i].fields@[m].0
                    != frames[i].fields@[k].0) ==> parsed(frames, report).dom().contains(
                frames[i].fields@[k].0,
            ) && parsed(frames, report)[frames[i].fields@[k].0]
                == report[frames[i].fields@[k].1 as int],
        forall|field: Field| #[trigger]
            parsed(frames, report).dom().contains(field) ==> exists|k: int| #[trigger]
                reaches(report, frames[i], k) && frames[i].fields@[k].0 == field,
{
    lemma_first_frame(frames, report, i);
    let fields = frames[i].fields@;
    assert forall|k: int|
        #![trigger frames[i].fields@[k]]
        reaches(report, frames[i], k) && (forall|m: int|
            k < m && #[trigger] reaches(report, frames[i], m) ==> frames[i].fields@[m].0
                != frames[i].fields@[k].0) implies parsed(frames, report).dom().contains(
        frames[i].fields@[k].0,
    ) && parsed(frames, report)[frames[i].fields@[k].0] == report[frames[i].fields@[k].1 as int] by {
        assert forall|m: int|
            k < m < fields.len() && (#[trigger] fields[m]).0 == fields[k].0 implies fields[m].1
            >= report.len() by {
            if fields[m].1 < report.len() {
                assert(reaches(report, frames[i], m));
            }
        }
        lemma_taken(fields, report, k);
    }
    assert forall|field: Field| #[trigger] parsed(frames, report).dom().contains(field) implies (
    exists|k: int| #[trigger]
        reaches(report, frames[i], k) && frames[i].fields@[k].0 == field) by {
        if forall|k: int| #[trigger]
            reaches(report, frames[i], k) ==> frames[i].fields@[k].0 != field {
            assert forall|k: int| 0 <= k < fields.len() && (#[trigger] fields[k]).0 == field implies
                fields[k].1 >= report.len() by {
                if fields[k].1 < report.len() {
                    assert(reaches(report, frames[i], k));
                }
            }
            lemma_not_taken(fields, report, field);
        }
    }
}

proof fn lemma_no_frame(frames: Seq<Frame>, report: Seq<u8>)
    requires
        forall|j: int| 0 <= j < frames.len() ==> !begins_like(report, #[trigger] frames[j]),
    ensures
        frame_for(frames, report) is None,
    decreases frames.len(),
{
    if frames.len() > 0 {
        lemma_begins(report, frames[0]);
        assert(!begins_like(report, frames[0]));
        let rest = frames.drop_first();
        assert forall|j: int| 0 <= j < rest.len() implies !begins_like(
            report,
            #[trigger] rest[j],
        ) by {
            assert(rest[j] == frames[j + 1]);
        }
        lemma_no_frame(rest, report);
    }
}

/// A report that begins like no frame carries nothing.
pub proof fn a_strange_report_carries_nothing(frames: Seq<Frame>, report: Seq<u8>)
    requires
        forall|j: int| 0 <= j < frames.len() ==> !begins_like(report, #[trigger] frames[j]),
    ensures
        parsed(frames, report) == Map::<Field, u8>::empty(),
{
    lemma_no_frame(frames, report);
}

/// A device carries a field where some frame of it lists that field, and only there.
pub proof fn a_listed_field_is_carried(frames: Seq<Frame>, field: Field)
    ensures
        (forall|i: int, k: int|
            0 <= i < frames.len() && 0 <= k < frames[i].fields@.len() ==> (
            #[trigger] frames[i].fields@[k]).0 != field) <==> !carries(frames, field),
{
}

// ---------------------------------------------------------------------------
// Charge and charging
// ---------------------------------------------------------------------------

/// The charge is the largest whole percentage that does not exceed the share of the raw value;
/// without a battery it is none.
pub proof fn the_charge_is_rounded_down(raw: int, max: int)
    requires
        0 <= raw,
        0 <= max,
    ensures
        max == 0 ==> percent(raw, max) == 0,
        0 < max <= raw ==> percent(raw, max) == 100,
        0 <= raw <= max && 0 < max ==> percent(raw, max) * max <= raw * 100 < (percent(raw, max)
            + 1) * max,
{
    if 0 < max {
        let level = if raw < max {
            raw
        } else {
            max
        };
        let p = level * 100 / max;
        assert(p * max <= level * 100 < (p + 1) * max) by (nonlinear_arith)
            requires
                p == level * 100 / max,
                max > 0,
        ;
        if raw >= max {
            assert(max * 100 / max == 100) by (nonlinear_arith)
                requires
                    max > 0,
            ;
        }
    }
}

/// Whether a headset charges is told by its charging field, where the report has one; otherwise
/// by its power state; otherwise it does not.
pub proof fn the_charging_field_decides(spec: DeviceSpec, fields: Map<Field, u8>)
    ensures
        fields.dom().contains(Field::Charging) ==> (spec.charging(fields) <==> exists|i: int|
            0 <= i < spec.charging_on@.len() && #[trigger] spec.charging_on@[i]
                == fields[Field::Charging]),
        !fields.dom().contains(Field::Charging) && fields.dom().contains(Field::Power) ==> (
        spec.charging(fields) <==> exists|i: int|
            0 <= i < spec.power_charging@.len() && #[trigger] spec.power_charging@[i]
                == fields[Field::Power]),
        !fields.dom().contains(Field::Charging) && !fields.dom().contains(Field::Power)
            ==> !spec.charging(fields),
{
}

// ---------------------------------------------------------------------------
// Wording
// ---------------------------------------------------------------------------

/// A value has the first name that is listed for it; a value that is not listed is shown in
/// hexadecimal.
pub proof fn a_value_has_the_name_listed_for_it(v: u8, names: Seq<(u8, &str)>)
    ensures
        forall|i: int|
            0 <= i < names.len() && (#[trigger] names[i]).0 == v && (forall|j: int|
                0 <= j < i ==> (#[trigger] names[j]).0 != v) ==> named(v, names) == names[i].1@,
        (forall|i: int| 0 <= i < names.len() ==> (#[trigger] names[i]).0 != v) ==> named(v, names)
            == "unknown (0x"@ + hex(v as nat, 2, false) + ")"@,
    decreases names.len(),
{
    if names.len() > 0 && names[0].0 != v {
        let rest = names.drop_first();
        a_value_has_the_name_listed_for_it(v, rest);
        assert forall|i: int|
            0 <= i < names.len() && (#[trigger] names[i]).0 == v && (forall|j: int|
                0 <= j < i ==> (#[trigger] names[j]).0 != v) implies named(v, names)
            == names[i].1@ by {
            assert(rest[i - 1] == names[i]);
            assert forall|j: int| 0 <= j < i - 1 implies (#[trigger] rest[j]).0 != v by {
                assert(rest[j] == names[j + 1]);
            }
        }
        if forall|i: int| 0 <= i < names.len() ==> (#[trigger] names[i]).0 != v {
            assert forall|i: int| 0 <= i < rest.len() implies (#[trigger] rest[i]).0 != v by {
                assert(rest[i] == names[i + 1]);
            }
        }
    } else if names.len() > 0 {
        assert(names[0].0 == v);
    }
}

/// A field without a value has no wording.
pub proof fn what_has_no_value_has_no_wording(labels: Labels, fields: Map<Field, u8>, field: Field)
    requires
        !fields.dom().contains(field),
    ensures
        described(labels, fields, field) is None,
{
}

/// The wording of a power state, for every family that has one: it depends on nothing but the
/// raw value.
pub proof fn power_is_worded_by_its_value(
    labels: Labels,
    fields: Map<Field, u8>,
    other: Map<Field, u8>,
)
    requires
        fields.dom().contains(Field::Power),
        other.dom().contains(Field::Power),
        fields[Field::Power] == other[Field::Power],
    ensures
        described(labels, fields, Field::Power) == described(labels, other, Field::Power),
        described(labels, fields, Field::Power) is None <==> labels is NovaProWired,
{
}

// ---------------------------------------------------------------------------
// Commands
// ---------------------------------------------------------------------------

/// A command is written as the bytes it has, up to the length of a report and filled up with
/// zeros to it; a zero stands before them where reports are unnumbered.
pub proof fn a_command_is_written_byte_by_byte(cmd: Seq<u8>, unnumbered: bool, i: int)
    requires
        0 <= i < 64,
    ensures
        ({
            let at = if unnumbered {
                i + 1
            } else {
                i
            };
            framed(cmd, unnumbered)[at] == if i < cmd.len() {
                cmd[i]
            } else {
                0
            }
        }),
        unnumbered ==> framed(cmd, unnumbered)[0] == 0,
        framed(cmd, unnumbered).len() == if unnumbered {
            65int
        } else {
            64
        },
{
}

} // verus!
