//! What a status query collects and what its report says, in plain numbers and words.
use vstd::prelude::*;

use crate::daemon_facts::{at_most_100, has_passed};
use crate::device_laws::the_charge_is_rounded_down;
use crate::devices::{framed, parsed, percent, the_charge_is_a_percentage, DeviceSpec, Field};
use crate::hid::WriteOutcome;
use crate::labels::described;
use crate::session_facts::is_charge;
use crate::status::{
    field_lines, report_lines, shown, status_fields, InquiryState, StagePlace, StatusAnswer,
    StatusMatter,
};
use crate::text::{decimal, padded};

verus! {

// ---------------------------------------------------------------------------
// Collecting
// ---------------------------------------------------------------------------

/// What is known of a field.
pub open spec fn known(fields: Map<Field, u8>, field: Field) -> Option<u8> {
    if fields.dom().contains(field) {
        Some(fields[field])
    } else {
        None
    }
}

/// The value that the last reply with this field gave; what was known before where none did.
pub open spec fn last_given(
    spec: DeviceSpec,
    before: Option<u8>,
    replies: Seq<Vec<u8>>,
    field: Field,
) -> Option<u8>
    decreases replies.len(),
{
    if replies.len() == 0 {
        before
    } else {
        let values = parsed(spec.frames@, replies.last()@);
        if values.dom().contains(field) {
            Some(values[field])
        } else {
            last_given(spec, before, replies.drop_last(), field)
        }
    }
}

/// The query after these replies have come in time, one after the other.
pub open spec fn heard(query: InquiryState, replies: Seq<Vec<u8>>, now: u64) -> InquiryState
    decreases replies.len(),
{
    if replies.len() == 0 {
        query
    } else {
        heard(query, replies.drop_last(), now).step(StatusAnswer::Polled(true), now).0.step(
            StatusAnswer::Reply(Some(replies.last())),
            now,
        ).0
    }
}

/// A reply gives the values that it carries and leaves all others, in time or not.
pub proof fn a_reply_adds_its_values(query: InquiryState, reply: Vec<u8>, field: Field, now: u64)
    requires
        query.stage is Read,
    ensures
        ({
            let values = parsed(query.spec.frames@, reply@);
            let next = query.step(StatusAnswer::Reply(Some(reply)), now).0;
            &&& known(next.fields, field) == if values.dom().contains(field) {
                Some(values[field])
            } else {
                known(query.fields, field)
            }
            &&& next.got_any <==> query.got_any || values != Map::<Field, u8>::empty()
            &&& next.spec == query.spec && next.asked == query.asked
        }),
{
}

/// After any replies each field has the value that the last reply with that field gave: every
/// field that some reply carried is known, and a reply without a field leaves it.
pub proof fn every_reply_counts(
    query: InquiryState,
    replies: Seq<Vec<u8>>,
    field: Field,
    now: u64,
)
    requires
        query.stage is Wait,
        !has_passed(query.asked, now, 2),
    ensures
        ({
            let next = heard(query, replies, now);
            &&& known(next.fields, field) == last_given(
                query.spec,
                known(query.fields, field),
                replies,
                field,
            )
            &&& next.stage is Wait
            &&& next.spec == query.spec
            &&& next.asked == query.asked
        }),
    decreases replies.len(),
{
    if replies.len() > 0 {
        every_reply_counts(query, replies.drop_last(), field, now);
        let before = heard(query, replies.drop_last(), now);
        let reading = before.step(StatusAnswer::Polled(true), now).0;
        assert(reading.stage is Read);
        assert(reading.fields == before.fields);
        a_reply_adds_its_values(reading, replies.last(), field, now);
    }
}

/// Nothing but a reply changes what is known.
pub proof fn only_a_reply_changes_the_values(query: InquiryState, answer: StatusAnswer, now: u64)
    requires
        !(answer is Reply),
    ensures
        query.step(answer, now).0.fields == query.fields,
        query.step(answer, now).0.got_any == query.got_any,
        query.step(answer, now).0.spec == query.spec,
{
}

// ---------------------------------------------------------------------------
// The course of a query
// ---------------------------------------------------------------------------

/// Where nothing has come and the device stays silent, it is waited for until two seconds have
/// passed since the last request; where something has, silence ends the query with the report.
pub proof fn silence_ends_a_query(query: InquiryState, now: u64)
    requires
        query.stage is Wait,
    ensures
        ({
            let next = query.step(StatusAnswer::Polled(false), now).0;
            &&& query.got_any ==> next.stage == StagePlace::Finished(
                Ok(report_lines(query.spec, query.fields)),
            )
            &&& !query.got_any && has_passed(query.asked, now, 2) ==> next.stage
                == StagePlace::Finished(Err("no status response from the device"@))
            &&& !query.got_any && !has_passed(query.asked, now, 2) ==> next.stage is Wait
            &&& query.step(StatusAnswer::Polled(true), now).0.stage is Read
        }),
{
}

/// After a reply the next is waited for, unless two seconds have passed; a reply that cannot be
/// read ends the query with what there is.
pub proof fn a_reply_is_followed_by_the_next(query: InquiryState, reply: Vec<u8>, now: u64)
    requires
        query.stage is Read,
    ensures
        ({
            let next = query.step(StatusAnswer::Reply(Some(reply)), now).0;
            let last = query.step(StatusAnswer::Reply(None), now).0;
            &&& !has_passed(query.asked, now, 2) ==> next.stage is Wait
            &&& has_passed(query.asked, now, 2) ==> next.stage == StagePlace::Finished(
                if next.got_any {
                    Ok(report_lines(next.spec, next.fields))
                } else {
                    Err("no status response from the device"@)
                },
            )
            &&& last.stage == StagePlace::Finished(
                if query.got_any {
                    Ok(report_lines(query.spec, query.fields))
                } else {
                    Err("no status response from the device"@)
                },
            )
        }),
{
}

/// Replies are polled for 200 milliseconds at a time before the first, and 300 after it.
pub proof fn the_first_reply_is_polled_for_more_often(query: InquiryState)
    requires
        query.stage is Wait,
    ensures
        query.question() == StatusMatter::Poll(
            if query.got_any {
                300
            } else {
                200
            },
        ),
{
}

/// The query after so many successful writes.
pub open spec fn after_writes(start: InquiryState, count: nat, now: u64) -> InquiryState
    decreases count,
{
    if count == 0 {
        start
    } else {
        after_writes(start, (count - 1) as nat, now).step(
            StatusAnswer::Written(WriteOutcome::Written),
            now,
        ).0
    }
}

/// Every status request is written, in order and in the device's own framing; the last one
/// starts the clock, and the wait for replies.
pub proof fn every_status_request_is_asked(spec: DeviceSpec, k: nat, now: u64)
    requires
        0 < spec.status_requests@.len() <= usize::MAX,
        k <= spec.status_requests@.len(),
    ensures
        ({
            let query = after_writes(InquiryState::start(spec), k, now);
            &&& k < spec.status_requests@.len() ==> query.question() == StatusMatter::Write(
                framed(spec.status_requests@[k as int]@, spec.unnumbered_reports),
            )
            &&& k == spec.status_requests@.len() ==> query.stage is Wait && query.asked == now
            &&& query.fields == Map::<Field, u8>::empty()
            &&& !query.got_any
        }),
{
    lemma_asked(spec, k, now);
}

proof fn lemma_asked(spec: DeviceSpec, k: nat, now: u64)
    requires
        0 < spec.status_requests@.len() <= usize::MAX,
        k <= spec.status_requests@.len(),
    ensures
        ({
            let query = after_writes(InquiryState::start(spec), k, now);
            &&& query.stage == if k < spec.status_requests@.len() {
                StagePlace::Write(k as usize)
            } else {
                StagePlace::Wait
            }
            &&& k == spec.status_requests@.len() ==> query.asked == now
            &&& query.spec == spec
            &&& query.writer.unnumbered == spec.unnumbered_reports
            &&& !query.writer.retried
            &&& query.fields == Map::<Field, u8>::empty()
            &&& !query.got_any
        }),
    decreases k,
{
    if k > 0 {
        lemma_asked(spec, (k - 1) as nat, now);
    }
}

/// A device without requests is not asked; a request that cannot be written ends the query; a
/// layout that is rejected for the first time is tried the other way.
pub proof fn a_query_that_cannot_be_asked(
    spec: DeviceSpec,
    query: InquiryState,
    index: usize,
    e: String,
    now: u64,
)
    requires
        spec.status_requests@.len() == 0,
        query.stage == StagePlace::Write(index),
    ensures
        InquiryState::start(spec).stage == StagePlace::Finished(
            Err("the "@ + spec.name@ + " has no status protocol"@),
        ),
        query.step(StatusAnswer::Written(WriteOutcome::Failed(e)), now).0.stage
            == StagePlace::Finished(Err("failed to send status request"@)),
        ({
            let (next, log) = query.step(StatusAnswer::Written(WriteOutcome::Rejected(e)), now);
            if query.writer.retried {
                next.stage == StagePlace::Finished(Err("failed to send status request"@))
            } else {
                next.stage == query.stage && next.writer.unnumbered == !query.writer.unnumbered
                    && log is Some
            }
        }),
{
}

/// A change of the framing is logged with the framing that follows; nothing else is logged.
pub proof fn only_a_change_of_the_framing_is_logged(
    query: InquiryState,
    answer: StatusAnswer,
    now: u64,
)
    ensures
        ({
            let log = query.step(answer, now).1;
            if query.stage is Write && !query.writer.retried && (answer matches
                StatusAnswer::Written(outcome) && outcome is Rejected) {
                log == Some(
                    "hidraw rejected write, switching to "@ + (if query.writer.unnumbered {
                        "numbered"@
                    } else {
                        "unnumbered"@
                    }) + " report framing"@,
                )
            } else {
                log is None
            }
        }),
{
}

/// The answer is to the question that is open at the stage.
pub open spec fn is_asked(stage: StagePlace, answer: StatusAnswer) -> bool {
    match answer {
        StatusAnswer::Written(_) => stage is Write,
        StatusAnswer::Polled(_) => stage is Wait,
        StatusAnswer::Reply(_) => stage is Read,
    }
}

/// An answer to something else changes nothing; the device stays, only a write changes the
/// framing and starts the clock, and a reply that cannot be read gives no values.
pub proof fn each_answer_changes_only_its_own(query: InquiryState, answer: StatusAnswer, now: u64)
    ensures
        ({
            let next = query.step(answer, now).0;
            &&& !is_asked(query.stage, answer) ==> next == query
            &&& next.spec == query.spec
            &&& !(answer is Written) ==> next.writer == query.writer && next.asked == query.asked
            &&& answer == StatusAnswer::Reply(None) ==> next.fields == query.fields
                && next.got_any == query.got_any
            &&& query.question() is Finished ==> next == query
        }),
{
}

/// What is asked is what the stage calls for; the outcome of a query that is over is its answer.
pub proof fn the_question_fits_the_stage(query: InquiryState)
    ensures
        query.stage matches StagePlace::Write(i) ==> query.question() == StatusMatter::Write(
            framed(query.spec.status_requests@[i as int]@, query.writer.unnumbered),
        ),
        query.stage is Wait ==> query.question() is Poll,
        query.stage is Read ==> query.question() is Read,
        query.stage matches StagePlace::Finished(r) ==> query.question() == StatusMatter::Finished(
            r,
        ),
{
}

// ---------------------------------------------------------------------------
// The report
// ---------------------------------------------------------------------------

/// The line of a field, where it shows anything: the label and a colon in a column of fourteen
/// characters, then the value.
pub open spec fn line_of(
    spec: DeviceSpec,
    fields: Map<Field, u8>,
    field: Field,
    label: Seq<char>,
) -> Seq<Seq<char>> {
    match shown(spec, fields, field) {
        Some(value) => seq![padded(label + ":"@, 14) + value],
        None => seq![],
    }
}

proof fn lemma_field_lines(
    spec: DeviceSpec,
    fields: Map<Field, u8>,
    list: Seq<(Field, Seq<char>)>,
    field: Field,
    label: Seq<char>,
)
    ensures
        field_lines(spec, fields, list.push((field, label))) == field_lines(spec, fields, list)
            + line_of(spec, fields, field, label),
{
    let more = list.push((field, label));
    assert(more.drop_last() =~= list);
    assert(field_lines(spec, fields, more) =~= field_lines(spec, fields, list) + line_of(
        spec,
        fields,
        field,
        label,
    ));
}

/// The field that comes at this place of a report, with its label.
pub open spec fn nth_field(n: int) -> (Field, Seq<char>) {
    if n == 0 {
        (Field::Power, "headset"@)
    } else if n == 1 {
        (Field::Battery, "battery"@)
    } else if n == 2 {
        (Field::SlotBattery, "charge slot"@)
    } else if n == 3 {
        (Field::MicMuted, "microphone"@)
    } else if n == 4 {
        (Field::GameMix, "chatmix"@)
    } else if n == 5 {
        (Field::Anc, "anc"@)
    } else if n == 6 {
        (Field::WirelessMode, "wireless"@)
    } else if n == 7 {
        (Field::BtConnection, "bluetooth"@)
    } else if n == 8 {
        (Field::BtAutoMute, "bt auto-mute"@)
    } else if n == 9 {
        (Field::AutoOff, "auto off"@)
    } else if n == 10 {
        (Field::Gain, "gain"@)
    } else if n == 11 {
        (Field::MicVolume, "mic volume"@)
    } else if n == 12 {
        (Field::SideTone, "sidetone"@)
    } else {
        (Field::LineOut, "line out"@)
    }
}

/// The line of the device, and those of the first `count` fields that show anything.
pub open spec fn first_lines(spec: DeviceSpec, fields: Map<Field, u8>, count: nat) -> Seq<Seq<char>>
    decreases count,
{
    if count == 0 {
        seq![padded("device"@ + ":"@, 14) + spec.name@]
    } else {
        let (field, label) = nth_field(count - 1);
        first_lines(spec, fields, (count - 1) as nat) + line_of(spec, fields, field, label)
    }
}

proof fn lemma_nth_field(n: int)
    requires
        0 <= n < 14,
    ensures
        status_fields().len() == 14,
        status_fields()[n] == nth_field(n),
{
}

proof fn lemma_first_lines(spec: DeviceSpec, fields: Map<Field, u8>, count: nat)
    requires
        count <= 14,
    ensures
        first_lines(spec, fields, count) == seq![padded("device"@ + ":"@, 14) + spec.name@]
            + field_lines(spec, fields, status_fields().take(count as int)),
    decreases count,
{
    let all = status_fields();
    let first = seq![padded("device"@ + ":"@, 14) + spec.name@];
    if count == 0 {
        assert(all.take(0) =~= seq![]);
        assert(first + field_lines(spec, fields, all.take(0)) =~= first);
    } else {
        let less = (count - 1) as nat;
        lemma_first_lines(spec, fields, less);
        lemma_nth_field(less as int);
        let (field, label) = nth_field(less as int);
        assert(all.take(count as int) =~= all.take(less as int).push((field, label)));
        lemma_field_lines(spec, fields, all.take(less as int), field, label);
        let before = field_lines(spec, fields, all.take(less as int));
        let line = line_of(spec, fields, field, label);
        assert(first + before + line =~= first + (before + line));
    }
}

/// A report names the device and then, each where it shows anything and in this order, the
/// headset's power, battery, charge slot, microphone, dial, noise cancelling, wireless mode,
/// bluetooth, its muting, automatic switch-off, gain, microphone volume, sidetone and line out.
pub proof fn a_report_has_these_lines(spec: DeviceSpec, fields: Map<Field, u8>)
    ensures
        report_lines(spec, fields) == first_lines(spec, fields, 14),
{
    lemma_first_lines(spec, fields, 14);
    lemma_nth_field(0);
    assert(status_fields().take(14) =~= status_fields());
}

/// A charge is shown as its percentage, rounded down.
pub open spec fn shows_charge(text: Seq<char>, raw: u8, max: u8, behind: Seq<char>) -> bool {
    exists|pct: u32| #[trigger] is_charge(pct, raw, max) && text == decimal(pct as nat) + "%"@ + behind
}

proof fn lemma_charge(raw: u8, max: u8)
    ensures
        0 <= percent(raw as int, max as int) <= 100,
        is_charge(percent(raw as int, max as int) as u32, raw, max),
{
    the_charge_is_rounded_down(raw as int, max as int);
    the_charge_is_a_percentage(raw as int, raw as int, max as int);
}

/// What a report shows for a value: charges in percent, with a note while charging; whether the
/// microphone is muted; both halves of the dial, or nothing; and the wording of everything else.
pub proof fn values_are_shown_in_words(spec: DeviceSpec, fields: Map<Field, u8>, field: Field)
    ensures
        !fields.dom().contains(field) ==> shown(spec, fields, field) is None,
        fields.dom().contains(Field::Battery) ==> (shown(spec, fields, Field::Battery) matches Some(
            text,
        ) && shows_charge(
            text,
            fields[Field::Battery],
            spec.battery_max,
            if spec.charging(fields) {
                " (charging)"@
            } else {
                seq![]
            },
        )),
        fields.dom().contains(Field::SlotBattery) ==> (shown(
            spec,
            fields,
            Field::SlotBattery,
        ) matches Some(text) && shows_charge(
            text,
            fields[Field::SlotBattery],
            spec.battery_max,
            seq![],
        )),
        fields.dom().contains(Field::MicMuted) ==> shown(spec, fields, Field::MicMuted) == Some(
            if fields[Field::MicMuted] == 1 {
                "muted"@
            } else {
                "unmuted"@
            },
        ),
        fields.dom().contains(Field::GameMix) && !fields.dom().contains(Field::ChatMix) ==> shown(
            spec,
            fields,
            Field::GameMix,
        ) is None,
        fields.dom().contains(Field::GameMix) && fields.dom().contains(Field::ChatMix) ==> shown(
            spec,
            fields,
            Field::GameMix,
        ) == Some(
            "game "@ + (decimal(at_most_100(fields[Field::GameMix]) as nat) + "%"@) + " / chat "@ + (
            decimal(at_most_100(fields[Field::ChatMix]) as nat) + "%"@),
        ),
        fields.dom().contains(field) && field != Field::Battery && field != Field::SlotBattery
            && field != Field::MicMuted && field != Field::GameMix ==> shown(spec, fields, field)
            == described(spec.labels, fields, field),
{
    if fields.dom().contains(Field::Battery) {
        let raw = fields[Field::Battery];
        lemma_charge(raw, spec.battery_max);
        let pct = percent(raw as int, spec.battery_max as int) as u32;
        let text = shown(spec, fields, Field::Battery)->0;
        assert(is_charge(pct, raw, spec.battery_max));
        assert(text == decimal(pct as nat) + "%"@ + if spec.charging(fields) {
            " (charging)"@
        } else {
            seq![]
        });
    }
    if fields.dom().contains(Field::SlotBattery) {
        let raw = fields[Field::SlotBattery];
        lemma_charge(raw, spec.battery_max);
        let pct = percent(raw as int, spec.battery_max as int) as u32;
        let text = shown(spec, fields, Field::SlotBattery)->0;
        assert(is_charge(pct, raw, spec.battery_max));
        assert(text =~= decimal(pct as nat) + "%"@ + Seq::<char>::empty());
    }
}

} // verus!
