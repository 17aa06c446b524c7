//! The one-shot status query: what is asked of a headset, how long its replies are waited for,
//! and the labelled report of everything it answers with.
//!
//! An [`Inquiry`] performs no input or output. It waits for the answer to one
//! [`StatusQuestion`]; [`Inquiry::step`] takes the answer, together with the time.
use vstd::prelude::*;

use crate::daemon::{due, is_due};
use crate::devices::{framed, parse_report, parsed, percent, Collected, DeviceSpec, Field};
use crate::hid::{switch_message, WriteOutcome, WriteStep, Writer};
use crate::labels::described;
use crate::modules::{volume_of, volume_text};
use crate::text::{copied, decimal, decimal_of, opt_text, pad, padded, texts};

verus! {

/// The column that the values of a report begin in.
pub const LABEL_WIDTH: usize = 14;

/// The raw value of a microphone that is muted.
pub const MIC_MUTED: u8 = 0x01;

/// Seconds until the replies are waited for no longer.
pub const REPLY_SECS: u64 = 2;

/// Milliseconds to wait for the first reply, before the time is looked at again.
pub const FIRST_WAIT_MS: u32 = 200;

/// Milliseconds without a further reply after which the device has said everything.
pub const QUIET_MS: u32 = 300;

// ---------------------------------------------------------------------------
// The report
// ---------------------------------------------------------------------------

/// The fields of a report in order, with their labels.
pub open spec fn status_fields() -> Seq<(Field, Seq<char>)> {
    seq![
        (Field::Power, "headset"@),
        (Field::Battery, "battery"@),
        (Field::SlotBattery, "charge slot"@),
        (Field::MicMuted, "microphone"@),
        (Field::GameMix, "chatmix"@),
        (Field::Anc, "anc"@),
        (Field::WirelessMode, "wireless"@),
        (Field::BtConnection, "bluetooth"@),
        (Field::BtAutoMute, "bt auto-mute"@),
        (Field::AutoOff, "auto off"@),
        (Field::Gain, "gain"@),
        (Field::MicVolume, "mic volume"@),
        (Field::SideTone, "sidetone"@),
        (Field::LineOut, "line out"@),
    ]
}

/// A charge in percent.
pub open spec fn charge_text(spec: DeviceSpec, raw: u8) -> Seq<char> {
    decimal(percent(raw as int, spec.battery_max as int) as nat) + "%"@
}

/// What a report shows for a field: nothing for one that was not collected, for half of the
/// dial, or for a value without a wording.
pub open spec fn shown(spec: DeviceSpec, fields: Map<Field, u8>, field: Field) -> Option<Seq<char>> {
    if !fields.dom().contains(field) {
        None
    } else {
        match field {
            Field::Battery => Some(
                charge_text(spec, fields[field]) + if spec.charging(fields) {
                    " (charging)"@
                } else {
                    seq![]
                },
            ),
            Field::SlotBattery => Some(charge_text(spec, fields[field])),
            Field::MicMuted => Some(
                if fields[field] == MIC_MUTED {
                    "muted"@
                } else {
                    "unmuted"@
                },
            ),
            Field::GameMix => if fields.dom().contains(Field::ChatMix) {
                Some(
                    "game "@ + volume_text(fields[Field::GameMix]) + " / chat "@ + volume_text(
                        fields[Field::ChatMix],
                    ),
                )
            } else {
                None
            },
            _ => described(spec.labels, fields, field),
        }
    }
}

/// A line of a report.
pub open spec fn labelled(label: Seq<char>, value: Seq<char>) -> Seq<char> {
    padded(label + ":"@, LABEL_WIDTH as nat) + value
}

/// The lines for `shown_fields` in order.
pub open spec fn field_lines(
    spec: DeviceSpec,
    fields: Map<Field, u8>,
    shown_fields: Seq<(Field, Seq<char>)>,
) -> Seq<Seq<char>>
    decreases shown_fields.len(),
{
    if shown_fields.len() == 0 {
        seq![]
    } else {
        let before = field_lines(spec, fields, shown_fields.drop_last());
        match shown(spec, fields, shown_fields.last().0) {
            Some(value) => before.push(labelled(shown_fields.last().1, value)),
            None => before,
        }
    }
}

/// The report: the name of the device, and a line for each field that shows anything.
pub open spec fn report_lines(spec: DeviceSpec, fields: Map<Field, u8>) -> Seq<Seq<char>> {
    seq![labelled("device"@, spec.name@)] + field_lines(spec, fields, status_fields())
}

/// The labels as texts.
pub open spec fn label_texts(labels: Seq<(Field, &'static str)>) -> Seq<(Field, Seq<char>)> {
    labels.map_values(|l: (Field, &'static str)| (l.0, l.1@))
}

/// The fields of a report in order, with their labels.
fn labels() -> (r: Vec<(Field, &'static str)>)
    ensures
        label_texts(r@) == status_fields(),
{
    let r = vec![
        (Field::Power, "headset"),
        (Field::Battery, "battery"),
        (Field::SlotBattery, "charge slot"),
        (Field::MicMuted, "microphone"),
        (Field::GameMix, "chatmix"),
        (Field::Anc, "anc"),
        (Field::WirelessMode, "wireless"),
        (Field::BtConnection, "bluetooth"),
        (Field::BtAutoMute, "bt auto-mute"),
        (Field::AutoOff, "auto off"),
        (Field::Gain, "gain"),
        (Field::MicVolume, "mic volume"),
        (Field::SideTone, "sidetone"),
        (Field::LineOut, "line out"),
    ];
    assert(label_texts(r@) =~= status_fields());
    r
}

/// A line of a report.
fn line(label: &str, value: &str) -> (r: String)
    ensures
        r@ == labelled(label@, value@),
{
    let mut head = label.to_owned();
    head.append(":");
    let mut r = pad(head.as_str(), LABEL_WIDTH);
    r.append(value);
    r
}

/// A charge in percent.
fn charge(spec: &DeviceSpec, raw: u8) -> (r: String)
    ensures
        r@ == charge_text(*spec, raw),
{
    let mut r = decimal_of(spec.battery_percent(raw));
    r.append("%");
    r
}

/// What a report shows for a field.
pub fn status_value(spec: &DeviceSpec, fields: &Collected, field: Field) -> (r: Option<String>)
    ensures
        opt_text(r) == shown(*spec, fields@, field),
{
    let raw = match fields.get(field) {
        Some(raw) => raw,
        None => {
            return None;
        },
    };
    match field {
        Field::Battery => {
            let mut r = charge(spec, raw);
            if spec.is_charging(fields) {
                r.append(" (charging)");
            } else {
                assert(r@ + Seq::<char>::empty() =~= r@);
            }
            Some(r)
        },
        Field::SlotBattery => Some(charge(spec, raw)),
        Field::MicMuted => Some(
            if raw == MIC_MUTED {
                "muted".to_owned()
            } else {
                "unmuted".to_owned()
            },
        ),
        Field::GameMix => match fields.get(Field::ChatMix) {
            Some(chat) => {
                let mut r = "game ".to_owned();
                r.append(volume_of(raw).as_str());
                r.append(" / chat ");
                r.append(volume_of(chat).as_str());
                Some(r)
            },
            None => None,
        },
        _ => spec.describe(fields, field),
    }
}

/// The lines of the report on everything that was collected.
pub fn print_status(spec: &DeviceSpec, fields: &Collected) -> (r: Vec<String>)
    ensures
        texts(r@) == report_lines(*spec, fields@),
{
    let labels = labels();
    let ghost all = status_fields();
    let ghost head = seq![labelled("device"@, spec.name@)];
    let mut r: Vec<String> = Vec::new();
    r.push(line("device", spec.name));
    assert(texts(r@) =~= head + field_lines(*spec, fields@, all.take(0)));
    let mut i: usize = 0;
    while i < labels.len()
        invariant
            i <= labels@.len(),
            label_texts(labels@) == all,
            texts(r@) == head + field_lines(*spec, fields@, all.take(i as int)),
        decreases labels@.len() - i,
    {
        let (field, label) = labels[i];
        let ghost before = texts(r@);
        proof {
            assert(all.len() == labels@.len());
            assert(all[i as int] == (field, label@));
            assert(all.take(i + 1).drop_last() =~= all.take(i as int));
            assert(all.take(i + 1).last() == all[i as int]);
        }
        match status_value(spec, fields, field) {
            Some(value) => {
                r.push(line(label, value.as_str()));
                assert(texts(r@) =~= before.push(labelled(label@, value@)));
                assert(texts(r@) =~= head + field_lines(*spec, fields@, all.take(i + 1)));
            },
            None => {},
        }
        i += 1;
    }
    assert(all.take(i as int) =~= all);
    r
}

// ---------------------------------------------------------------------------
// The query
// ---------------------------------------------------------------------------

/// What a status query wants to know next.
#[derive(Debug, PartialEq, Eq)]
pub enum StatusQuestion {
    /// What does writing these bytes to the command node come to?
    Write(Vec<u8>),
    /// Does a reply come within so many milliseconds?
    Poll(u32),
    /// What does reading a reply come to?
    Read,
    /// Nothing: the query is over. The lines of the report, or why there is none.
    Finished(Result<Vec<String>, String>),
}

/// The answer to a [`StatusQuestion`].
pub enum StatusAnswer {
    Written(WriteOutcome),
    Polled(bool),
    /// The reply; none where it could not be read.
    Reply(Option<Vec<u8>>),
}

/// Where a status query stands.
#[derive(Debug)]
pub enum Stage {
    /// Writing the status request of this number.
    Write(usize),
    /// Waiting for a reply.
    Wait,
    /// Reading a reply.
    Read,
    Finished(Result<Vec<String>, String>),
}

/// A status query to one headset.
#[derive(Debug)]
pub struct Inquiry {
    pub spec: DeviceSpec,
    pub writer: Writer,
    /// The values of all the replies so far.
    pub fields: Collected,
    /// Some reply carried a value.
    pub got_any: bool,
    /// When the last request was written.
    pub asked: u64,
    pub stage: Stage,
}

/// A [`StatusQuestion`] with its texts.
pub enum StatusMatter {
    Write(Seq<u8>),
    Poll(u32),
    Read,
    Finished(Result<Seq<Seq<char>>, Seq<char>>),
}

/// A [`Stage`] with its texts.
pub enum StagePlace {
    Write(usize),
    Wait,
    Read,
    Finished(Result<Seq<Seq<char>>, Seq<char>>),
}

/// An [`Inquiry`] with its texts.
pub struct InquiryState {
    pub spec: DeviceSpec,
    pub writer: Writer,
    pub fields: Map<Field, u8>,
    pub got_any: bool,
    pub asked: u64,
    pub stage: StagePlace,
}

/// The outcome of a query as texts.
pub open spec fn outcome_texts(r: Result<Vec<String>, String>) -> Result<Seq<Seq<char>>, Seq<char>> {
    match r {
        Ok(lines) => Ok(texts(lines@)),
        Err(e) => Err(e@),
    }
}

impl View for StatusQuestion {
    type V = StatusMatter;

    open spec fn view(&self) -> StatusMatter {
        match self {
            StatusQuestion::Write(b) => StatusMatter::Write(b@),
            StatusQuestion::Poll(ms) => StatusMatter::Poll(*ms),
            StatusQuestion::Read => StatusMatter::Read,
            StatusQuestion::Finished(r) => StatusMatter::Finished(outcome_texts(*r)),
        }
    }
}

impl View for Stage {
    type V = StagePlace;

    open spec fn view(&self) -> StagePlace {
        match self {
            Stage::Write(i) => StagePlace::Write(*i),
            Stage::Wait => StagePlace::Wait,
            Stage::Read => StagePlace::Read,
            Stage::Finished(r) => StagePlace::Finished(outcome_texts(*r)),
        }
    }
}

impl View for Inquiry {
    type V = InquiryState;

    open spec fn view(&self) -> InquiryState {
        InquiryState {
            spec: self.spec,
            writer: self.writer,
            fields: self.fields@,
            got_any: self.got_any,
            asked: self.asked,
            stage: self.stage@,
        }
    }
}

impl InquiryState {
    pub open spec fn at(self, stage: StagePlace) -> InquiryState {
        InquiryState { stage: stage, ..self }
    }

    /// The number of a request is that of one that the device has.
    pub open spec fn wf(self) -> bool {
        self.stage matches StagePlace::Write(i) ==> i < self.spec.status_requests@.len()
    }

    /// A query that has asked nothing yet. There is nothing to ask of a device without status
    /// requests.
    pub open spec fn start(spec: DeviceSpec) -> InquiryState {
        InquiryState {
            spec: spec,
            writer: Writer { unnumbered: spec.unnumbered_reports, retried: false },
            fields: Map::empty(),
            got_any: false,
            asked: 0,
            stage: if spec.status_requests@.len() > 0 {
                StagePlace::Write(0)
            } else {
                StagePlace::Finished(Err("the "@ + spec.name@ + " has no status protocol"@))
            },
        }
    }

    /// What the query wants to know next.
    pub open spec fn question(self) -> StatusMatter {
        match self.stage {
            StagePlace::Write(i) => StatusMatter::Write(
                framed(self.spec.status_requests@[i as int]@, self.writer.unnumbered),
            ),
            StagePlace::Wait => StatusMatter::Poll(
                if self.got_any {
                    QUIET_MS
                } else {
                    FIRST_WAIT_MS
                },
            ),
            StagePlace::Read => StatusMatter::Read,
            StagePlace::Finished(r) => StatusMatter::Finished(r),
        }
    }

    /// The query is over.
    pub open spec fn over(self) -> InquiryState {
        self.at(
            StagePlace::Finished(
                if self.got_any {
                    Ok(report_lines(self.spec, self.fields))
                } else {
                    Err("no status response from the device"@)
                },
            ),
        )
    }

    /// A further reply is waited for, while there is time.
    pub open spec fn more(self, now: u64) -> InquiryState {
        if is_due(self.asked, now, REPLY_SECS) {
            self.over()
        } else {
            self.at(StagePlace::Wait)
        }
    }

    /// A write is over. A request that cannot be written ends the query.
    pub open spec fn written(self, index: int, outcome: WriteOutcome, now: u64) -> (
        InquiryState,
        Option<Seq<char>>,
    ) {
        let next = InquiryState { writer: self.writer.after(outcome), ..self };
        if outcome is Rejected && !self.writer.retried {
            (next, Some(switch_message(next.writer.unnumbered)))
        } else if outcome !is Written {
            (next.at(StagePlace::Finished(Err("failed to send status request"@))), None)
        } else if index + 1 < self.spec.status_requests@.len() {
            (next.at(StagePlace::Write((index + 1) as usize)), None)
        } else {
            (InquiryState { asked: now, ..next }.more(now), None)
        }
    }

    /// A reply was waited for. A device that goes quiet after a reply has said everything.
    pub open spec fn polled(self, ready: bool, now: u64) -> InquiryState {
        if ready {
            self.at(StagePlace::Read)
        } else if self.got_any {
            self.over()
        } else {
            self.more(now)
        }
    }

    /// A reply was read.
    pub open spec fn replied(self, reply: Seq<u8>, now: u64) -> InquiryState {
        let values = parsed(self.spec.frames@, reply);
        InquiryState {
            fields: self.fields.union_prefer_right(values),
            got_any: self.got_any || !(values =~= Map::<Field, u8>::empty()),
            ..self
        }.more(now)
    }

    /// The query after an answer, and what is to be logged. An answer to something else changes
    /// nothing.
    pub open spec fn step(self, answer: StatusAnswer, now: u64) -> (
        InquiryState,
        Option<Seq<char>>,
    ) {
        match (self.stage, answer) {
            (StagePlace::Write(i), StatusAnswer::Written(outcome)) => self.written(
                i as int,
                outcome,
                now,
            ),
            (StagePlace::Wait, StatusAnswer::Polled(ready)) => (self.polled(ready, now), None),
            (StagePlace::Read, StatusAnswer::Reply(Some(reply))) => (
                self.replied(reply@, now),
                None,
            ),
            (StagePlace::Read, StatusAnswer::Reply(None)) => (self.over(), None),
            _ => (self, None),
        }
    }
}

impl Inquiry {
    /// A query that has asked nothing yet.
    pub fn new(spec: DeviceSpec) -> (r: Inquiry)
        ensures
            r@ == InquiryState::start(spec),
            r@.wf(),
    {
        let stage = if spec.has_status() {
            Stage::Write(0)
        } else {
            let mut text = "the ".to_owned();
            text.append(spec.name);
            text.append(" has no status protocol");
            Stage::Finished(Err(text))
        };
        Inquiry {
            spec,
            writer: Writer::new(&spec),
            fields: Collected::default(),
            got_any: false,
            asked: 0,
            stage,
        }
    }

    /// What the query wants to know next.
    pub fn question(&self) -> (r: StatusQuestion)
        requires
            self@.wf(),
        ensures
            r@ == self@.question(),
    {
        match &self.stage {
            Stage::Write(i) => StatusQuestion::Write(
                self.writer.frame(self.spec.status_requests[*i]),
            ),
            Stage::Wait => StatusQuestion::Poll(
                if self.got_any {
                    QUIET_MS
                } else {
                    FIRST_WAIT_MS
                },
            ),
            Stage::Read => StatusQuestion::Read,
            Stage::Finished(r) => StatusQuestion::Finished(
                match r {
                    Ok(lines) => Ok(copied(lines)),
                    Err(e) => Err(e.clone()),
                },
            ),
        }
    }

    fn over(&mut self)
        ensures
            final(self)@ == old(self)@.over(),
    {
        self.stage = Stage::Finished(
            if self.got_any {
                Ok(print_status(&self.spec, &self.fields))
            } else {
                Err("no status response from the device".to_owned())
            },
        );
    }

    fn more(&mut self, now: u64)
        ensures
            final(self)@ == old(self)@.more(now),
    {
        if due(self.asked, now, REPLY_SECS) {
            self.over();
        } else {
            self.stage = Stage::Wait;
        }
    }

    fn written(&mut self, index: usize, outcome: WriteOutcome, now: u64) -> (r: Option<String>)
        requires
            index < old(self).spec.status_requests@.len(),
            old(self)@.stage == StagePlace::Write(index),
        ensures
            final(self)@ == old(self)@.written(index as int, outcome, now).0,
            opt_text(r) == old(self)@.written(index as int, outcome, now).1,
            final(self)@.wf(),
    {
        let count = self.spec.status_requests.len();
        assert(self.spec.status_requests@.len() == count);
        match self.writer.write_command(outcome) {
            WriteStep::Again => Some(self.writer.switched()),
            WriteStep::Failed(_) => {
                self.stage = Stage::Finished(Err("failed to send status request".to_owned()));
                None
            },
            WriteStep::Done => {
                if index + 1 < count {
                    self.stage = Stage::Write(index + 1);
                } else {
                    self.asked = now;
                    self.more(now);
                }
                None
            },
        }
    }

    fn replied(&mut self, reply: &[u8], now: u64)
        ensures
            final(self)@ == old(self)@.replied(reply@, now),
    {
        let values = parse_report(&self.spec, reply);
        if values.is_empty() {
            assert(self.fields@.union_prefer_right(values@) =~= self.fields@);
        } else {
            self.fields.merge(&values);
            self.got_any = true;
        }
        self.more(now);
    }

    /// Takes the answer to the open question at the time `now`, in nanoseconds. Returns what is
    /// to be logged. An answer to something else changes nothing.
    pub fn step(&mut self, answer: StatusAnswer, now: u64) -> (r: Option<String>)
        requires
            old(self)@.wf(),
        ensures
            final(self)@ == old(self)@.step(answer, now).0,
            opt_text(r) == old(self)@.step(answer, now).1,
            final(self)@.wf(),
    {
        match answer {
            StatusAnswer::Written(outcome) => match self.stage {
                Stage::Write(index) => self.written(index, outcome, now),
                _ => None,
            },
            StatusAnswer::Polled(ready) => match self.stage {
                Stage::Wait => {
                    if ready {
                        self.stage = Stage::Read;
                    } else if self.got_any {
                        self.over();
                    } else {
                        self.more(now);
                    }
                    None
                },
                _ => None,
            },
            StatusAnswer::Reply(reply) => match self.stage {
                Stage::Read => {
                    match reply {
                        Some(reply) => self.replied(reply.as_slice(), now),
                        None => self.over(),
                    }
                    None
                },
                _ => None,
            },
        }
    }
}

// ---------------------------------------------------------------------------
// What holds of every query
// ---------------------------------------------------------------------------

/// The query after all of `answers`, each with its time.
pub open spec fn queried(start: InquiryState, answers: Seq<(StatusAnswer, u64)>) -> InquiryState
    decreases answers.len(),
{
    if answers.len() == 0 {
        start
    } else {
        queried(start, answers.drop_last()).step(answers.last().0, answers.last().1).0
    }
}

/// A query has got anything exactly where it has collected a value, and a report that it ends
/// with is the report on everything collected.
pub open spec fn is_faithful(query: InquiryState) -> bool {
    &&& query.got_any <==> !(query.fields =~= Map::<Field, u8>::empty())
    &&& query.stage matches StagePlace::Finished(Ok(lines)) ==> query.got_any && lines
        == report_lines(query.spec, query.fields)
}

/// Whatever the answers are: a query that ends with a report has collected at least one value,
/// and reports on all that it has collected from this device.
pub proof fn a_report_is_on_what_was_collected(
    spec: DeviceSpec,
    answers: Seq<(StatusAnswer, u64)>,
)
    ensures
        is_faithful(queried(InquiryState::start(spec), answers)),
        queried(InquiryState::start(spec), answers).spec == spec,
    decreases answers.len(),
{
    if answers.len() > 0 {
        a_report_is_on_what_was_collected(spec, answers.drop_last());
        let query = queried(InquiryState::start(spec), answers.drop_last());
        let (answer, now) = answers.last();
        if let (StagePlace::Read, StatusAnswer::Reply(Some(reply))) = (query.stage, answer) {
            let values = parsed(query.spec.frames@, reply@);
            let all = query.fields.union_prefer_right(values);
            if query.got_any {
                let f = choose|f: Field| query.fields.dom().contains(f);
                assert(query.fields.dom().contains(f)) by {
                    if !(exists|f: Field| query.fields.dom().contains(f)) {
                        assert(query.fields =~= Map::<Field, u8>::empty());
                    }
                }
                assert(all.dom().contains(f));
            } else if !(values =~= Map::<Field, u8>::empty()) {
                let f = choose|f: Field| values.dom().contains(f);
                assert(values.dom().contains(f)) by {
                    if !(exists|f: Field| values.dom().contains(f)) {
                        assert(values =~= Map::<Field, u8>::empty());
                    }
                }
                assert(all.dom().contains(f));
            } else {
                assert(all =~= Map::<Field, u8>::empty());
            }
        }
    }
}

/// When the time is up, a query ends with the next reply, or the next wait without one.
pub proof fn a_query_ends_in_time(query: InquiryState, reply: Option<Vec<u8>>, now: u64)
    requires
        is_due(query.asked, now, REPLY_SECS),
    ensures
        query.stage is Wait ==> query.step(StatusAnswer::Polled(false), now).0.stage is Finished,
        query.stage is Read ==> query.step(StatusAnswer::Reply(reply), now).0.stage is Finished,
{
}

/// A device that goes quiet after a reply has given its report; one that has not replied yet is
/// waited for while there is time.
pub proof fn a_quiet_device_has_said_everything(query: InquiryState, now: u64)
    requires
        query.stage is Wait,
        !is_due(query.asked, now, REPLY_SECS),
    ensures
        query.got_any <==> query.step(StatusAnswer::Polled(false), now).0.stage is Finished,
        query.got_any ==> query.step(StatusAnswer::Polled(false), now).0.stage
            == StagePlace::Finished(Ok(report_lines(query.spec, query.fields))),
{
}

/// Replies are not waited for before the last request is written.
pub proof fn every_request_is_written_first(
    query: InquiryState,
    index: usize,
    outcome: WriteOutcome,
    now: u64,
)
    requires
        query.stage == StagePlace::Write(index),
        index + 1 < query.spec.status_requests@.len(),
    ensures
        ({
            let stage = query.step(StatusAnswer::Written(outcome), now).0.stage;
            ||| stage == StagePlace::Write(index)
            ||| stage == StagePlace::Write((index + 1) as usize)
            ||| stage is Finished && outcome !is Written
        }),
{
}

} // verus!
