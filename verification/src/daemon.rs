//! The daemon's course with one connected headset, from the handshake to the end of the
//! session.
//!
//! A [`Daemon`] performs no input or output. It always waits for the answer to one
//! [`Question`]; [`Daemon::step`] takes the answer, together with the time, and returns what is
//! to be done before the next question is answered.
use vstd::prelude::*;

use crate::audio::{SinkSnapshot, WatchEvent};
use crate::devices::{carries, framed, parse_report, parsed, DeviceSpec, Field};
use crate::hid::{switch_message, WriteOutcome, WriteStep, Writer};
use crate::session::{
    effects, opt_snapshot, Action, Effect, Query, Reaction, Request, Session, State, Turn,
};
use crate::text::{err_text, opt_text};

verus! {

/// Nanoseconds in a second.
pub const SECOND: u64 = 1_000_000_000;

/// Seconds between two health checks where there is no event stream, and between two attempts
/// to get one.
pub const HEALTH_SECS: u64 = 3;

/// Seconds between two health checks with an event stream, where they are only a safety net.
pub const HEALTH_SECS_EVENTED: u64 = 30;

/// Milliseconds between two commands of the handshake.
pub const INIT_PAUSE_MS: u64 = 10;

/// Milliseconds to wait for a report or an event, before the daemon looks at the time again.
pub const POLL_MS: u32 = 250;

/// The highest level of the dial.
pub const MIX_MAX: u8 = 100;

// ---------------------------------------------------------------------------
// Questions, answers and deeds
// ---------------------------------------------------------------------------

/// What a daemon wants to know next.
#[derive(Debug, PartialEq, Eq)]
pub enum Question {
    /// Is the daemon to go on?
    Running,
    /// What does writing these bytes to the command node come to?
    Write(Vec<u8>),
    /// What are the sinks?
    Snapshot,
    /// What is the default sink?
    DefaultSink,
    /// What does building the sinks, routed into this one, come to?
    SetupSinks(String),
    /// Can this sink be made the default?
    RestoreDefault(String),
    /// Can the event stream be opened?
    SpawnWatch,
    /// Does anything come from a node or the event stream within [`POLL_MS`]?
    Poll,
    /// What does the event stream tell?
    Drain,
    /// Is a report pending on the node of this number?
    NodeReady(usize),
    /// What does reading a report from the node of this number come to?
    Read(usize),
    /// Nothing: the session is over. Whether to look for the device again, or why the
    /// handshake failed.
    Finished(Result<bool, String>),
}

/// The answer to a [`Question`].
pub enum Answer {
    Running(bool),
    Written(WriteOutcome),
    Snapshot(Option<SinkSnapshot>),
    DefaultSink(Option<String>),
    Setup(Result<(), String>),
    Restored(bool),
    Spawned(bool),
    Polled(bool),
    Drained(WatchEvent),
    Ready(bool),
    Report(Result<Vec<u8>, String>),
}

/// Something to do before the next question is answered.
#[derive(Debug, PartialEq, Eq)]
pub enum Deed {
    Act(Action),
    /// Wait for so many milliseconds.
    Pause(u64),
    /// Close the event stream.
    DropWatch,
}

/// A [`Question`] with its texts.
pub enum Matter {
    Running,
    Write(Seq<u8>),
    Snapshot,
    DefaultSink,
    SetupSinks(Seq<char>),
    RestoreDefault(Seq<char>),
    SpawnWatch,
    Poll,
    Drain,
    NodeReady(usize),
    Read(usize),
    Finished(Result<bool, Seq<char>>),
}

/// A [`Deed`] with its texts.
pub enum Doing {
    Act(Effect),
    Pause(u64),
    DropWatch,
}

impl View for Question {
    type V = Matter;

    open spec fn view(&self) -> Matter {
        match self {
            Question::Running => Matter::Running,
            Question::Write(b) => Matter::Write(b@),
            Question::Snapshot => Matter::Snapshot,
            Question::DefaultSink => Matter::DefaultSink,
            Question::SetupSinks(s) => Matter::SetupSinks(s@),
            Question::RestoreDefault(s) => Matter::RestoreDefault(s@),
            Question::SpawnWatch => Matter::SpawnWatch,
            Question::Poll => Matter::Poll,
            Question::Drain => Matter::Drain,
            Question::NodeReady(n) => Matter::NodeReady(*n),
            Question::Read(n) => Matter::Read(*n),
            Question::Finished(r) => Matter::Finished(err_text(*r)),
        }
    }
}

impl View for Deed {
    type V = Doing;

    open spec fn view(&self) -> Doing {
        match self {
            Deed::Act(a) => Doing::Act(a@),
            Deed::Pause(ms) => Doing::Pause(*ms),
            Deed::DropWatch => Doing::DropWatch,
        }
    }
}

/// What a list of deeds does.
pub open spec fn doings(deeds: Seq<Deed>) -> Seq<Doing> {
    deeds.map_values(|d: Deed| d@)
}

/// The effects of a session, as things to do.
pub open spec fn acts(effects: Seq<Effect>) -> Seq<Doing> {
    effects.map_values(|e: Effect| Doing::Act(e))
}

/// Something to log.
pub open spec fn logged(text: Seq<char>) -> Seq<Doing> {
    seq![Doing::Act(Effect::Log(text))]
}

// ---------------------------------------------------------------------------
// The state
// ---------------------------------------------------------------------------

/// What a health check was made for.
#[derive(Clone, Copy, PartialEq, Eq, Debug, Structural)]
pub enum Check {
    /// The start of the session.
    First,
    /// The time that has passed.
    Due,
    /// An event.
    Changed,
}

/// Where a daemon goes on once the session has all its answers.
#[derive(Clone, Copy, PartialEq, Eq, Debug, Structural)]
pub enum Resume {
    /// After a health check.
    Checked(Check),
    /// With the reports of this node.
    Reading(usize),
    /// At its end.
    Leaving { reconnect: bool },
}

/// Where a daemon stands.
#[derive(Debug)]
pub enum Phase {
    /// Writing the command of this number of the handshake.
    Init(usize),
    /// Writing the status request of this number, for the first time.
    Greet(usize),
    /// Taking a snapshot of the sinks.
    Look(Check),
    /// Answering a request of the session.
    Pending(Request, Resume),
    /// Opening the event stream.
    Spawn { first: bool },
    /// At the top of the loop.
    Top,
    /// Writing the status request of this number; `failed` if one before could not be written.
    Request { index: usize, failed: bool },
    /// Waiting for reports and events.
    Wait,
    /// Looking at the event stream.
    Drain,
    /// Looking for a report on this node.
    Ready(usize),
    /// Reading a report from this node.
    Read(usize),
    Finished(Result<bool, String>),
}

/// The daemon's course with one headset.
#[derive(Debug)]
pub struct Daemon {
    pub session: Session,
    pub writer: Writer,
    /// The event stream is open.
    pub watching: bool,
    /// How many nodes reports are read from.
    pub nodes: usize,
    /// When the last health check was made.
    pub last_health: u64,
    /// When the status was last polled.
    pub last_poll: u64,
    /// The last position of the dial among the reports being read.
    pub mix: Option<(u8, u8)>,
    pub phase: Phase,
}

/// A [`Phase`] with its texts.
pub enum Place {
    Init(usize),
    Greet(usize),
    Look(Check),
    Pending(Query, Resume),
    Spawn { first: bool },
    Top,
    Request { index: usize, failed: bool },
    Wait,
    Drain,
    Ready(usize),
    Read(usize),
    Finished(Result<bool, Seq<char>>),
}

impl View for Phase {
    type V = Place;

    open spec fn view(&self) -> Place {
        match self {
            Phase::Init(i) => Place::Init(*i),
            Phase::Greet(i) => Place::Greet(*i),
            Phase::Look(c) => Place::Look(*c),
            Phase::Pending(r, then) => Place::Pending(r@, *then),
            Phase::Spawn { first } => Place::Spawn { first: *first },
            Phase::Top => Place::Top,
            Phase::Request { index, failed } => Place::Request { index: *index, failed: *failed },
            Phase::Wait => Place::Wait,
            Phase::Drain => Place::Drain,
            Phase::Ready(n) => Place::Ready(*n),
            Phase::Read(n) => Place::Read(*n),
            Phase::Finished(r) => Place::Finished(err_text(*r)),
        }
    }
}

/// A [`Daemon`] with its texts.
pub struct Course {
    pub session: State,
    pub writer: Writer,
    pub watching: bool,
    pub nodes: usize,
    pub last_health: u64,
    pub last_poll: u64,
    pub mix: Option<(u8, u8)>,
    pub place: Place,
}

impl View for Daemon {
    type V = Course;

    open spec fn view(&self) -> Course {
        Course {
            session: self.session@,
            writer: self.writer,
            watching: self.watching,
            nodes: self.nodes,
            last_health: self.last_health,
            last_poll: self.last_poll,
            mix: self.mix,
            place: self.phase@,
        }
    }
}

/// At least `secs` seconds lie between `since` and `now`, in nanoseconds.
pub open spec fn is_due(since: u64, now: u64, secs: u64) -> bool {
    (if now > since {
        now - since
    } else {
        0
    }) >= secs * SECOND
}

/// What is logged for a device whose dial is not understood.
pub open spec fn no_chatmix_message(name: Seq<char>) -> Seq<char> {
    "note: no ChatMix protocol is documented for the "@ + name
        + "; providing sinks and status only"@
}

/// `level`, at most the highest.
pub open spec fn capped(level: u8) -> u8 {
    if level < MIX_MAX {
        level
    } else {
        MIX_MAX
    }
}

/// The position of the dial that a report gives.
pub open spec fn mix_of(fields: Map<Field, u8>) -> Option<(u8, u8)> {
    if fields.dom().contains(Field::GameMix) && fields.dom().contains(Field::ChatMix) {
        Some((capped(fields[Field::GameMix]), capped(fields[Field::ChatMix])))
    } else {
        None
    }
}

impl Course {
    pub open spec fn device(self) -> DeviceSpec {
        self.session.spec
    }

    pub open spec fn at(self, place: Place) -> Course {
        Course { place: place, ..self }
    }

    // -- The question that is open --------------------------------------------

    /// The command at hand, framed.
    pub open spec fn to_write(self, cmd: Seq<u8>) -> Matter {
        Matter::Write(framed(cmd, self.writer.unnumbered))
    }

    /// What the daemon wants to know next.
    pub open spec fn question(self) -> Matter {
        match self.place {
            Place::Init(i) => self.to_write(self.device().init@[i as int]@),
            Place::Greet(i) => self.to_write(self.device().status_requests@[i as int]@),
            Place::Look(_) => Matter::Snapshot,
            Place::Pending(query, _) => match query {
                Query::Nothing => Matter::Poll,
                Query::DefaultSink(_) => Matter::DefaultSink,
                Query::SetupSinks(sink) => Matter::SetupSinks(sink),
                Query::RestoreDefault { sink, .. } => Matter::RestoreDefault(sink),
            },
            Place::Spawn { .. } => Matter::SpawnWatch,
            Place::Top => Matter::Running,
            Place::Request { index, .. } => self.to_write(
                self.device().status_requests@[index as int]@,
            ),
            Place::Wait => Matter::Poll,
            Place::Drain => Matter::Drain,
            Place::Ready(n) => Matter::NodeReady(n),
            Place::Read(n) => Matter::Read(n),
            Place::Finished(r) => Matter::Finished(r),
        }
    }

    // -- The handshake ----------------------------------------------------------

    /// The command of this number of the handshake is next.
    pub open spec fn init_from(self, index: int) -> (Course, Seq<Doing>) {
        if index < self.device().init@.len() {
            (self.at(Place::Init(index as usize)), seq![])
        } else {
            let (course, doings) = self.greet_from(0);
            (
                course,
                if self.device().init@.len() > 0 {
                    logged("sent init sequence"@)
                } else {
                    seq![]
                } + doings,
            )
        }
    }

    /// The status request of this number is next, for the first time; after the last the
    /// sinks are looked at.
    pub open spec fn greet_from(self, index: int) -> (Course, Seq<Doing>) {
        if index < self.device().status_requests@.len() {
            (self.at(Place::Greet(index as usize)), seq![])
        } else {
            (
                self.at(Place::Look(Check::First)),
                if carries(self.device().frames@, Field::GameMix) {
                    seq![]
                } else {
                    logged(no_chatmix_message(self.device().name@))
                },
            )
        }
    }

    // -- Writing ------------------------------------------------------------------

    /// The write is to be repeated in the other framing.
    pub open spec fn write_again(self, outcome: WriteOutcome) -> bool {
        outcome is Rejected && !self.writer.retried
    }

    /// The same place with the framing changed.
    pub open spec fn switched(self, outcome: WriteOutcome) -> (Course, Seq<Doing>) {
        let writer = self.writer.after(outcome);
        (Course { writer, ..self }, logged(switch_message(writer.unnumbered)))
    }

    /// A write of the handshake is over: it goes on after a pause, or fails.
    pub open spec fn init_written(self, index: int, outcome: WriteOutcome) -> (Course, Seq<Doing>) {
        if self.write_again(outcome) {
            self.switched(outcome)
        } else {
            let course = Course { writer: self.writer.after(outcome), ..self };
            match outcome {
                WriteOutcome::Written => {
                    let (next, doings) = course.init_from(index + 1);
                    (next, seq![Doing::Pause(INIT_PAUSE_MS)] + doings)
                },
                WriteOutcome::Rejected(e) => (
                    course.at(Place::Finished(Err("init command failed: "@ + e@))),
                    seq![],
                ),
                WriteOutcome::Failed(e) => (
                    course.at(Place::Finished(Err("init command failed: "@ + e@))),
                    seq![],
                ),
            }
        }
    }

    /// A first status request is over; that it failed is of no consequence.
    pub open spec fn greet_written(self, index: int, outcome: WriteOutcome) -> (Course, Seq<Doing>) {
        if self.write_again(outcome) {
            self.switched(outcome)
        } else {
            Course { writer: self.writer.after(outcome), ..self }.greet_from(index + 1)
        }
    }

    /// A status request is over. One that failed does not keep the others from being written.
    pub open spec fn request_written(
        self,
        index: int,
        failed: bool,
        outcome: WriteOutcome,
        now: u64,
    ) -> (Course, Seq<Doing>) {
        if self.write_again(outcome) {
            self.switched(outcome)
        } else {
            Course { writer: self.writer.after(outcome), ..self }.request_from(
                index + 1,
                failed || outcome !is Written,
                now,
            )
        }
    }

    /// The status request of this number is next; after the last, a failure of any means that
    /// the device is gone.
    pub open spec fn request_from(self, index: int, failed: bool, now: u64) -> (Course, Seq<Doing>) {
        if index < self.device().status_requests@.len() {
            (self.at(Place::Request { index: index as usize, failed }), seq![])
        } else if failed {
            let (course, doings) = self.leave(true, now);
            (course, logged("device write failed, assuming disconnect"@) + doings)
        } else {
            (Course { last_poll: now, ..self }.at(Place::Wait), seq![])
        }
    }

    // -- The session ----------------------------------------------------------------

    /// The session has reacted: its request comes first, where it has one.
    pub open spec fn reacted(self, reaction: Reaction, then: Resume, now: u64) -> (
        Course,
        Seq<Doing>,
    ) {
        if reaction.query is Nothing {
            let (course, doings) = self.resume(then, now);
            (course, acts(reaction.effects) + doings)
        } else {
            (self.at(Place::Pending(reaction.query, then)), acts(reaction.effects))
        }
    }

    /// The session has all its answers.
    pub open spec fn resume(self, then: Resume, now: u64) -> (Course, Seq<Doing>) {
        match then {
            Resume::Checked(check) => (self.checked(check, now), seq![]),
            Resume::Reading(node) => (self.at(Place::Ready(node)), seq![]),
            Resume::Leaving { reconnect } => (self.at(Place::Finished(Ok(reconnect))), seq![]),
        }
    }

    /// The health check is over.
    pub open spec fn checked(self, check: Check, now: u64) -> Course {
        match check {
            Check::First => self.at(Place::Spawn { first: true }),
            Check::Due => {
                let course = Course { last_health: now, ..self };
                if self.watching {
                    course.poll_status(now)
                } else {
                    course.at(Place::Spawn { first: false })
                }
            },
            Check::Changed => Course { last_health: now, ..self }.read_nodes(),
        }
    }

    /// The session ends, by itself or because the device is gone.
    pub open spec fn leave(self, reconnect: bool, now: u64) -> (Course, Seq<Doing>) {
        let (session, reaction) = self.session.teardown();
        if reaction.query is Nothing {
            (
                Course { session, ..self }.at(Place::Finished(Ok(reconnect))),
                acts(reaction.effects),
            )
        } else {
            (
                Course { session, ..self }.at(
                    Place::Pending(reaction.query, Resume::Leaving { reconnect }),
                ),
                acts(reaction.effects),
            )
        }
    }

    /// The session's reaction to an answer it has asked for.
    pub open spec fn told(self, query: Query, answer: Answer) -> Option<(State, Reaction)> {
        match (query, answer) {
            (Query::DefaultSink(aim), Answer::DefaultSink(current)) => Some(
                self.session.default_known(aim, opt_text(current)),
            ),
            (Query::SetupSinks(target), Answer::Setup(result)) => Some(
                self.session.setup_done(target, err_text(result)),
            ),
            (Query::RestoreDefault { sink, leaving }, Answer::Restored(restored)) => Some(
                self.session.restore_done(leaving, restored),
            ),
            _ => None,
        }
    }

    // -- The loop ---------------------------------------------------------------------

    /// Seconds between two health checks.
    pub open spec fn health_secs(self) -> u64 {
        if self.watching {
            HEALTH_SECS_EVENTED
        } else {
            HEALTH_SECS
        }
    }

    /// At the top of the loop: a health check where one is due.
    pub open spec fn check_health(self, now: u64) -> Course {
        if is_due(self.last_health, now, self.health_secs()) {
            self.at(Place::Look(Check::Due))
        } else {
            self.poll_status(now)
        }
    }

    /// A status poll where the device answers and one is due.
    pub open spec fn poll_status(self, now: u64) -> Course {
        if self.device().status_requests@.len() > 0 && is_due(
            self.last_poll,
            now,
            self.device().status_poll_secs,
        ) {
            self.at(Place::Request { index: 0, failed: false })
        } else {
            self.at(Place::Wait)
        }
    }

    /// The event stream was tried.
    pub open spec fn spawned(self, first: bool, open: bool, now: u64) -> (Course, Seq<Doing>) {
        let course = Course { watching: open, ..self };
        if first {
            (
                Course { last_health: now, last_poll: now, ..course }.at(Place::Top),
                if open {
                    seq![]
                } else {
                    logged("pactl subscribe unavailable, falling back to sink polling"@)
                },
            )
        } else {
            (course.poll_status(now), seq![])
        }
    }

    /// The event stream was looked at.
    pub open spec fn drained(self, event: WatchEvent) -> (Course, Seq<Doing>) {
        match event {
            WatchEvent::Changed => (self.at(Place::Look(Check::Changed)), seq![]),
            WatchEvent::Quiet => (self.read_nodes(), seq![]),
            WatchEvent::Ended => (
                Course { watching: false, ..self }.read_nodes(),
                logged("PipeWire event stream ended, falling back to sink polling"@) + seq![
                    Doing::DropWatch,
                ],
            ),
        }
    }

    /// Every node is drained in turn.
    pub open spec fn read_nodes(self) -> Course {
        Course { mix: None, ..self }.at(Place::Ready(0))
    }

    /// Nothing is pending on this node: the next one, and after the last the dial.
    pub open spec fn node_empty(self, node: int, now: u64) -> (Course, Seq<Doing>) {
        if node + 1 < self.nodes {
            (self.at(Place::Ready((node + 1) as usize)), seq![])
        } else {
            let (course, doings) = self.apply_mix();
            (course.at(Place::Top), doings)
        }
    }

    /// The last position of the dial is applied, once for all the reports read.
    pub open spec fn apply_mix(self) -> (Course, Seq<Doing>) {
        match self.mix {
            Some((game, chat)) => {
                let (session, effects) = self.session.handle_mix(game, chat);
                (Course { session, ..self }, acts(effects))
            },
            None => (self, seq![]),
        }
    }

    /// A report was read from a node.
    pub open spec fn report_read(self, node: usize, report: Seq<u8>, now: u64) -> (
        Course,
        Seq<Doing>,
    ) {
        let fields = parsed(self.device().frames@, report);
        let mixed = Course {
            mix: match mix_of(fields) {
                Some(mix) => Some(mix),
                None => self.mix,
            },
            ..self
        };
        if fields.dom().contains(Field::Power) || fields.dom().contains(Field::Battery) {
            let (session, reaction) = self.session.apply_status(fields);
            Course { session, ..mixed }.reacted(reaction, Resume::Reading(node), now)
        } else {
            (mixed.at(Place::Ready(node)), seq![])
        }
    }

    /// A node could not be read: the device is gone.
    pub open spec fn read_failed(self, error: Seq<char>, now: u64) -> (Course, Seq<Doing>) {
        let (mixed, first) = self.apply_mix();
        let (course, rest) = mixed.leave(true, now);
        (
            course,
            logged("device read failed ("@ + error + "), assuming disconnect"@) + first + rest,
        )
    }

    // -- One step -------------------------------------------------------------------------

    /// The course after an answer. One that does not answer the open question changes nothing.
    pub open spec fn step(self, answer: Answer, now: u64) -> (Course, Seq<Doing>) {
        match (self.place, answer) {
            (Place::Init(i), Answer::Written(outcome)) => self.init_written(i as int, outcome),
            (Place::Greet(i), Answer::Written(outcome)) => self.greet_written(i as int, outcome),
            (Place::Request { index, failed }, Answer::Written(outcome)) => self.request_written(
                index as int,
                failed,
                outcome,
                now,
            ),
            (Place::Look(check), Answer::Snapshot(snap)) => {
                let (session, reaction) = self.session.ensure_sinks(opt_snapshot(snap));
                Course { session, ..self }.reacted(reaction, Resume::Checked(check), now)
            },
            (Place::Pending(query, then), answer) => match self.told(query, answer) {
                Some((session, reaction)) => Course { session, ..self }.reacted(
                    reaction,
                    then,
                    now,
                ),
                None => (self, seq![]),
            },
            (Place::Spawn { first }, Answer::Spawned(open)) => self.spawned(first, open, now),
            (Place::Top, Answer::Running(running)) => if running {
                (self.check_health(now), seq![])
            } else {
                self.leave(false, now)
            },
            (Place::Wait, Answer::Polled(ready)) => (
                if !ready {
                    self.at(Place::Top)
                } else if self.watching {
                    self.at(Place::Drain)
                } else {
                    self.read_nodes()
                },
                seq![],
            ),
            (Place::Drain, Answer::Drained(event)) => self.drained(event),
            (Place::Ready(n), Answer::Ready(ready)) => if ready {
                (self.at(Place::Read(n)), seq![])
            } else {
                self.node_empty(n as int, now)
            },
            (Place::Read(n), Answer::Report(Ok(report))) => self.report_read(n, report@, now),
            (Place::Read(n), Answer::Report(Err(e))) => self.read_failed(e@, now),
            _ => (self, seq![]),
        }
    }

    /// A daemon that has just found a device with so many nodes to read from.
    pub open spec fn start(spec: DeviceSpec, manage_default: bool, nodes: usize) -> (
        Course,
        Seq<Doing>,
    ) {
        Course {
            session: State::initial(spec, manage_default),
            writer: Writer { unnumbered: spec.unnumbered_reports, retried: false },
            watching: false,
            nodes: nodes,
            last_health: 0,
            last_poll: 0,
            mix: None,
            place: Place::Top,
        }.init_from(0)
    }

    /// The numbers in the place are those of commands that the device has.
    pub open spec fn wf(self) -> bool {
        self.nodes > 0 && match self.place {
            Place::Init(i) => i < self.device().init@.len(),
            Place::Greet(i) => i < self.device().status_requests@.len(),
            Place::Request { index, .. } => index < self.device().status_requests@.len(),
            Place::Ready(n) => n < self.nodes,
            Place::Read(n) => n < self.nodes,
            Place::Pending(query, Resume::Reading(n)) => query !is Nothing && n < self.nodes,
            Place::Pending(query, _) => query !is Nothing,
            _ => true,
        }
    }
}

// ---------------------------------------------------------------------------
// The daemon
// ---------------------------------------------------------------------------

/// No deeds.
fn no_deeds() -> (r: Vec<Deed>)
    ensures
        doings(r@) == Seq::<Doing>::empty(),
{
    let r: Vec<Deed> = Vec::new();
    assert(doings(r@) =~= Seq::<Doing>::empty());
    r
}

/// One deed.
fn one_deed(deed: Deed) -> (r: Vec<Deed>)
    ensures
        doings(r@) == seq![deed@],
{
    let r = vec![deed];
    assert(doings(r@) =~= seq![deed@]);
    r
}

/// A text to log.
fn log_deed(text: &str) -> (r: Vec<Deed>)
    ensures
        doings(r@) == logged(text@),
{
    one_deed(Deed::Act(Action::Log(text.to_owned())))
}

/// The deeds in a row.
fn joined_deeds(first: Vec<Deed>, second: Vec<Deed>) -> (r: Vec<Deed>)
    ensures
        doings(r@) == doings(first@) + doings(second@),
{
    let mut r = first;
    let mut rest = second;
    r.append(&mut rest);
    assert(doings(r@) =~= doings(first@) + doings(second@));
    r
}

/// The actions of a session, as deeds.
fn acted(actions: Vec<Action>) -> (r: Vec<Deed>)
    ensures
        doings(r@) == acts(effects(actions@)),
{
    let ghost all = actions@;
    let mut r: Vec<Deed> = Vec::new();
    assert(doings(r@) =~= acts(effects(all)).take(0));
    for action in it: actions
        invariant
            it.seq() == all,
            doings(r@) == acts(effects(all)).take(it.index()),
    {
        let ghost before = doings(r@);
        r.push(Deed::Act(action));
        assert(doings(r@) =~= before.push(Doing::Act(action@)));
        assert(doings(r@) =~= acts(effects(all)).take(it.index() + 1));
    }
    assert(doings(r@) =~= acts(effects(all)));
    r
}

/// At least `secs` seconds lie between `since` and `now`.
pub fn due(since: u64, now: u64, secs: u64) -> (r: bool)
    ensures
        r == is_due(since, now, secs),
{
    let elapsed: u64 = if now > since {
        now - since
    } else {
        0
    };
    elapsed / SECOND >= secs
}

impl Daemon {
    /// A daemon that has just found a device with so many nodes to read from, and what it does
    /// at once.
    pub fn new(spec: DeviceSpec, manage_default: bool, nodes: usize) -> (r: (Daemon, Vec<Deed>))
        requires
            nodes > 0,
        ensures
            r.0@ == Course::start(spec, manage_default, nodes).0,
            doings(r.1@) == Course::start(spec, manage_default, nodes).1,
            r.0@.wf(),
    {
        let mut daemon = Daemon {
            session: Session::new(spec, manage_default),
            writer: Writer::new(&spec),
            watching: false,
            nodes,
            last_health: 0,
            last_poll: 0,
            mix: None,
            phase: Phase::Top,
        };
        let deeds = daemon.init_from(0);
        (daemon, deeds)
    }

    /// What the daemon wants to know next.
    pub fn question(&self) -> (r: Question)
        requires
            self@.wf(),
        ensures
            r@ == self@.question(),
    {
        match &self.phase {
            Phase::Init(i) => Question::Write(self.writer.frame(self.session.spec.init[*i])),
            Phase::Greet(i) => Question::Write(
                self.writer.frame(self.session.spec.status_requests[*i]),
            ),
            Phase::Look(_) => Question::Snapshot,
            Phase::Pending(request, _) => match request {
                Request::Nothing => Question::Poll,
                Request::DefaultSink(_) => Question::DefaultSink,
                Request::SetupSinks(sink) => Question::SetupSinks(sink.clone()),
                Request::RestoreDefault { sink, leaving: _ } => Question::RestoreDefault(
                    sink.clone(),
                ),
            },
            Phase::Spawn { first: _ } => Question::SpawnWatch,
            Phase::Top => Question::Running,
            Phase::Request { index, failed: _ } => Question::Write(
                self.writer.frame(self.session.spec.status_requests[*index]),
            ),
            Phase::Wait => Question::Poll,
            Phase::Drain => Question::Drain,
            Phase::Ready(n) => Question::NodeReady(*n),
            Phase::Read(n) => Question::Read(*n),
            Phase::Finished(r) => Question::Finished(
                match r {
                    Ok(reconnect) => Ok(*reconnect),
                    Err(e) => Err(e.clone()),
                },
            ),
        }
    }

    fn init_from(&mut self, index: usize) -> (r: Vec<Deed>)
        requires
            old(self).nodes > 0,
        ensures
            final(self)@ == old(self)@.init_from(index as int).0,
            doings(r@) == old(self)@.init_from(index as int).1,
            final(self)@.wf(),
    {
        if index < self.session.spec.init.len() {
            self.phase = Phase::Init(index);
            return no_deeds();
        }
        let first = if self.session.spec.init.len() > 0 {
            log_deed("sent init sequence")
        } else {
            no_deeds()
        };
        joined_deeds(first, self.greet_from(0))
    }

    fn greet_from(&mut self, index: usize) -> (r: Vec<Deed>)
        requires
            old(self).nodes > 0,
        ensures
            final(self)@ == old(self)@.greet_from(index as int).0,
            doings(r@) == old(self)@.greet_from(index as int).1,
            final(self)@.wf(),
    {
        if index < self.session.spec.status_requests.len() {
            self.phase = Phase::Greet(index);
            return no_deeds();
        }
        self.phase = Phase::Look(Check::First);
        if self.session.spec.has_chatmix() {
            no_deeds()
        } else {
            let mut text = "note: no ChatMix protocol is documented for the ".to_owned();
            text.append(self.session.spec.name);
            text.append("; providing sinks and status only");
            log_deed(text.as_str())
        }
    }

    fn request_from(&mut self, index: usize, failed: bool, now: u64) -> (r: Vec<Deed>)
        requires
            old(self).nodes > 0,
        ensures
            final(self)@ == old(self)@.request_from(index as int, failed, now).0,
            doings(r@) == old(self)@.request_from(index as int, failed, now).1,
            final(self)@.wf(),
    {
        if index < self.session.spec.status_requests.len() {
            self.phase = Phase::Request { index, failed };
            no_deeds()
        } else if failed {
            let first = log_deed("device write failed, assuming disconnect");
            joined_deeds(first, self.leave(true, now))
        } else {
            self.last_poll = now;
            self.phase = Phase::Wait;
            no_deeds()
        }
    }

    /// Ends the session.
    fn leave(&mut self, reconnect: bool, now: u64) -> (r: Vec<Deed>)
        requires
            old(self).nodes > 0,
        ensures
            final(self)@ == old(self)@.leave(reconnect, now).0,
            doings(r@) == old(self)@.leave(reconnect, now).1,
            final(self)@.wf(),
    {
        let turn = self.session.teardown();
        self.react(turn, Resume::Leaving { reconnect }, now)
    }

    /// Goes on with what the session wants.
    fn react(&mut self, turn: Turn, then: Resume, now: u64) -> (r: Vec<Deed>)
        requires
            old(self).nodes > 0,
            then matches Resume::Reading(n) ==> n < old(self).nodes,
        ensures
            final(self)@ == old(self)@.reacted(turn@, then, now).0,
            doings(r@) == old(self)@.reacted(turn@, then, now).1,
            final(self)@.wf(),
    {
        let r = acted(turn.actions);
        match turn.request {
            Request::Nothing => {
                match then {
                    Resume::Checked(check) => self.checked(check, now),
                    Resume::Reading(node) => {
                        self.phase = Phase::Ready(node);
                    },
                    Resume::Leaving { reconnect } => {
                        self.phase = Phase::Finished(Ok(reconnect));
                    },
                }
                assert(doings(r@) + Seq::<Doing>::empty() =~= doings(r@));
            },
            request => {
                self.phase = Phase::Pending(request, then);
            },
        }
        r
    }

    fn checked(&mut self, check: Check, now: u64)
        requires
            old(self).nodes > 0,
        ensures
            final(self)@ == old(self)@.checked(check, now),
            final(self)@.wf(),
    {
        match check {
            Check::First => {
                self.phase = Phase::Spawn { first: true };
            },
            Check::Due => {
                self.last_health = now;
                if self.watching {
                    self.poll_status(now);
                } else {
                    self.phase = Phase::Spawn { first: false };
                }
            },
            Check::Changed => {
                self.last_health = now;
                self.read_nodes();
            },
        }
    }

    fn check_health(&mut self, now: u64)
        requires
            old(self).nodes > 0,
        ensures
            final(self)@ == old(self)@.check_health(now),
            final(self)@.wf(),
    {
        let secs = if self.watching {
            HEALTH_SECS_EVENTED
        } else {
            HEALTH_SECS
        };
        if due(self.last_health, now, secs) {
            self.phase = Phase::Look(Check::Due);
        } else {
            self.poll_status(now);
        }
    }

    fn poll_status(&mut self, now: u64)
        requires
            old(self).nodes > 0,
        ensures
            final(self)@ == old(self)@.poll_status(now),
            final(self)@.wf(),
    {
        if self.session.spec.has_status() && due(
            self.last_poll,
            now,
            self.session.spec.status_poll_secs,
        ) {
            self.phase = Phase::Request { index: 0, failed: false };
        } else {
            self.phase = Phase::Wait;
        }
    }

    fn read_nodes(&mut self)
        requires
            old(self).nodes > 0,
        ensures
            final(self)@ == old(self)@.read_nodes(),
            final(self)@.wf(),
    {
        self.mix = None;
        self.phase = Phase::Ready(0);
    }

    fn spawned(&mut self, first: bool, open: bool, now: u64) -> (r: Vec<Deed>)
        requires
            old(self).nodes > 0,
        ensures
            final(self)@ == old(self)@.spawned(first, open, now).0,
            doings(r@) == old(self)@.spawned(first, open, now).1,
            final(self)@.wf(),
    {
        self.watching = open;
        if first {
            self.last_health = now;
            self.last_poll = now;
            self.phase = Phase::Top;
            if open {
                no_deeds()
            } else {
                log_deed("pactl subscribe unavailable, falling back to sink polling")
            }
        } else {
            self.poll_status(now);
            no_deeds()
        }
    }

    fn drained(&mut self, event: WatchEvent) -> (r: Vec<Deed>)
        requires
            old(self).nodes > 0,
        ensures
            final(self)@ == old(self)@.drained(event).0,
            doings(r@) == old(self)@.drained(event).1,
            final(self)@.wf(),
    {
        match event {
            WatchEvent::Changed => {
                self.phase = Phase::Look(Check::Changed);
                no_deeds()
            },
            WatchEvent::Quiet => {
                self.read_nodes();
                no_deeds()
            },
            WatchEvent::Ended => {
                self.watching = false;
                self.read_nodes();
                joined_deeds(
                    log_deed("PipeWire event stream ended, falling back to sink polling"),
                    one_deed(Deed::DropWatch),
                )
            },
        }
    }

    fn apply_mix(&mut self) -> (r: Vec<Deed>)
        ensures
            final(self)@ == old(self)@.apply_mix().0,
            doings(r@) == old(self)@.apply_mix().1,
    {
        match self.mix {
            Some((game, chat)) => acted(self.session.handle_mix(game, chat)),
            None => no_deeds(),
        }
    }

    fn node_empty(&mut self, node: usize, now: u64) -> (r: Vec<Deed>)
        requires
            node < old(self).nodes,
        ensures
            final(self)@ == old(self)@.node_empty(node as int, now).0,
            doings(r@) == old(self)@.node_empty(node as int, now).1,
            final(self)@.wf(),
    {
        if node + 1 < self.nodes {
            self.phase = Phase::Ready(node + 1);
            no_deeds()
        } else {
            let r = self.apply_mix();
            self.phase = Phase::Top;
            r
        }
    }

    fn report_read(&mut self, node: usize, report: &[u8], now: u64) -> (r: Vec<Deed>)
        requires
            node < old(self).nodes,
        ensures
            final(self)@ == old(self)@.report_read(node, report@, now).0,
            doings(r@) == old(self)@.report_read(node, report@, now).1,
            final(self)@.wf(),
    {
        let fields = parse_report(&self.session.spec, report);
        if let (Some(game), Some(chat)) = (fields.get(Field::GameMix), fields.get(Field::ChatMix)) {
            self.mix = Some((cap(game), cap(chat)));
        }
        if fields.get(Field::Power).is_some() || fields.get(Field::Battery).is_some() {
            let turn = self.session.apply_status(&fields);
            self.react(turn, Resume::Reading(node), now)
        } else {
            self.phase = Phase::Ready(node);
            no_deeds()
        }
    }

    fn read_failed(&mut self, error: &str, now: u64) -> (r: Vec<Deed>)
        requires
            old(self).nodes > 0,
        ensures
            final(self)@ == old(self)@.read_failed(error@, now).0,
            doings(r@) == old(self)@.read_failed(error@, now).1,
            final(self)@.wf(),
    {
        let mut text = "device read failed (".to_owned();
        text.append(error);
        text.append("), assuming disconnect");
        let first = joined_deeds(log_deed(text.as_str()), self.apply_mix());
        joined_deeds(first, self.leave(true, now))
    }
}

impl Daemon {
    /// A write is over that is to be repeated in the other framing.
    fn switch_framing(&mut self, outcome: WriteOutcome) -> (r: Vec<Deed>)
        requires
            old(self)@.wf(),
            old(self)@.write_again(outcome),
        ensures
            final(self)@ == old(self)@.switched(outcome).0,
            doings(r@) == old(self)@.switched(outcome).1,
            final(self)@.wf(),
    {
        let _ = self.writer.write_command(outcome);
        log_deed(self.writer.switched().as_str())
    }

    /// A write is over.
    fn written(&mut self, outcome: WriteOutcome, now: u64) -> (r: Vec<Deed>)
        requires
            old(self)@.wf(),
        ensures
            final(self)@ == old(self)@.step(Answer::Written(outcome), now).0,
            doings(r@) == old(self)@.step(Answer::Written(outcome), now).1,
            final(self)@.wf(),
    {
        let writing = match &self.phase {
            Phase::Init(_) => true,
            Phase::Greet(_) => true,
            Phase::Request { index: _, failed: _ } => true,
            _ => false,
        };
        if !writing {
            return no_deeds();
        }
        let rejected = match &outcome {
            WriteOutcome::Rejected(_) => true,
            _ => false,
        };
        if rejected && !self.writer.retried {
            return self.switch_framing(outcome);
        }
        let result = self.writer.write_command(outcome);
        let init_count = self.session.spec.init.len();
        let request_count = self.session.spec.status_requests.len();
        assert(self.session.spec.init@.len() == init_count);
        assert(self.session.spec.status_requests@.len() == request_count);
        match self.phase {
            Phase::Init(index) => match result {
                WriteStep::Failed(e) => {
                    let mut text = "init command failed: ".to_owned();
                    text.append(e.as_str());
                    self.phase = Phase::Finished(Err(text));
                    no_deeds()
                },
                _ => joined_deeds(
                    one_deed(Deed::Pause(INIT_PAUSE_MS)),
                    self.init_from(index + 1),
                ),
            },
            Phase::Greet(index) => self.greet_from(index + 1),
            Phase::Request { index, failed } => {
                let failed_now = match result {
                    WriteStep::Done => false,
                    _ => true,
                };
                self.request_from(index + 1, failed || failed_now, now)
            },
            _ => no_deeds(),
        }
    }

    /// The session's request is answered, unless the answer is to something else.
    fn told(&mut self, answer: Answer, now: u64) -> (r: Vec<Deed>)
        requires
            old(self)@.wf(),
            old(self)@.place is Pending,
        ensures
            final(self)@ == old(self)@.step(answer, now).0,
            doings(r@) == old(self)@.step(answer, now).1,
            final(self)@.wf(),
    {
        let mut phase = Phase::Top;
        std::mem::swap(&mut phase, &mut self.phase);
        match phase {
            Phase::Pending(request, then) => {
                let turn = match (request, answer) {
                    (Request::DefaultSink(purpose), Answer::DefaultSink(current)) => {
                        self.session.default_known(purpose, current)
                    },
                    (Request::SetupSinks(target), Answer::Setup(result)) => {
                        self.session.setup_done(target, result)
                    },
                    (Request::RestoreDefault { sink: _, leaving }, Answer::Restored(restored)) => {
                        self.session.restore_done(leaving, restored)
                    },
                    (request, _) => {
                        self.phase = Phase::Pending(request, then);
                        return no_deeds();
                    },
                };
                self.react(turn, then, now)
            },
            other => {
                self.phase = other;
                no_deeds()
            },
        }
    }

    /// Takes the answer to the open question at the time `now`, in nanoseconds. Returns what is
    /// to be done before the next question is answered. An answer to something else changes
    /// nothing.
    pub fn step(&mut self, answer: Answer, now: u64) -> (r: Vec<Deed>)
        requires
            old(self)@.wf(),
        ensures
            final(self)@ == old(self)@.step(answer, now).0,
            doings(r@) == old(self)@.step(answer, now).1,
            final(self)@.wf(),
    {
        match &self.phase {
            Phase::Pending(_, _) => return self.told(answer, now),
            _ => {},
        }
        match answer {
            Answer::Written(outcome) => self.written(outcome, now),
            Answer::Snapshot(snap) => match self.phase {
                Phase::Look(check) => {
                    let turn = self.session.ensure_sinks(snap);
                    self.react(turn, Resume::Checked(check), now)
                },
                _ => no_deeds(),
            },
            Answer::Spawned(open) => match self.phase {
                Phase::Spawn { first } => self.spawned(first, open, now),
                _ => no_deeds(),
            },
            Answer::Running(running) => match self.phase {
                Phase::Top => {
                    if running {
                        self.check_health(now);
                        no_deeds()
                    } else {
                        self.leave(false, now)
                    }
                },
                _ => no_deeds(),
            },
            Answer::Polled(ready) => match self.phase {
                Phase::Wait => {
                    if !ready {
                        self.phase = Phase::Top;
                    } else if self.watching {
                        self.phase = Phase::Drain;
                    } else {
                        self.read_nodes();
                    }
                    no_deeds()
                },
                _ => no_deeds(),
            },
            Answer::Drained(event) => match self.phase {
                Phase::Drain => self.drained(event),
                _ => no_deeds(),
            },
            Answer::Ready(ready) => match self.phase {
                Phase::Ready(n) => {
                    if ready {
                        self.phase = Phase::Read(n);
                        no_deeds()
                    } else {
                        self.node_empty(n, now)
                    }
                },
                _ => no_deeds(),
            },
            Answer::Report(result) => match self.phase {
                Phase::Read(n) => match result {
                    Ok(report) => self.report_read(n, report.as_slice(), now),
                    Err(e) => self.read_failed(e.as_str(), now),
                },
                _ => no_deeds(),
            },
            _ => no_deeds(),
        }
    }
}

/// `level`, at most the highest.
fn cap(level: u8) -> (r: u8)
    ensures
        r == capped(level),
{
    if level < MIX_MAX {
        level
    } else {
        MIX_MAX
    }
}

} // verus!
