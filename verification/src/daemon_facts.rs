//! What a daemon does at each place of its course, in plain numbers and in terms of what the
//! device and the session are told.
use vstd::prelude::*;

use crate::audio::WatchEvent;
use crate::daemon::{acts, Answer, Check, Course, Doing, Matter, Place, Resume};
use crate::device_laws::a_listed_field_is_carried;
use crate::devices::{framed, parsed, DeviceSpec, Field};
use crate::hid::WriteOutcome;
use crate::session::{opt_snapshot, Effect, Query, State};
use crate::text::{err_text, opt_text};

verus! {

/// `level`, at most a hundred.
pub open spec fn at_most_100(level: u8) -> u8 {
    if level > 100 {
        100
    } else {
        level
    }
}

/// At least so many seconds, of a thousand million nanoseconds each, have passed.
pub open spec fn has_passed(since: u64, now: u64, secs: int) -> bool {
    secs <= 0 || now - since >= secs * 1_000_000_000
}

// ---------------------------------------------------------------------------
// Reports
// ---------------------------------------------------------------------------

/// The reports of this node are next, at once or after what the session asks for.
pub open spec fn is_reading(place: Place, node: usize) -> bool {
    ||| place == Place::Ready(node)
    ||| place matches Place::Pending(_, then) && then == Resume::Reading(node)
}

/// The dial is taken from every report that holds both its halves, whatever else the report
/// holds; a report without them leaves the position. Either way the same node is read on, at
/// once or after what the session asks for.
pub proof fn the_dial_is_taken_from_every_report(
    course: Course,
    node: usize,
    report: Vec<u8>,
    now: u64,
)
    requires
        course.place == Place::Read(node),
    ensures
        ({
            let fields = parsed(course.session.spec.frames@, report@);
            let next = course.step(Answer::Report(Ok(report)), now).0;
            &&& fields.dom().contains(Field::GameMix) && fields.dom().contains(Field::ChatMix)
                ==> next.mix == Some(
                (at_most_100(fields[Field::GameMix]), at_most_100(fields[Field::ChatMix])),
            )
            &&& !fields.dom().contains(Field::GameMix) || !fields.dom().contains(Field::ChatMix)
                ==> next.mix == course.mix
            &&& is_reading(next.place, node)
        }),
{
}

/// While the session waits for an answer the position of the dial is kept, and the node that is
/// being read is not forgotten.
pub proof fn a_pending_request_keeps_the_dial(
    course: Course,
    query: Query,
    node: usize,
    answer: Answer,
    now: u64,
)
    requires
        course.place == Place::Pending(query, Resume::Reading(node)),
    ensures
        ({
            let next = course.step(answer, now).0;
            &&& next.mix == course.mix
            &&& is_reading(next.place, node)
        }),
{
}

/// A report with a power state or a charge reaches the session, with all its values; any other
/// leaves the session alone and leads to nothing at once.
pub proof fn a_status_reaches_the_session(course: Course, node: usize, report: Vec<u8>, now: u64)
    requires
        course.place == Place::Read(node),
    ensures
        ({
            let fields = parsed(course.session.spec.frames@, report@);
            let (next, doings) = course.step(Answer::Report(Ok(report)), now);
            let (session, reaction) = course.session.apply_status(fields);
            if fields.dom().contains(Field::Power) || fields.dom().contains(Field::Battery) {
                &&& next.session == session
                &&& doings == acts(reaction.effects)
                &&& reaction.query is Nothing ==> next.place == Place::Ready(node)
                &&& reaction.query !is Nothing ==> next.place == Place::Pending(
                    reaction.query,
                    Resume::Reading(node),
                )
            } else {
                &&& next.session == course.session
                &&& doings.len() == 0
                &&& next.place == Place::Ready(node)
            }
        }),
{
    let fields = parsed(course.session.spec.frames@, report@);
    let effects = course.session.apply_status(fields).1.effects;
    assert(acts(effects) + Seq::<Doing>::empty() =~= acts(effects));
}

/// A node is read as long as a report is pending; then comes the next, and behind the last the
/// dial is applied and the loop begins anew.
pub proof fn every_node_is_drained_in_turn(course: Course, node: usize, now: u64)
    requires
        course.place == Place::Ready(node),
        node < course.nodes,
    ensures
        course.step(Answer::Ready(true), now).0 == (Course { place: Place::Read(node), ..course }),
        course.step(Answer::Ready(true), now).1.len() == 0,
        node + 1 < course.nodes ==> course.step(Answer::Ready(false), now).0 == (Course {
            place: Place::Ready((node + 1) as usize),
            ..course
        }) && course.step(Answer::Ready(false), now).1.len() == 0,
        node + 1 == course.nodes ==> course.step(Answer::Ready(false), now).0.place is Top,
        node + 1 == course.nodes && course.mix is None ==> course.step(
            Answer::Ready(false),
            now,
        ).0.session == course.session && course.step(Answer::Ready(false), now).1.len() == 0,
{
}

/// When the last node is drained, the position of the dial that was read is applied to the
/// session: its volumes are set where it is a new one and there are sinks.
pub proof fn the_position_that_was_read_is_applied(
    course: Course,
    node: usize,
    game: u8,
    chat: u8,
    now: u64,
)
    requires
        course.place == Place::Ready(node),
        node + 1 == course.nodes,
        course.mix == Some((game, chat)),
    ensures
        ({
            let (next, doings) = course.step(Answer::Ready(false), now);
            &&& next.session == State { last_mix: (game, chat), ..course.session }
            &&& course.session.sinks is Some && course.session.last_mix != (game, chat)
                ==> doings.len() > 0 && doings[0] == Doing::Act(Effect::SetMix(game, chat))
            &&& course.session.last_mix == (game, chat) ==> doings.len() == 0
        }),
{
}

/// Every pass over the nodes begins with the first and without a position of the dial.
pub proof fn a_pass_begins_at_the_first_node(course: Course, now: u64)
    ensures
        course.place is Wait && !course.watching ==> course.step(Answer::Polled(true), now).0 == (
        Course { place: Place::Ready(0), mix: None, ..course }),
        course.place is Wait && course.watching ==> course.step(Answer::Polled(true), now).0 == (
        Course { place: Place::Drain, ..course }),
        course.place is Wait ==> course.step(Answer::Polled(false), now).0 == (Course {
            place: Place::Top,
            ..course
        }),
        course.place is Drain ==> course.step(Answer::Drained(WatchEvent::Quiet), now).0 == (
        Course { place: Place::Ready(0), mix: None, ..course }),
        course.place is Drain ==> course.step(Answer::Drained(WatchEvent::Ended), now).0 == (
        Course { place: Place::Ready(0), mix: None, watching: false, ..course }),
        course.place is Drain ==> course.step(Answer::Drained(WatchEvent::Changed), now).0 == (
        Course { place: Place::Look(Check::Changed), ..course }),
{
}

// ---------------------------------------------------------------------------
// Writing
// ---------------------------------------------------------------------------

/// The course after so many successful writes.
pub open spec fn after_writes(start: Course, count: nat, now: u64) -> Course
    decreases count,
{
    if count == 0 {
        start
    } else {
        after_writes(start, (count - 1) as nat, now).step(
            Answer::Written(WriteOutcome::Written),
            now,
        ).0
    }
}

/// The commands of the handshake, and the status requests behind them.
pub open spec fn greeting(spec: DeviceSpec, k: int) -> Seq<u8> {
    if k < spec.init@.len() {
        spec.init@[k]@
    } else {
        spec.status_requests@[k - spec.init@.len()]@
    }
}

/// A device is greeted with every command of its handshake and then every status request, in
/// order, in its own framing; only then are the sinks looked at.
pub proof fn a_device_is_greeted_with_every_command(
    spec: DeviceSpec,
    manage_default: bool,
    nodes: usize,
    k: nat,
    now: u64,
)
    requires
        spec.init@.len() <= usize::MAX,
        spec.status_requests@.len() <= usize::MAX,
        k <= spec.init@.len() + spec.status_requests@.len(),
    ensures
        ({
            let course = after_writes(Course::start(spec, manage_default, nodes).0, k, now);
            &&& course.question() == if k < spec.init@.len() + spec.status_requests@.len() {
                Matter::Write(framed(greeting(spec, k as int), spec.unnumbered_reports))
            } else {
                Matter::Snapshot
            }
            &&& course.session == State::initial(spec, manage_default)
        }),
{
    lemma_greeted(spec, manage_default, nodes, k, now);
}

proof fn lemma_greeted(
    spec: DeviceSpec,
    manage_default: bool,
    nodes: usize,
    k: nat,
    now: u64,
)
    requires
        spec.init@.len() <= usize::MAX,
        spec.status_requests@.len() <= usize::MAX,
        k <= spec.init@.len() + spec.status_requests@.len(),
    ensures
        ({
            let course = after_writes(Course::start(spec, manage_default, nodes).0, k, now);
            let init = spec.init@.len();
            &&& course.session == State::initial(spec, manage_default)
            &&& course.writer.unnumbered == spec.unnumbered_reports
            &&& !course.writer.retried
            &&& course.place == if k < init {
                Place::Init(k as usize)
            } else if k < init + spec.status_requests@.len() {
                Place::Greet((k - init) as usize)
            } else {
                Place::Look(Check::First)
            }
        }),
    decreases k,
{
    if k > 0 {
        lemma_greeted(spec, manage_default, nodes, (k - 1) as nat, now);
    }
}

/// A place where a command is written.
pub open spec fn is_writing(place: Place) -> bool {
    place is Init || place is Greet || place is Request
}

/// A command whose layout is rejected for the first time is asked for once more, in the other
/// framing, which stays; nothing else changes. What comes of the second try is final.
pub proof fn a_rejected_layout_is_tried_the_other_way(
    course: Course,
    e: String,
    outcome: WriteOutcome,
    now: u64,
)
    requires
        is_writing(course.place),
        !course.writer.retried,
    ensures
        ({
            let (next, doings) = course.step(Answer::Written(WriteOutcome::Rejected(e)), now);
            let last = next.step(Answer::Written(outcome), now).0;
            &&& next.place == course.place
            &&& next.session == course.session
            &&& next.writer.unnumbered == !course.writer.unnumbered
            &&& doings.len() == 1
            &&& doings[0] matches Doing::Act(Effect::Log(_))
            &&& last.writer.unnumbered == !course.writer.unnumbered
            &&& !last.writer.retried
        }),
{
}

/// Between two commands of the handshake there is a pause of ten milliseconds.
pub proof fn the_handshake_pauses(course: Course, now: u64)
    requires
        course.place is Init,
    ensures
        ({
            let doings = course.step(Answer::Written(WriteOutcome::Written), now).1;
            doings.len() > 0 && doings[0] == Doing::Pause(10)
        }),
{
}

/// A handshake command that cannot be written ends the session with its error, before there is
/// anything to undo.
pub proof fn a_broken_handshake_gives_its_error(course: Course, e: String, now: u64)
    requires
        course.place is Init,
    ensures
        ({
            let (next, doings) = course.step(Answer::Written(WriteOutcome::Failed(e)), now);
            &&& next.place == Place::Finished(Err("init command failed: "@ + e@))
            &&& next.session == course.session
            &&& doings.len() == 0
        }),
{
}

/// The last status request of a poll dates the poll where none has failed, and ends the session
/// where one has.
pub proof fn a_poll_is_dated_when_all_is_written(
    course: Course,
    index: usize,
    failed: bool,
    now: u64,
)
    requires
        course.place == (Place::Request { index, failed }),
        index + 1 == course.session.spec.status_requests@.len(),
    ensures
        ({
            let next = course.step(Answer::Written(WriteOutcome::Written), now).0;
            &&& !failed ==> next.place is Wait && next.last_poll == now && next.session
                == course.session && next.last_health == course.last_health
            &&& failed ==> next.last_poll == course.last_poll && next.session
                == course.session.teardown().0
        }),
{
}

// ---------------------------------------------------------------------------
// Time
// ---------------------------------------------------------------------------

/// At the top of the loop the sinks are looked at when three seconds have passed since the last
/// look, or thirty with an event stream; otherwise the status is polled when the interval of the
/// device has passed; otherwise reports are waited for.
pub proof fn the_loop_keeps_its_times(course: Course, now: u64)
    requires
        course.place is Top,
    ensures
        ({
            let next = course.step(Answer::Running(true), now).0;
            let health = has_passed(
                course.last_health,
                now,
                if course.watching {
                    30
                } else {
                    3
                },
            );
            let poll = course.session.spec.status_requests@.len() > 0 && has_passed(
                course.last_poll,
                now,
                course.session.spec.status_poll_secs as int,
            );
            &&& health ==> next.place == Place::Look(Check::Due)
            &&& !health && poll ==> next.place == (Place::Request { index: 0, failed: false })
            &&& !health && !poll ==> next.place is Wait
            &&& next == Course { place: next.place, ..course }
        }),
{
}

/// A look at the sinks that the session has no questions about is dated, but for the first; it
/// is followed by an attempt to open the event stream where there is none, and, after an event,
/// by the reports.
pub proof fn a_look_at_the_sinks_is_dated(
    course: Course,
    check: Check,
    snap: Option<crate::audio::SinkSnapshot>,
    now: u64,
)
    requires
        course.place == Place::Look(check),
    ensures
        ({
            let (next, doings) = course.step(Answer::Snapshot(snap), now);
            let (session, reaction) = course.session.ensure_sinks(opt_snapshot(snap));
            &&& next.session == session
            &&& doings == acts(reaction.effects)
            &&& reaction.query !is Nothing ==> next.place == Place::Pending(
                reaction.query,
                Resume::Checked(check),
            )
            &&& reaction.query is Nothing ==> is_after_check(course, next, check, now)
        }),
{
    let effects = course.session.ensure_sinks(opt_snapshot(snap)).1.effects;
    assert(acts(effects) + Seq::<Doing>::empty() =~= acts(effects));
}

/// Where a course goes on when a look at the sinks is over.
pub open spec fn is_after_check(course: Course, next: Course, check: Check, now: u64) -> bool {
    let poll = next.session.spec.status_requests@.len() > 0 && has_passed(
        course.last_poll,
        now,
        next.session.spec.status_poll_secs as int,
    );
    match check {
        Check::First => next.place == (Place::Spawn { first: true }),
        Check::Due => next.last_health == now && if !course.watching {
            next.place == (Place::Spawn { first: false })
        } else if poll {
            next.place == (Place::Request { index: 0, failed: false })
        } else {
            next.place is Wait
        },
        Check::Changed => next.last_health == now && next.place == Place::Ready(0) && next.mix is None,
    }
}

/// After the first look the event stream is opened, and both clocks start; an attempt to open it
/// anew leaves them.
pub proof fn the_clocks_start_with_the_event_stream(course: Course, first: bool, open: bool, now: u64)
    requires
        course.place == (Place::Spawn { first }),
    ensures
        ({
            let (next, doings) = course.step(Answer::Spawned(open), now);
            &&& next.watching == open
            &&& next.session == course.session
            &&& first ==> next.place is Top && next.last_health == now && next.last_poll == now && (
            doings.len() == 0 <==> open)
            &&& !first ==> next.last_health == course.last_health && next.last_poll
                == course.last_poll && doings.len() == 0 && (next.place is Wait || next.place == (
            Place::Request { index: 0, failed: false }))
        }),
{
}

// ---------------------------------------------------------------------------
// The session's questions
// ---------------------------------------------------------------------------

/// Where a course goes on when the session has all its answers.
pub open spec fn is_resumed(course: Course, next: Course, then: Resume, now: u64) -> bool {
    match then {
        Resume::Checked(check) => is_after_check(course, next, check, now),
        Resume::Reading(node) => next.place == Place::Ready(node) && next.mix == course.mix,
        Resume::Leaving { reconnect } => next.place == Place::Finished(Ok(reconnect)),
    }
}

/// An answer that the session has asked for reaches it; what it wants done is done, and what it
/// asks for next is asked, before the daemon goes on where it was.
pub proof fn answers_reach_the_session(
    course: Course,
    query: Query,
    then: Resume,
    current: Option<String>,
    result: Result<(), String>,
    restored: bool,
    now: u64,
)
    requires
        course.place == Place::Pending(query, then),
    ensures
        ({
            let (answer, session, reaction) = match query {
                Query::DefaultSink(aim) => {
                    let (s, r) = course.session.default_known(aim, opt_text(current));
                    (Answer::DefaultSink(current), s, r)
                },
                Query::SetupSinks(target) => {
                    let (s, r) = course.session.setup_done(target, err_text(result));
                    (Answer::Setup(result), s, r)
                },
                Query::RestoreDefault { sink, leaving } => {
                    let (s, r) = course.session.restore_done(leaving, restored);
                    (Answer::Restored(restored), s, r)
                },
                Query::Nothing => (
                    Answer::Polled(true),
                    course.session,
                    (crate::session::Reaction { effects: seq![], query: Query::Nothing }),
                ),
            };
            let (next, doings) = course.step(answer, now);
            query !is Nothing ==> {
                &&& next.session == session
                &&& doings == acts(reaction.effects)
                &&& reaction.query !is Nothing ==> next.place == Place::Pending(
                    reaction.query,
                    then,
                )
                &&& reaction.query is Nothing ==> is_resumed(course, next, then, now)
            }
        }),
{
    match query {
        Query::DefaultSink(aim) => {
            let e = course.session.default_known(aim, opt_text(current)).1.effects;
            assert(acts(e) + Seq::<Doing>::empty() =~= acts(e));
        },
        Query::SetupSinks(target) => {
            let e = course.session.setup_done(target, err_text(result)).1.effects;
            assert(acts(e) + Seq::<Doing>::empty() =~= acts(e));
        },
        Query::RestoreDefault { sink, leaving } => {
            let e = course.session.restore_done(leaving, restored).1.effects;
            assert(acts(e) + Seq::<Doing>::empty() =~= acts(e));
        },
        Query::Nothing => {},
    }
}

/// The question that is open is the one that the place calls for.
pub proof fn the_question_fits_the_place(course: Course)
    ensures
        course.place matches Place::Init(i) ==> course.question() == Matter::Write(
            framed(course.session.spec.init@[i as int]@, course.writer.unnumbered),
        ),
        course.place matches Place::Greet(i) ==> course.question() == Matter::Write(
            framed(course.session.spec.status_requests@[i as int]@, course.writer.unnumbered),
        ),
        course.place matches Place::Request { index, .. } ==> course.question() == Matter::Write(
            framed(course.session.spec.status_requests@[index as int]@, course.writer.unnumbered),
        ),
        course.place is Look ==> course.question() is Snapshot,
        course.place matches Place::Pending(Query::DefaultSink(_), _) ==> course.question()
            is DefaultSink,
        course.place matches Place::Pending(Query::SetupSinks(sink), _) ==> course.question()
            == Matter::SetupSinks(sink),
        course.place matches Place::Pending(Query::RestoreDefault { sink, .. }, _)
            ==> course.question() == Matter::RestoreDefault(sink),
        course.place is Spawn ==> course.question() is SpawnWatch,
        course.place is Top ==> course.question() is Running,
        course.place is Wait ==> course.question() is Poll,
        course.place is Drain ==> course.question() is Drain,
        course.place matches Place::Ready(n) ==> course.question() == Matter::NodeReady(n),
        course.place matches Place::Read(n) ==> course.question() == Matter::Read(n),
        course.place matches Place::Finished(r) ==> course.question() == Matter::Finished(r),
{
}

/// The answer is to the question that is open at the place.
pub open spec fn is_asked(place: Place, answer: Answer) -> bool {
    match answer {
        Answer::Running(_) => place is Top,
        Answer::Written(_) => is_writing(place),
        Answer::Snapshot(_) => place is Look,
        Answer::DefaultSink(_) => place matches Place::Pending(Query::DefaultSink(_), _),
        Answer::Setup(_) => place matches Place::Pending(Query::SetupSinks(_), _),
        Answer::Restored(_) => place matches Place::Pending(Query::RestoreDefault { .. }, _),
        Answer::Spawned(_) => place is Spawn,
        Answer::Polled(_) => place is Wait,
        Answer::Drained(_) => place is Drain,
        Answer::Ready(_) => place is Ready,
        Answer::Report(_) => place is Read,
    }
}

/// An answer to something else changes nothing and leads to nothing.
pub proof fn an_unasked_answer_changes_nothing(course: Course, answer: Answer, now: u64)
    requires
        !is_asked(course.place, answer),
    ensures
        course.step(answer, now).0 == course,
        course.step(answer, now).1.len() == 0,
{
}

// ---------------------------------------------------------------------------
// The end
// ---------------------------------------------------------------------------

/// Told to stop, the daemon tears its session down and does what that takes.
pub proof fn a_stop_tears_the_session_down(course: Course, now: u64)
    requires
        course.place is Top,
    ensures
        ({
            let (next, doings) = course.step(Answer::Running(false), now);
            let (session, reaction) = course.session.teardown();
            &&& next.session == session
            &&& doings == acts(reaction.effects)
            &&& reaction.query is Nothing ==> next.place == Place::Finished(Ok(false))
            &&& reaction.query !is Nothing ==> next.place == Place::Pending(
                reaction.query,
                Resume::Leaving { reconnect: false },
            )
        }),
{
}

/// A read that fails is logged with its error; a position of the dial read before it is still
/// applied, and then the session is torn down.
pub proof fn a_failed_read_tears_the_session_down(course: Course, node: usize, e: String, now: u64)
    requires
        course.place == Place::Read(node),
    ensures
        ({
            let (next, doings) = course.step(Answer::Report(Err(e)), now);
            let mixed = match course.mix {
                Some((game, chat)) => State { last_mix: (game, chat), ..course.session },
                None => course.session,
            };
            let (session, reaction) = mixed.teardown();
            &&& next.session == session
            &&& doings.len() > 0
            &&& doings[0] == Doing::Act(
                Effect::Log("device read failed ("@ + e@ + "), assuming disconnect"@),
            )
            &&& course.mix matches Some((game, chat)) ==> (course.session.sinks is Some
                && course.session.last_mix != (game, chat) ==> doings.len() > 1 && doings[1]
                == Doing::Act(Effect::SetMix(game, chat)))
            &&& reaction.query is Nothing ==> next.place == Place::Finished(Ok(true))
            &&& reaction.query !is Nothing ==> next.place == Place::Pending(
                reaction.query,
                Resume::Leaving { reconnect: true },
            )
        }),
{
}

// ---------------------------------------------------------------------------
// What is done, and what stays
// ---------------------------------------------------------------------------

/// Everything that the session wants done is done, in order.
pub proof fn every_effect_is_carried_out(effects: Seq<Effect>)
    ensures
        acts(effects).len() == effects.len(),
        forall|i: int|
            0 <= i < effects.len() ==> #[trigger] acts(effects)[i] == Doing::Act(effects[i]),
{
}

/// Reading, and waiting for what the session asks for meanwhile, leaves the framing, the event
/// stream, the nodes and both clocks.
pub proof fn reading_leaves_the_rest(course: Course, answer: Answer, now: u64)
    requires
        course.place is Read || course.place is Ready || (course.place matches Place::Pending(
            _,
            then,
        ) && !(then is Checked)),
    ensures
        ({
            let next = course.step(answer, now).0;
            next == Course {
                session: next.session,
                mix: next.mix,
                place: next.place,
                ..course
            }
        }),
{
}

/// A look at the sinks, and what the session asks for after it, leaves the framing, the event
/// stream, the nodes and the clock of the status polls.
pub proof fn a_look_leaves_the_rest(course: Course, answer: Answer, now: u64)
    requires
        course.place is Look || (course.place matches Place::Pending(_, then) && then is Checked),
    ensures
        ({
            let next = course.step(answer, now).0;
            &&& next == Course {
                session: next.session,
                mix: next.mix,
                place: next.place,
                last_health: next.last_health,
                ..course
            }
            &&& next.last_health == course.last_health || next.last_health == now
        }),
{
}

/// Writing leaves the session, but for a poll that has failed, the event stream, the nodes and
/// the clock of the looks at the sinks.
pub proof fn writing_leaves_the_rest(course: Course, answer: Answer, now: u64)
    requires
        is_writing(course.place),
    ensures
        ({
            let next = course.step(answer, now).0;
            &&& next == Course {
                session: next.session,
                writer: next.writer,
                place: next.place,
                last_poll: next.last_poll,
                ..course
            }
            &&& course.place is Request || next.session == course.session && next.last_poll
                == course.last_poll
        }),
{
}

// ---------------------------------------------------------------------------
// Failures of writes
// ---------------------------------------------------------------------------

/// A handshake command that is rejected in both framings ends the session with its error.
pub proof fn a_handshake_rejected_twice_gives_its_error(course: Course, e: String, now: u64)
    requires
        course.place is Init,
        course.writer.retried,
    ensures
        ({
            let (next, doings) = course.step(Answer::Written(WriteOutcome::Rejected(e)), now);
            &&& next.place == Place::Finished(Err("init command failed: "@ + e@))
            &&& next.session == course.session
            &&& doings.len() == 0
        }),
{
}

/// That a first status request fails is of no consequence: the next step is the same as after
/// one that was written.
pub proof fn a_failed_greeting_is_passed_over(course: Course, e: String, now: u64)
    requires
        course.place is Greet,
    ensures
        ({
            let failed = course.step(Answer::Written(WriteOutcome::Failed(e)), now);
            let written = course.step(Answer::Written(WriteOutcome::Written), now);
            failed == written
        }),
{
}

/// A poll with a request that could not be written ends the session when its last request is
/// over: the failure is logged and the session torn down, to be begun anew.
pub proof fn a_failed_poll_tears_the_session_down(
    course: Course,
    index: usize,
    failed: bool,
    outcome: WriteOutcome,
    now: u64,
)
    requires
        course.place == (Place::Request { index, failed }),
        index + 1 == course.session.spec.status_requests@.len(),
        failed && outcome is Written || outcome is Failed || outcome is Rejected
            && course.writer.retried,
    ensures
        ({
            let (next, doings) = course.step(Answer::Written(outcome), now);
            let (session, reaction) = course.session.teardown();
            &&& next.session == session
            &&& doings == seq![
                Doing::Act(Effect::Log("device write failed, assuming disconnect"@)),
            ] + acts(reaction.effects)
            &&& reaction.query is Nothing ==> next.place == Place::Finished(Ok(true))
            &&& reaction.query !is Nothing ==> next.place == Place::Pending(
                reaction.query,
                Resume::Leaving { reconnect: true },
            )
        }),
{
}

/// A change of the framing is logged with the framing that follows.
pub proof fn a_change_of_the_framing_is_logged(course: Course, e: String, now: u64)
    requires
        is_writing(course.place),
        !course.writer.retried,
    ensures
        course.step(Answer::Written(WriteOutcome::Rejected(e)), now).1 == seq![
            Doing::Act(
                Effect::Log(
                    "hidraw rejected write, switching to "@ + (if course.writer.unnumbered {
                        "numbered"@
                    } else {
                        "unnumbered"@
                    }) + " report framing"@,
                ),
            ),
        ],
{
}

/// A device of which no report holds the dial is noted, by its name, when it has been greeted;
/// for any other nothing is said then.
pub proof fn a_device_without_a_dial_is_noted(course: Course, index: usize, now: u64)
    requires
        course.place == Place::Greet(index),
        index + 1 == course.session.spec.status_requests@.len(),
    ensures
        ({
            let frames = course.session.spec.frames@;
            let doings = course.step(Answer::Written(WriteOutcome::Written), now).1;
            if exists|i: int, k: int|
                0 <= i < frames.len() && 0 <= k < frames[i].fields@.len() && (
                #[trigger] frames[i].fields@[k]).0 == Field::GameMix {
                doings.len() == 0
            } else {
                doings == seq![
                    Doing::Act(
                        Effect::Log(
                            "note: no ChatMix protocol is documented for the "@
                                + course.session.spec.name@
                                + "; providing sinks and status only"@,
                        ),
                    ),
                ]
            }
        }),
{
    a_listed_field_is_carried(course.session.spec.frames@, Field::GameMix);
}

} // verus!
