//! What holds of every course that a daemon can take with a headset.
use vstd::prelude::*;

use crate::audio::WatchEvent;
use crate::catalog::is_nova_pro_wireless;
use crate::daemon::{
    acts, capped, is_due, logged, mix_of, Answer, Check, Course, Doing, Place, Resume, HEALTH_SECS,
    HEALTH_SECS_EVENTED, INIT_PAUSE_MS,
};
use crate::devices::{extracted, frame_for, parsed, DeviceSpec, Field};
use crate::hid::WriteOutcome;
use crate::session::{opt_snapshot, Aim, Effect, Query, Reaction, State};

verus! {

/// The course after all of `answers`, each with its time, and what was done at the last.
pub open spec fn after(start: (Course, Seq<Doing>), answers: Seq<(Answer, u64)>) -> (
    Course,
    Seq<Doing>,
)
    decreases answers.len(),
{
    if answers.len() == 0 {
        start
    } else {
        after(start, answers.drop_last()).0.step(answers.last().0, answers.last().1)
    }
}

/// The session is ending, or over, with this outcome.
pub open spec fn leaves_with(course: Course, reconnect: bool) -> bool {
    ||| course.place == Place::Finished(Ok(reconnect))
    ||| course.place matches Place::Pending(_, Resume::Leaving { reconnect: r }) && r == reconnect
}

/// What is asked for fits what comes after it, and a finished session has no sinks.
pub open spec fn is_sound(course: Course) -> bool {
    match course.place {
        Place::Pending(query, then) => match then {
            Resume::Checked(_) => match query {
                Query::DefaultSink(aim) => aim is Remember,
                Query::SetupSinks(_) => true,
                _ => false,
            },
            Resume::Reading(_) => match query {
                Query::DefaultSink(aim) => aim is Claim || aim == (Aim::Release {
                    leaving: false,
                }),
                Query::RestoreDefault { leaving, .. } => !leaving,
                _ => false,
            },
            Resume::Leaving { .. } => match query {
                Query::DefaultSink(aim) => aim == (Aim::Release { leaving: true }),
                Query::RestoreDefault { leaving, .. } => leaving,
                _ => false,
            },
        },
        Place::Finished(Ok(_)) => course.session.sinks is None,
        _ => true,
    }
}

proof fn lemma_reading_is_sound(course: Course, fields: Map<Field, u8>)
    ensures
        ({
            let query = course.session.apply_status(fields).1.query;
            ||| query is Nothing
            ||| query matches Query::DefaultSink(Aim::Claim { .. })
            ||| query == Query::DefaultSink(Aim::Release { leaving: false })
        }),
{
    reveal(State::apply_status);
}

proof fn lemma_step_is_sound(course: Course, answer: Answer, now: u64)
    requires
        is_sound(course),
    ensures
        is_sound(course.step(answer, now).0),
{
    let next = course.step(answer, now).0;
    if let (Place::Read(n), Answer::Report(Ok(report))) = (course.place, answer) {
        lemma_reading_is_sound(course, parsed(course.device().frames@, report@));
    }
    match course.place {
        Place::Init(_) => assert(is_sound(next)),
        Place::Greet(_) => assert(is_sound(next)),
        Place::Request { .. } => assert(is_sound(next)),
        Place::Look(_) => assert(is_sound(next)),
        Place::Pending(Query::DefaultSink(_), _) => assert(is_sound(next)),
        Place::Pending(Query::SetupSinks(_), _) => assert(is_sound(next)),
        Place::Pending(Query::RestoreDefault { .. }, _) => assert(is_sound(next)),
        Place::Top => assert(is_sound(next)),
        Place::Read(_) => assert(is_sound(next)),
        _ => assert(is_sound(next)),
    }
}

/// When a session is over, for whatever reason, its sinks are gone, whatever the answers
/// were.
pub proof fn a_finished_daemon_has_no_sinks(
    spec: DeviceSpec,
    manage_default: bool,
    nodes: usize,
    answers: Seq<(Answer, u64)>,
)
    ensures
        ({
            let course = after(Course::start(spec, manage_default, nodes), answers).0;
            &&& is_sound(course)
            &&& course.place matches Place::Finished(Ok(_)) ==> course.session.sinks is None
        }),
    decreases answers.len(),
{
    if answers.len() > 0 {
        a_finished_daemon_has_no_sinks(spec, manage_default, nodes, answers.drop_last());
        let course = after(Course::start(spec, manage_default, nodes), answers.drop_last()).0;
        lemma_step_is_sound(course, answers.last().0, answers.last().1);
    }
}

/// A daemon ends for good only when it is told to stop.
pub proof fn a_daemon_stops_only_when_told(course: Course, answer: Answer, now: u64)
    requires
        !leaves_with(course, false),
        leaves_with(course.step(answer, now).0, false),
    ensures
        course.place is Top,
        answer == Answer::Running(false),
{
    if let (Place::Read(n), Answer::Report(Ok(report))) = (course.place, answer) {
        lemma_reading_is_sound(course, parsed(course.device().frames@, report@));
    }
    match course.place {
        Place::Init(_) => assert(course.place is Top),
        Place::Greet(_) => assert(course.place is Top),
        Place::Request { .. } => assert(course.place is Top),
        Place::Look(_) => assert(course.place is Top),
        Place::Pending(Query::DefaultSink(_), _) => assert(course.place is Top),
        Place::Pending(Query::SetupSinks(_), _) => assert(course.place is Top),
        Place::Pending(Query::RestoreDefault { .. }, _) => assert(course.place is Top),
        Place::Top => assert(course.place is Top),
        Place::Read(_) => assert(course.place is Top),
        _ => assert(course.place is Top),
    }
}

/// A daemon that is told to stop ends for good.
pub proof fn a_daemon_told_to_stop_leaves(course: Course, now: u64)
    requires
        course.place is Top,
    ensures
        leaves_with(course.step(Answer::Running(false), now).0, false),
{
}

/// The device counts as gone, to be looked for again, only when a status request could not be
/// written or a report could not be read.
pub proof fn a_daemon_reconnects_only_after_a_failure(course: Course, answer: Answer, now: u64)
    requires
        !leaves_with(course, true),
        leaves_with(course.step(answer, now).0, true),
    ensures
        ({
            ||| course.place is Read && answer matches Answer::Report(Err(_))
            ||| course.place matches Place::Request { failed, .. } && answer matches Answer::Written(
                outcome,
            ) && (failed || outcome !is Written)
        }),
{
    if let (Place::Read(n), Answer::Report(Ok(report))) = (course.place, answer) {
        lemma_reading_is_sound(course, parsed(course.device().frames@, report@));
    }
}

/// A read that fails ends the session, and the device is looked for again.
pub proof fn a_failed_read_means_reconnect(course: Course, e: String, now: u64)
    requires
        course.place is Read,
    ensures
        leaves_with(course.step(Answer::Report(Err(e)), now).0, true),
{
}

/// A handshake command that cannot be written, in either framing, ends the session at once;
/// a rejected layout is tried in the other framing first.
pub proof fn a_failed_handshake_ends_the_session(course: Course, outcome: WriteOutcome, now: u64)
    requires
        course.place is Init,
    ensures
        course.step(Answer::Written(outcome), now).0.place is Finished <==> outcome !is Written && !(
        outcome is Rejected && !course.writer.retried),
{
}

/// A status request that fails does not keep the next one from being written, and is
/// remembered until all are.
pub proof fn every_status_request_is_written(
    course: Course,
    index: usize,
    failed: bool,
    outcome: WriteOutcome,
    now: u64,
)
    requires
        course.place == (Place::Request { index, failed }),
        index + 1 < course.device().status_requests@.len(),
        outcome is Written || outcome is Failed || course.writer.retried,
    ensures
        course.step(Answer::Written(outcome), now).0.place == (Place::Request {
            index: (index + 1) as usize,
            failed: failed || outcome !is Written,
        }),
{
}

/// The status is polled only when its time has come, and when it has, at the next
/// opportunity.
pub proof fn status_is_polled_on_time(course: Course, now: u64)
    ensures
        course.poll_status(now).place is Request <==> course.device().status_requests@.len() > 0
            && is_due(course.last_poll, now, course.device().status_poll_secs),
        course.poll_status(now).place is Request || course.poll_status(now).place is Wait,
{
}

/// A running daemon looks at the sinks when its time has come: often without an event
/// stream, seldom with one.
pub proof fn health_is_checked_on_time(course: Course, now: u64)
    requires
        course.place is Top,
    ensures
        course.step(Answer::Running(true), now).0.place is Look <==> is_due(
            course.last_health,
            now,
            if course.watching {
                HEALTH_SECS_EVENTED
            } else {
                HEALTH_SECS
            },
        ),
{
}

/// An event stream that ends is closed; the next health check that is due tries to open it
/// again.
pub proof fn a_lost_event_stream_is_reopened(course: Course, now: u64)
    requires
        course.place is Drain,
    ensures
        ({
            let (next, doings) = course.step(Answer::Drained(WatchEvent::Ended), now);
            &&& !next.watching
            &&& doings.len() == 2
            &&& doings[1] == Doing::DropWatch
            &&& next.checked(Check::Due, now).place == (Place::Spawn { first: false })
        }),
{
}

/// A report of the dial alone changes no volume yet; of several in a row only the last
/// counts.
pub proof fn a_dial_spin_comes_to_one_change(
    course: Course,
    node: usize,
    first: Seq<u8>,
    second: Seq<u8>,
    now: u64,
)
    requires
        ({
            let a = parsed(course.device().frames@, first);
            let b = parsed(course.device().frames@, second);
            &&& mix_of(a) is Some
            &&& mix_of(b) is Some
            &&& !a.dom().contains(Field::Power) && !a.dom().contains(Field::Battery)
            &&& !b.dom().contains(Field::Power) && !b.dom().contains(Field::Battery)
        }),
    ensures
        ({
            let (one, nothing) = course.report_read(node, first, now);
            let (two, still_nothing) = one.report_read(node, second, now);
            &&& nothing == Seq::<Doing>::empty()
            &&& still_nothing == Seq::<Doing>::empty()
            &&& two == course.report_read(node, second, now).0
            &&& two.mix == mix_of(parsed(course.device().frames@, second))
        }),
{
}

/// A turn of the wheel of a Nova Pro Wireless, `07 45 <game> <chat>`, gives the position of the
/// dial, each half at most 100, and nothing else.
pub proof fn a_turn_of_the_wheel_gives_the_mix(spec: DeviceSpec, report: Seq<u8>)
    requires
        is_nova_pro_wireless(spec),
        report.len() >= 4,
        report[0] == 0x07,
        report[1] == 0x45,
    ensures
        mix_of(parsed(spec.frames@, report)) == Some((capped(report[2]), capped(report[3]))),
        parsed(spec.frames@, report).dom() == set![Field::GameMix, Field::ChatMix],
{
    let fields = spec.frames@[0].fields@;
    assert(report.subrange(0, 2) =~= spec.frames@[0].prefix@);
    assert(frame_for(spec.frames@, report) == Some(spec.frames@[0]));
    assert(fields.drop_last().drop_last() =~= seq![]);
    reveal_with_fuel(extracted, 3);
    assert(parsed(spec.frames@, report).dom() =~= set![Field::GameMix, Field::ChatMix]);
}

/// When all nodes are drained, the last position of the dial is applied, once.
pub proof fn the_last_dial_position_is_applied(course: Course, node: usize, now: u64)
    requires
        course.place == Place::Ready(node),
        node + 1 == course.nodes,
        course.mix is Some,
    ensures
        ({
            let (game, chat) = course.mix->0;
            let (next, doings) = course.step(Answer::Ready(false), now);
            &&& next.session == course.session.handle_mix(game, chat).0
            &&& doings == acts(course.session.handle_mix(game, chat).1)
            &&& course.session.sinks is Some && course.session.last_mix != (game, chat)
                ==> doings.len() > 0 && doings[0] == Doing::Act(Effect::SetMix(game, chat))
            &&& next.place is Top
        }),
{
}

// ---------------------------------------------------------------------------
// The default sink
// ---------------------------------------------------------------------------

/// Something is done that changes the default sink.
pub open spec fn sets_default(doings: Seq<Doing>) -> bool {
    exists|i: int|
        0 <= i < doings.len() && #[trigger] doings[i] matches Doing::Act(Effect::SetDefaultSink(_))
}

/// The daemon asks for a change of the default sink, or looks at it to change it.
pub open spec fn is_releasing(course: Course) -> bool {
    course.place matches Place::Pending(query, _) && (query is RestoreDefault
        || query matches Query::DefaultSink(Aim::Release { .. })
        || query matches Query::DefaultSink(Aim::Claim { .. }))
}

proof fn lemma_sets_default(effects: Seq<Effect>, rest: Seq<Doing>)
    requires
        forall|i: int| 0 <= i < effects.len() ==> !(#[trigger] effects[i] is SetDefaultSink),
        !sets_default(rest),
    ensures
        !sets_default(acts(effects) + rest),
{
    let all = acts(effects) + rest;
    assert forall|i: int| 0 <= i < all.len() implies !(#[trigger] all[i] matches Doing::Act(
        Effect::SetDefaultSink(_),
    )) by {
        if i < effects.len() {
            assert(all[i] == Doing::Act(effects[i]));
        } else {
            assert(all[i] == rest[i - effects.len()]);
        }
    }
}

/// The effects leave the default sink alone.
spec fn leaves_default(effects: Seq<Effect>) -> bool {
    forall|i: int| 0 <= i < effects.len() ==> !(#[trigger] effects[i] is SetDefaultSink)
}

proof fn lemma_unmanaged_reacted(
    course: Course,
    reaction: Reaction,
    then: Resume,
    now: u64,
)
    requires
        leaves_default(reaction.effects),
        !(reaction.query is RestoreDefault),
        !(reaction.query matches Query::DefaultSink(Aim::Release { .. })),
        !(reaction.query matches Query::DefaultSink(Aim::Claim { .. })),
    ensures
        !sets_default(course.reacted(reaction, then, now).1),
        !is_releasing(course.reacted(reaction, then, now).0),
{
    lemma_sets_default(reaction.effects, seq![]);
    assert(acts(reaction.effects) + Seq::<Doing>::empty() =~= acts(reaction.effects));
}

proof fn lemma_unmanaged_leave(course: Course, now: u64, reconnect: bool)
    requires
        !course.session.manage_default,
    ensures
        !sets_default(course.leave(reconnect, now).1),
        !is_releasing(course.leave(reconnect, now).0),
        !course.leave(reconnect, now).0.session.manage_default,
{
    lemma_sets_default(course.session.teardown().1.effects, seq![]);
    assert(acts(course.session.teardown().1.effects) + Seq::<Doing>::empty() =~= acts(
        course.session.teardown().1.effects,
    ));
}

proof fn lemma_joined(first: Seq<Doing>, second: Seq<Doing>)
    requires
        !sets_default(first),
        !sets_default(second),
    ensures
        !sets_default(first + second),
{
    let all = first + second;
    assert forall|i: int| 0 <= i < all.len() implies !(#[trigger] all[i] matches Doing::Act(
        Effect::SetDefaultSink(_),
    )) by {
        if i < first.len() {
            assert(all[i] == first[i]);
        } else {
            assert(all[i] == second[i - first.len()]);
        }
    }
}

proof fn lemma_unmanaged_mix(course: Course)
    requires
        !course.session.manage_default,
    ensures
        !sets_default(course.apply_mix().1),
        !course.apply_mix().0.session.manage_default,
{
    if let Some((game, chat)) = course.mix {
        let effects = course.session.handle_mix(game, chat).1;
        lemma_sets_default(effects, seq![]);
        assert(acts(effects) + Seq::<Doing>::empty() =~= acts(effects));
    }
}

proof fn lemma_unmanaged_init(course: Course, index: int)
    requires
        !course.session.manage_default,
    ensures
        !sets_default(course.init_from(index).1),
        !is_releasing(course.init_from(index).0),
        !course.init_from(index).0.session.manage_default,
{
}

/// The default sink is not to be managed, and nothing is done or asked for to change it.
spec fn is_aloof(after: (Course, Seq<Doing>)) -> bool {
    !after.0.session.manage_default && !is_releasing(after.0) && !sets_default(after.1)
}

proof fn lemma_unmanaged_report(course: Course, node: usize, report: Seq<u8>, now: u64)
    requires
        !course.session.manage_default,
    ensures
        is_aloof(course.report_read(node, report, now)),
{
    reveal(State::apply_status);
    let fields = parsed(course.device().frames@, report);
    let (session, reaction) = course.session.apply_status(fields);
    let mix = match mix_of(fields) {
        Some(mix) => Some(mix),
        None => course.mix,
    };
    lemma_unmanaged_reacted(
        Course { session, mix, ..course },
        reaction,
        Resume::Reading(node),
        now,
    );
}

proof fn lemma_unmanaged_failure(course: Course, error: Seq<char>, now: u64)
    requires
        !course.session.manage_default,
    ensures
        is_aloof(course.read_failed(error, now)),
{
    lemma_unmanaged_mix(course);
    let (mixed, doings) = course.apply_mix();
    lemma_unmanaged_leave(mixed, now, true);
    let text = "device read failed ("@ + error + "), assuming disconnect"@;
    lemma_joined(logged(text), doings);
    lemma_joined(logged(text) + doings, mixed.leave(true, now).1);
}

proof fn lemma_unmanaged_step(course: Course, answer: Answer, now: u64)
    requires
        !course.session.manage_default,
        !is_releasing(course),
    ensures
        is_aloof(course.step(answer, now)),
{
    let after = course.step(answer, now);
    match (course.place, answer) {
        (Place::Init(i), Answer::Written(outcome)) => {
            let next = Course { writer: course.writer.after(outcome), ..course };
            lemma_unmanaged_init(next, i + 1);
            lemma_joined(seq![Doing::Pause(INIT_PAUSE_MS)], next.init_from(i + 1).1);
            assert(is_aloof(after));
        },
        (Place::Request { index, failed }, Answer::Written(outcome)) => {
            let next = Course { writer: course.writer.after(outcome), ..course };
            lemma_unmanaged_leave(next, now, true);
            lemma_joined(
                logged("device write failed, assuming disconnect"@),
                next.leave(true, now).1,
            );
            assert(is_aloof(after));
        },
        (Place::Look(check), Answer::Snapshot(snap)) => {
            let (session, reaction) = course.session.ensure_sinks(opt_snapshot(snap));
            lemma_unmanaged_reacted(
                Course { session, ..course },
                reaction,
                Resume::Checked(check),
                now,
            );
            assert(is_aloof(after));
        },
        (Place::Pending(query, then), answer) => {
            if let Some((session, reaction)) = course.told(query, answer) {
                lemma_unmanaged_reacted(Course { session, ..course }, reaction, then, now);
            }
            assert(is_aloof(after));
        },
        (Place::Top, Answer::Running(running)) => {
            lemma_unmanaged_leave(course, now, false);
            assert(is_aloof(after));
        },
        (Place::Ready(n), Answer::Ready(ready)) => {
            lemma_unmanaged_mix(course);
            assert(is_aloof(after));
        },
        (Place::Read(n), Answer::Report(Ok(report))) => {
            lemma_unmanaged_report(course, n, report@, now);
            assert(is_aloof(after));
        },
        (Place::Read(n), Answer::Report(Err(e))) => {
            lemma_unmanaged_failure(course, e@, now);
            assert(is_aloof(after));
        },
        _ => assert(is_aloof(after)),
    }
}

/// A daemon that is not to manage the default sink never changes it nor asks for a change,
/// whatever the answers are.
pub proof fn an_unmanaged_daemon_leaves_the_default_alone(
    spec: DeviceSpec,
    nodes: usize,
    answers: Seq<(Answer, u64)>,
)
    ensures
        ({
            let (course, doings) = after(Course::start(spec, false, nodes), answers);
            &&& !course.session.manage_default
            &&& !is_releasing(course)
            &&& !sets_default(doings)
        }),
    decreases answers.len(),
{
    if answers.len() > 0 {
        an_unmanaged_daemon_leaves_the_default_alone(spec, nodes, answers.drop_last());
        let course = after(Course::start(spec, false, nodes), answers.drop_last()).0;
        lemma_unmanaged_step(course, answers.last().0, answers.last().1);
    }
}

} // verus!
