//! What a session makes of a report, a snapshot and a position of the dial, in plain numbers and
//! names.
use vstd::prelude::*;

use crate::audio::Snapshot;
use crate::device_laws::the_charge_is_rounded_down;
use crate::devices::{DeviceSpec, Field};
use crate::labels::described;
use crate::session::{is_ours, Aim, Effect, Query, Reaction, State};
use crate::session_laws::{
    claims, fits, notifies, removes_sinks, step, touches_default, Input,
};
use crate::text::{decimal, hex};

verus! {

// ---------------------------------------------------------------------------
// Every effect tells the truth
// ---------------------------------------------------------------------------

/// Each notification carries the charge of the state.
pub open spec fn notifies_truly(next: (State, Reaction)) -> bool {
    forall|i: int|
        0 <= i < next.1.effects.len() ==> (#[trigger] next.1.effects[i] matches
            Effect::NotifyLowBattery(pct) ==> next.0.battery_pct == Some(pct))
}

/// Every low-battery notification says the charge that is left.
pub proof fn a_notification_tells_the_charge(state: State, pending: Query, input: Input)
    requires
        fits(pending, input),
    ensures
        notifies_truly(step(state, pending, input)),
{
    let next = step(state, pending, input);
    match input {
        Input::EnsureSinks(_) => assert(notifies_truly(next)),
        Input::Mix(_, _) => assert(notifies_truly(next)),
        Input::Status(_) => assert(notifies_truly(next)) by {
            reveal(State::apply_status);
        },
        Input::Teardown => assert(notifies_truly(next)),
        Input::DefaultKnown(_) => assert(notifies_truly(next)),
        Input::SetupDone(_) => assert(notifies_truly(next)),
        Input::RestoreDone(_) => assert(notifies_truly(next)),
    }
}

/// Each change of the volumes is to the last position of the dial.
pub open spec fn mixes_truly(next: (State, Reaction)) -> bool {
    forall|i: int|
        0 <= i < next.1.effects.len() ==> (#[trigger] next.1.effects[i] matches Effect::SetMix(
            game,
            chat,
        ) ==> next.0.last_mix == (game, chat))
}

/// Whenever the volumes are set, it is to the last position of the dial, and no input but the
/// dial changes that.
pub proof fn volumes_follow_the_dial(state: State, pending: Query, input: Input)
    requires
        fits(pending, input),
    ensures
        mixes_truly(step(state, pending, input)),
        input matches Input::Mix(game, chat) ==> step(state, pending, input).0.last_mix == (
            game,
            chat,
        ),
        !(input is Mix) ==> step(state, pending, input).0.last_mix == state.last_mix,
{
    let next = step(state, pending, input);
    let goal = mixes_truly(next) && (input matches Input::Mix(game, chat) ==> next.0.last_mix == (
        game,
        chat,
    )) && (!(input is Mix) ==> next.0.last_mix == state.last_mix);
    match input {
        Input::EnsureSinks(_) => assert(goal),
        Input::Mix(_, _) => assert(goal),
        Input::Status(_) => assert(goal) by {
            reveal(State::apply_status);
        },
        Input::Teardown => assert(goal),
        Input::DefaultKnown(_) => assert(goal),
        Input::SetupDone(_) => assert(goal),
        Input::RestoreDone(_) => assert(goal),
    }
}

/// Each sink that is made the default is the one for games, or the real one.
pub open spec fn claims_truly(state: State, next: (State, Reaction)) -> bool {
    forall|i: int|
        0 <= i < next.1.effects.len() ==> (#[trigger] next.1.effects[i] matches
            Effect::SetDefaultSink(sink) ==> sink == "Arctis Game"@ || state.sinks == Some(sink))
}

/// Nothing becomes the default sink but "Arctis Game", the real sink where it stands in for a
/// lost default, and the sink that was remembered.
pub proof fn only_known_sinks_become_the_default(state: State, pending: Query, input: Input)
    requires
        fits(pending, input),
    ensures
        claims_truly(state, step(state, pending, input)),
        step(state, pending, input).1.query matches Query::RestoreDefault { sink, .. }
            ==> state.prev_default == Some(sink),
{
    let next = step(state, pending, input);
    let goal = claims_truly(state, next) && (next.1.query matches Query::RestoreDefault { sink, .. }
        ==> state.prev_default == Some(sink));
    match input {
        Input::EnsureSinks(_) => assert(goal),
        Input::Mix(_, _) => assert(goal),
        Input::Status(_) => assert(goal) by {
            reveal(State::apply_status);
        },
        Input::Teardown => assert(goal),
        Input::DefaultKnown(_) => assert(goal),
        Input::SetupDone(_) => assert(goal),
        Input::RestoreDone(_) => assert(goal),
    }
}

/// The sinks of ours that a default may be are "Arctis Game" and "Arctis Chat".
pub proof fn our_sinks_have_these_names(sink: Seq<char>)
    ensures
        is_ours(sink) <==> sink == "Arctis Game"@ || sink == "Arctis Chat"@,
{
}

// ---------------------------------------------------------------------------
// Reports
// ---------------------------------------------------------------------------

/// `pct` is the share of `max` that `raw` is, in percent rounded down, at most a hundred; none
/// where there is no battery.
pub open spec fn is_charge(pct: u32, raw: u8, max: u8) -> bool {
    if max == 0 {
        pct == 0
    } else if raw >= max {
        pct == 100
    } else {
        pct * max <= raw * 100 < (pct + 1) * max
    }
}

proof fn lemma_charge(state: State, fields: Map<Field, u8>)
    requires
        fields.dom().contains(Field::Battery),
    ensures
        state.with_battery(fields).battery_pct matches Some(pct) && is_charge(
            pct,
            fields[Field::Battery],
            state.spec.battery_max,
        ),
{
    let raw = fields[Field::Battery] as int;
    let max = state.spec.battery_max as int;
    the_charge_is_rounded_down(raw, max);
    crate::devices::the_charge_is_a_percentage(raw, raw, max);
}

/// A report gives the session the charge and the power state that it carries, and leaves what it
/// does not carry. Neither the sinks nor what is remembered change.
pub proof fn a_report_gives_charge_and_power(state: State, fields: Map<Field, u8>)
    ensures
        ({
            let next = state.apply_status(fields).0;
            &&& fields.dom().contains(Field::Battery) ==> (next.battery_pct matches Some(pct)
                && is_charge(pct, fields[Field::Battery], state.spec.battery_max))
            &&& !fields.dom().contains(Field::Battery) ==> next.battery_pct == state.battery_pct
            &&& fields.dom().contains(Field::Power) ==> next.online == Some(
                exists|i: int|
                    0 <= i < state.spec.power_online@.len() && #[trigger] state.spec.power_online@[i]
                        == fields[Field::Power],
            )
            &&& !fields.dom().contains(Field::Power) ==> next.online == state.online
            &&& next.sinks == state.sinks
            &&& next.prev_default == state.prev_default
            &&& next.manage_default == state.manage_default
            &&& next.spec == state.spec
        }),
{
    if fields.dom().contains(Field::Battery) {
        lemma_charge(state, fields);
    }
    reveal(State::apply_status);
}

/// A report that brings no news of the power leads to no claim and no release, and sets no
/// volumes.
pub proof fn an_unchanged_power_state_does_nothing(state: State, fields: Map<Field, u8>)
    requires
        fields.dom().contains(Field::Power) ==> state.online == Some(
            state.spec.power_online@.contains(fields[Field::Power]),
        ),
    ensures
        ({
            let reaction = state.apply_status(fields).1;
            &&& reaction.query is Nothing
            &&& forall|i: int|
                0 <= i < reaction.effects.len() ==> #[trigger] reaction.effects[i] is Log
                    || reaction.effects[i] is NotifyLowBattery
            &&& reaction.effects.len() > 0 <==> notifies(reaction)
        }),
{
    reveal(State::apply_status);
    let reaction = state.apply_status(fields).1;
    if reaction.effects.len() > 0 {
        assert(reaction.effects[1] is NotifyLowBattery);
    }
}

/// A first report that finds the headset on asks for nothing.
pub proof fn a_headset_found_on_is_left_alone(state: State, fields: Map<Field, u8>)
    requires
        state.online is None,
        fields.dom().contains(Field::Power),
        state.spec.power_online@.contains(fields[Field::Power]),
    ensures
        state.apply_status(fields).1.query is Nothing,
        !touches_default(state.apply_status(fields).1),
{
    reveal(State::apply_status);
}

// ---------------------------------------------------------------------------
// The warning, in raw values
// ---------------------------------------------------------------------------

/// The outcome of a report, with the answer to the look at the default sink where it asks for
/// one.
pub open spec fn outcome(
    state: State,
    fields: Map<Field, u8>,
    current: Option<Seq<char>>,
) -> (State, bool) {
    let (next, reaction) = state.apply_status(fields);
    if claims(reaction) {
        let (last, more) = next.default_known(reaction.query->DefaultSink_0, current);
        (last, notifies(reaction) || notifies(more))
    } else {
        (next, notifies(reaction))
    }
}

/// The headset is not off, as far as the report and the state before it tell.
pub open spec fn may_be_on(state: State, fields: Map<Field, u8>) -> bool {
    if fields.dom().contains(Field::Power) {
        state.spec.power_online@.contains(fields[Field::Power])
    } else {
        state.online != Some(false)
    }
}

proof fn lemma_bounds(pct: u32, raw: u8, max: u8)
    requires
        is_charge(pct, raw, max),
        0 < max,
    ensures
        pct <= 25 <==> raw * 100 < 26 * max,
        pct >= 50 <==> raw * 100 >= 50 * max,
{
    if raw < max {
        let (p, r, m) = (pct as int, raw as int, max as int);
        assert((p <= 25 <==> r * 100 < 26 * m) && (p >= 50 <==> r * 100 >= 50 * m))
            by (nonlinear_arith)
            requires
                p * m <= r * 100 < (p + 1) * m,
                m > 0,
                p >= 0,
        ;
    }
}

/// A report is warned of exactly where the charge that it gives is at most 25 percent, the
/// headset is not off, and no warning stands; the warning then stands.
pub proof fn a_quarter_left_is_warned_of(
    state: State,
    fields: Map<Field, u8>,
    current: Option<Seq<char>>,
)
    requires
        fields.dom().contains(Field::Battery),
        state.spec.battery_max > 0,
    ensures
        ({
            let (next, notified) = outcome(state, fields, current);
            let low = fields[Field::Battery] * 100 < 26 * state.spec.battery_max;
            &&& notified <==> low && may_be_on(state, fields) && !state.battery_warned
            &&& notified ==> next.battery_warned
        }),
{
    lemma_charge(state, fields);
    let pct = state.with_battery(fields).battery_pct->0;
    lemma_bounds(pct, fields[Field::Battery], state.spec.battery_max);
    reveal(State::apply_status);
    let (next, reaction) = state.apply_status(fields);
    if pct <= 25 && may_be_on(state, fields) && !state.battery_warned {
        if claims(reaction) {
            let more = next.default_known(reaction.query->DefaultSink_0, current).1;
            assert(more.effects[more.effects.len() - 1] is NotifyLowBattery);
        } else {
            assert(reaction.effects[reaction.effects.len() - 1] is NotifyLowBattery);
        }
    }
}

/// A standing warning is lifted by a report exactly where the charge is at least 50 percent or
/// the headset charges.
pub proof fn a_half_charge_lifts_the_warning(
    state: State,
    fields: Map<Field, u8>,
    current: Option<Seq<char>>,
)
    requires
        fields.dom().contains(Field::Battery),
        state.spec.battery_max > 0,
        state.battery_warned,
    ensures
        !outcome(state, fields, current).0.battery_warned <==> fields[Field::Battery] * 100 >= 50
            * state.spec.battery_max || state.spec.charging(fields),
{
    lemma_charge(state, fields);
    let pct = state.with_battery(fields).battery_pct->0;
    lemma_bounds(pct, fields[Field::Battery], state.spec.battery_max);
    reveal(State::apply_status);
}

// ---------------------------------------------------------------------------
// The dial
// ---------------------------------------------------------------------------

/// A new position of the dial is kept, and applied where there are sinks: game first, chat
/// second. A position that is not new does nothing.
pub proof fn a_new_position_is_applied(state: State, game: u8, chat: u8)
    ensures
        ({
            let (next, effects) = state.handle_mix(game, chat);
            let news = state.last_mix.0 != game || state.last_mix.1 != chat;
            &&& next == State { last_mix: (game, chat), ..state }
            &&& effects.contains(Effect::SetMix(game, chat)) <==> news && state.sinks is Some
            &&& effects.len() > 0 ==> news && state.sinks is Some
        }),
{
    let effects = state.handle_mix(game, chat).1;
    if effects.len() > 0 {
        assert(effects[0] == Effect::SetMix(game, chat));
    }
}

// ---------------------------------------------------------------------------
// The sinks
// ---------------------------------------------------------------------------

/// A headset whose sink is gone has ours removed, without any question; where there are none,
/// that is only logged.
pub proof fn a_lost_headset_removes_the_sinks(state: State, snap: Snapshot)
    requires
        snap.target is None,
    ensures
        ({
            let (next, reaction) = state.ensure_sinks(Some(snap));
            &&& next.sinks is None
            &&& removes_sinks(reaction) <==> state.sinks is Some
            &&& reaction.query is Nothing
            &&& !touches_default(reaction)
            &&& next.prev_default == state.prev_default
        }),
{
    let reaction = state.ensure_sinks(Some(snap)).1;
    if state.sinks is Some {
        assert(reaction.effects[1] is TeardownSinks);
    }
}

/// Without a snapshot nothing happens.
pub proof fn no_snapshot_does_nothing(state: State)
    ensures
        state.ensure_sinks(None).0 == state,
        state.ensure_sinks(None).1.effects.len() == 0,
        state.ensure_sinks(None).1.query is Nothing,
{
}

/// Before the sinks are built for the first time the default sink is asked for, and remembered
/// unless it is none or one of ours; where one is remembered, the sinks are built at once.
pub proof fn the_default_is_remembered_first(
    state: State,
    snap: Snapshot,
    target: Seq<char>,
    current: Option<Seq<char>>,
)
    requires
        snap.target == Some(target),
        state.sinks != Some(target) || !snap.game || !snap.chat,
    ensures
        ({
            let (s1, r1) = state.ensure_sinks(Some(snap));
            let (s2, r2) = s1.default_known(Aim::Remember(target), current);
            &&& s1 == state
            &&& state.prev_default is Some ==> r1.query == Query::SetupSinks(target)
            &&& state.prev_default is None ==> r1.query == Query::DefaultSink(Aim::Remember(target))
            &&& r2.query == Query::SetupSinks(target)
            &&& r2.effects.len() == 0
            &&& s2.prev_default == if current is Some && current->0 != "Arctis Game"@ && current->0
                != "Arctis Chat"@ {
                current
            } else {
                None
            }
            &&& s2 == State { prev_default: s2.prev_default, ..state }
        }),
{
}

/// A setup that succeeds routes the sinks where it was asked to, applies the last position of the
/// dial and claims the default; one that fails changes nothing.
pub proof fn a_setup_routes_the_sinks(state: State, target: Seq<char>, e: Seq<char>)
    ensures
        ({
            let (built, reaction) = state.setup_done(target, Ok(()));
            let (same, failure) = state.setup_done(target, Err(e));
            &&& built.sinks == Some(target)
            &&& built.prev_default == state.prev_default
            &&& reaction.query is Nothing
            &&& reaction.effects.contains(Effect::SetMix(state.last_mix.0, state.last_mix.1))
            &&& reaction.effects.contains(Effect::SetDefaultSink("Arctis Game"@))
                <==> state.manage_default && state.online != Some(false)
            &&& same == state
            &&& failure.query is Nothing
            &&& failure.effects == seq![Effect::Log("sink setup failed: "@ + e)]
        }),
{
    let effects = state.setup_done(target, Ok(())).1.effects;
    assert(effects[1] == Effect::SetMix(state.last_mix.0, state.last_mix.1));
    if state.manage_default && state.online != Some(false) {
        assert(effects[2] == Effect::SetDefaultSink("Arctis Game"@));
    }
}

// ---------------------------------------------------------------------------
// The default sink
// ---------------------------------------------------------------------------

/// Where the default is one of ours, it goes back to the remembered sink, and to the real one
/// where that is not to be had; where it is another, it stays.
pub proof fn a_release_hands_the_default_back(state: State, leaving: bool, current: Seq<char>)
    ensures
        ({
            let held = current == "Arctis Game"@ || current == "Arctis Chat"@;
            let (next, reaction) = state.default_known(Aim::Release { leaving }, Some(current));
            let (last, rest) = state.restore_done(leaving, false);
            &&& !held ==> reaction.query is Nothing && !touches_default(reaction)
            &&& held && state.prev_default is Some ==> reaction.query == (Query::RestoreDefault {
                sink: state.prev_default->0,
                leaving,
            }) && next == state && reaction.effects.len() == 0
            &&& held && state.prev_default is None && state.sinks is Some ==> reaction.effects[0]
                == Effect::SetDefaultSink(state.sinks->0) && reaction.query is Nothing
            &&& state.sinks is Some ==> rest.effects[0] == Effect::SetDefaultSink(state.sinks->0)
            &&& rest.query is Nothing
        }),
{
}

/// At the end of a session, and only there, the release removes the sinks, where there are any.
pub proof fn only_the_end_removes_the_sinks(
    state: State,
    leaving: bool,
    current: Option<Seq<char>>,
    restored: bool,
)
    ensures
        ({
            let (s1, r1) = state.default_known(Aim::Release { leaving }, current);
            let (s2, r2) = state.restore_done(leaving, restored);
            &&& r1.query is Nothing ==> (removes_sinks(r1) <==> leaving && state.sinks is Some)
                && s1.sinks == (if leaving {
                None
            } else {
                state.sinks
            })
            &&& removes_sinks(r2) <==> leaving && state.sinks is Some
            &&& s2.sinks == (if leaving {
                None
            } else {
                state.sinks
            })
        }),
{
    let r1 = state.default_known(Aim::Release { leaving }, current).1;
    let r2 = state.restore_done(leaving, restored).1;
    if leaving && state.sinks is Some {
        if r1.query is Nothing {
            assert(r1.effects[r1.effects.len() - 2] is TeardownSinks);
        }
        assert(r2.effects[r2.effects.len() - 2] is TeardownSinks);
    }
}

/// A session that ends looks at the default sink first, where that is its to manage, and
/// otherwise removes the sinks at once.
pub proof fn the_end_begins_with_the_default(state: State)
    ensures
        state.manage_default ==> state.teardown().1.query == Query::DefaultSink(
            Aim::Release { leaving: true },
        ) && state.teardown().0 == state && state.teardown().1.effects.len() == 0,
        !state.manage_default ==> state.teardown().1.query is Nothing && state.teardown().0.sinks
            is None && (removes_sinks(state.teardown().1) <==> state.sinks is Some),
{
    if !state.manage_default && state.sinks is Some {
        assert(state.teardown().1.effects[0] is TeardownSinks);
    }
}

/// A session begins without sinks, without a remembered default, with the dial in the middle, and
/// knowing nothing of the headset.
pub proof fn a_session_begins_knowing_nothing(
    spec: DeviceSpec,
    manage_default: bool,
)
    ensures
        ({
            let state = State::initial(spec, manage_default);
            &&& state.spec == spec && state.manage_default == manage_default
            &&& state.sinks is None && state.prev_default is None
            &&& state.last_mix == (100u8, 100u8)
            &&& state.online is None && state.battery_pct is None
            &&& !state.battery_warned && !state.warned_no_sink
        }),
{
}

/// That the headset has no sink is logged once, until sinks are built again.
pub proof fn a_missing_headset_is_logged_once(state: State, snap: Snapshot, target: Seq<char>)
    requires
        snap.target is None,
        state.sinks is None,
    ensures
        ({
            let (next, reaction) = state.ensure_sinks(Some(snap));
            &&& reaction.effects.len() == if state.warned_no_sink {
                0nat
            } else {
                1
            }
            &&& next.ensure_sinks(Some(snap)).1.effects.len() == 0
            &&& !next.setup_done(target, Ok(())).0.warned_no_sink
        }),
{
}

// ---------------------------------------------------------------------------
// What stays
// ---------------------------------------------------------------------------

/// Each input changes only what it is about: a report the charge, the power state and the
/// warning, the dial its position, a look at the sinks and a setup the sinks, an answer about
/// the default what is remembered, and the end of a session its sinks.
pub open spec fn changes_only_its_own(state: State, input: Input, next: State) -> bool {
    match input {
        Input::Status(_) => next == (State {
            battery_pct: next.battery_pct,
            online: next.online,
            battery_warned: next.battery_warned,
            ..state
        }),
        Input::Mix(_, _) => next == (State { last_mix: next.last_mix, ..state }),
        Input::EnsureSinks(_) => next == (State {
            sinks: next.sinks,
            warned_no_sink: next.warned_no_sink,
            ..state
        }),
        Input::SetupDone(_) => next == (State {
            sinks: next.sinks,
            warned_no_sink: next.warned_no_sink,
            ..state
        }),
        Input::DefaultKnown(_) => next == (State {
            sinks: next.sinks,
            prev_default: next.prev_default,
            battery_warned: next.battery_warned,
            ..state
        }),
        Input::RestoreDone(_) => next == (State { sinks: next.sinks, ..state }),
        Input::Teardown => next == (State { sinks: next.sinks, ..state }),
    }
}

/// Whatever comes, the session keeps all that it is not told anew.
pub proof fn the_rest_of_a_session_stays(state: State, pending: Query, input: Input)
    requires
        fits(pending, input),
    ensures
        changes_only_its_own(state, input, step(state, pending, input).0),
{
    reveal(State::apply_status);
}

/// A claim remembers the default that it replaces, and keeps what is remembered where that is
/// unknown or one of ours. A release forgets nothing.
pub proof fn a_claim_remembers_what_it_replaces(
    state: State,
    charging: bool,
    leaving: bool,
    current: Option<Seq<char>>,
)
    ensures
        ({
            let next = state.default_known(Aim::Claim { charging }, current).0;
            let foreign = current is Some && current->0 != "Arctis Game"@ && current->0
                != "Arctis Chat"@;
            &&& next.prev_default == if foreign {
                current
            } else {
                state.prev_default
            }
            &&& next.sinks == state.sinks
            &&& state.default_known(Aim::Release { leaving }, current).0.prev_default
                == state.prev_default
        }),
{
}

// ---------------------------------------------------------------------------
// The warning without a new charge
// ---------------------------------------------------------------------------

/// A report without a charge is judged by the last charge that is known: where that is low, the
/// warning that a headset known to be off did not get comes when it is on.
pub proof fn a_known_charge_is_warned_of(
    state: State,
    fields: Map<Field, u8>,
    current: Option<Seq<char>>,
)
    requires
        !fields.dom().contains(Field::Battery),
    ensures
        ({
            let (next, notified) = outcome(state, fields, current);
            let low = state.battery_pct is Some && state.battery_pct->0 <= 25;
            let high = state.battery_pct is Some && (state.battery_pct->0 >= 50
                || state.spec.charging(fields));
            &&& notified <==> low && may_be_on(state, fields) && !state.battery_warned
            &&& next.battery_warned <==> notified || state.battery_warned && !high
        }),
{
    reveal(State::apply_status);
    let (next, reaction) = state.apply_status(fields);
    if state.battery_pct is Some && state.battery_pct->0 <= 25 && may_be_on(state, fields)
        && !state.battery_warned {
        if claims(reaction) {
            let more = next.default_known(reaction.query->DefaultSink_0, current).1;
            assert(more.effects[more.effects.len() - 1] is NotifyLowBattery);
        } else {
            assert(reaction.effects[reaction.effects.len() - 1] is NotifyLowBattery);
        }
    }
}

// ---------------------------------------------------------------------------
// What is logged
// ---------------------------------------------------------------------------

/// Each notification follows a line in the log with the same charge.
pub open spec fn logs_warnings(reaction: Reaction) -> bool {
    forall|i: int|
        0 <= i < reaction.effects.len() ==> (#[trigger] reaction.effects[i] matches
            Effect::NotifyLowBattery(pct) ==> i > 0 && reaction.effects[i - 1] == Effect::Log(
            "LOW BATTERY: headset at "@ + decimal(pct as nat) + "%"@,
        ))
}

/// The log says the charge of every low-battery notification.
pub proof fn a_warning_is_logged_with_its_charge(state: State, pending: Query, input: Input)
    requires
        fits(pending, input),
    ensures
        logs_warnings(step(state, pending, input).1),
{
    let reaction = step(state, pending, input).1;
    match input {
        Input::EnsureSinks(_) => assert(logs_warnings(reaction)),
        Input::Mix(_, _) => assert(logs_warnings(reaction)),
        Input::Status(_) => assert(logs_warnings(reaction)) by {
            reveal(State::apply_status);
        },
        Input::Teardown => assert(logs_warnings(reaction)),
        Input::DefaultKnown(_) => assert(logs_warnings(reaction)),
        Input::SetupDone(_) => assert(logs_warnings(reaction)),
        Input::RestoreDone(_) => assert(logs_warnings(reaction)),
    }
}

/// A setup is logged with the sink that the two sinks lead to, and a change of the dial with both
/// levels, the latter only in a verbose log.
pub proof fn routes_and_levels_are_logged(state: State, target: Seq<char>, game: u8, chat: u8)
    ensures
        state.setup_done(target, Ok(())).1.effects[0] == Effect::Log(
            "routing "@ + "Arctis Game"@ + "/"@ + "Arctis Chat"@ + " -> "@ + target,
        ),
        state.sinks is Some && state.last_mix != (game, chat) ==> state.handle_mix(game, chat).1
            == seq![
            Effect::SetMix(game, chat),
            Effect::LogVerbose(
                "chatmix: game "@ + decimal(game as nat) + "% / chat "@ + decimal(chat as nat)
                    + "%"@,
            ),
        ],
{
}

/// The charge as the log has it.
pub open spec fn charge_in_words(pct: Option<u32>) -> Seq<char> {
    if pct is None {
        "battery unknown"@
    } else {
        "battery "@ + decimal(pct->0 as nat) + "%"@
    }
}

/// A first report is logged with the power state, in the words of the device or as a raw value,
/// and with the charge; a headset that comes on with the charge, and one that goes off with its
/// power state.
pub proof fn power_is_logged(state: State, fields: Map<Field, u8>)
    requires
        fields.dom().contains(Field::Power),
    ensures
        ({
            let (next, reaction) = state.apply_status(fields);
            let power = match described(state.spec.labels, fields, Field::Power) {
                Some(words) => words,
                None => "power state 0x"@ + hex(fields[Field::Power] as nat, 2, false),
            };
            &&& state.online is None ==> reaction.effects[0] == Effect::Log(
                "headset "@ + power + ", "@ + charge_in_words(next.battery_pct),
            )
            &&& state.online == Some(false) && next.online == Some(true) ==> reaction.effects[0]
                == Effect::Log(
                "headset powered on ("@ + charge_in_words(next.battery_pct)
                    + "), claiming default sink"@,
            )
            &&& state.online == Some(true) && next.online == Some(false) ==> reaction.effects[0]
                == Effect::Log("headset "@ + power + ", releasing default sink"@)
        }),
{
    reveal(State::apply_status);
}

} // verus!
