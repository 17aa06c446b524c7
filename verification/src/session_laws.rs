//! What holds of every course that a session can take.
//!
//! A course is a sequence of inputs. Each either comes by itself, while the session waits
//! for nothing, or is an answer to what the session has asked for.
use vstd::prelude::*;

use crate::audio::Snapshot;
use crate::devices::{DeviceSpec, Field};
use crate::modules::GAME_SINK;
use crate::session::{
    is_ours, Aim, Effect, Query, Reaction, State, LOW_BATTERY_CLEAR_PCT, LOW_BATTERY_WARN_PCT,
};

verus! {

/// Something that a session reacts to.
pub enum Input {
    EnsureSinks(Option<Snapshot>),
    Mix(u8, u8),
    Status(Map<Field, u8>),
    Teardown,
    /// The default sink, as asked for.
    DefaultKnown(Option<Seq<char>>),
    /// What building the sinks came to.
    SetupDone(Result<(), Seq<char>>),
    /// Whether the previous default sink could be restored.
    RestoreDone(bool),
}

/// The input can come while `pending` is asked for.
pub open spec fn fits(pending: Query, input: Input) -> bool {
    match pending {
        Query::Nothing => input is EnsureSinks || input is Mix || input is Status || input is Teardown,
        Query::DefaultSink(_) => input is DefaultKnown,
        Query::SetupSinks(_) => input is SetupDone,
        Query::RestoreDefault { .. } => input is RestoreDone,
    }
}

/// The reaction to an input while `pending` is asked for.
pub open spec fn step(state: State, pending: Query, input: Input) -> (State, Reaction) {
    match input {
        Input::EnsureSinks(snap) => state.ensure_sinks(snap),
        Input::Mix(game, chat) => {
            let (after, effects) = state.handle_mix(game, chat);
            (after, Reaction { effects, query: Query::Nothing })
        },
        Input::Status(fields) => state.apply_status(fields),
        Input::Teardown => state.teardown(),
        Input::DefaultKnown(current) => state.default_known(pending->DefaultSink_0, current),
        Input::SetupDone(result) => state.setup_done(pending->SetupSinks_0, result),
        Input::RestoreDone(restored) => state.restore_done(
            pending->RestoreDefault_leaving,
            restored,
        ),
    }
}

/// The state and the last reaction after all of `inputs`.
pub open spec fn after(start: State, inputs: Seq<Input>) -> (State, Reaction)
    decreases inputs.len(),
{
    if inputs.len() == 0 {
        (start, Reaction { effects: seq![], query: Query::Nothing })
    } else {
        let (state, reaction) = after(start, inputs.drop_last());
        step(state, reaction.query, inputs.last())
    }
}

/// Every input fits what was asked for before it.
pub open spec fn is_course(start: State, inputs: Seq<Input>) -> bool
    decreases inputs.len(),
{
    inputs.len() == 0 || is_course(start, inputs.drop_last()) && fits(
        after(start, inputs.drop_last()).1.query,
        inputs.last(),
    )
}

/// The reaction changes the default sink, or tries to.
pub open spec fn touches_default(reaction: Reaction) -> bool {
    reaction.query is RestoreDefault || exists|i: int|
        0 <= i < reaction.effects.len() && #[trigger] reaction.effects[i] is SetDefaultSink
}

/// The reaction looks at the default sink to claim it for a headset that has come on.
pub open spec fn claims(reaction: Reaction) -> bool {
    reaction.query matches Query::DefaultSink(Aim::Claim { .. })
}

/// The reaction warns of a low battery.
pub open spec fn notifies(reaction: Reaction) -> bool {
    exists|i: int|
        0 <= i < reaction.effects.len() && #[trigger] reaction.effects[i] is NotifyLowBattery
}

/// The reaction removes the sinks.
pub open spec fn removes_sinks(reaction: Reaction) -> bool {
    exists|i: int|
        0 <= i < reaction.effects.len() && #[trigger] reaction.effects[i] is TeardownSinks
}

// ---------------------------------------------------------------------------
// The default sink
// ---------------------------------------------------------------------------

/// Where the default sink is not ours to manage, no course touches it.
pub proof fn an_unmanaged_default_is_never_touched(spec: DeviceSpec, inputs: Seq<Input>)
    requires
        is_course(State::initial(spec, false), inputs),
    ensures
        !touches_default(after(State::initial(spec, false), inputs).1),
{
    lemma_unmanaged(spec, inputs);
}

/// The default sink is not ours to manage, and nothing is done or asked for to change it.
spec fn is_aloof(next: (State, Reaction)) -> bool {
    &&& !next.0.manage_default
    &&& !touches_default(next.1)
    &&& !(next.1.query matches Query::DefaultSink(Aim::Release { .. }))
    &&& !claims(next.1)
}

proof fn lemma_unmanaged_step(state: State, pending: Query, input: Input)
    requires
        fits(pending, input),
        !state.manage_default,
        !(pending is RestoreDefault),
        !(pending matches Query::DefaultSink(Aim::Release { .. })),
        !(pending matches Query::DefaultSink(Aim::Claim { .. })),
    ensures
        is_aloof(step(state, pending, input)),
{
    let next = step(state, pending, input);
    match input {
        Input::EnsureSinks(_) => assert(is_aloof(next)),
        Input::Mix(_, _) => assert(is_aloof(next)),
        Input::Status(_) => assert(is_aloof(next)) by {
            reveal(State::apply_status);
        },
        Input::Teardown => assert(is_aloof(next)),
        Input::DefaultKnown(_) => assert(is_aloof(next)),
        Input::SetupDone(_) => assert(is_aloof(next)),
        Input::RestoreDone(_) => assert(is_aloof(next)),
    }
}

proof fn lemma_unmanaged(spec: DeviceSpec, inputs: Seq<Input>)
    requires
        is_course(State::initial(spec, false), inputs),
    ensures
        is_aloof(after(State::initial(spec, false), inputs)),
    decreases inputs.len(),
{
    if inputs.len() > 0 {
        lemma_unmanaged(spec, inputs.drop_last());
        let (state, reaction) = after(State::initial(spec, false), inputs.drop_last());
        lemma_unmanaged_step(state, reaction.query, inputs.last());
    }
}

/// What is remembered is not one of ours, nor is what is to be restored.
spec fn remembers_others(next: (State, Reaction)) -> bool {
    &&& next.0.prev_default matches Some(sink) ==> !is_ours(sink)
    &&& next.1.query matches Query::RestoreDefault { sink, leaving } ==> !is_ours(sink)
}

proof fn lemma_remembers_others(state: State, pending: Query, input: Input)
    requires
        fits(pending, input),
        state.prev_default matches Some(sink) ==> !is_ours(sink),
    ensures
        remembers_others(step(state, pending, input)),
{
    let next = step(state, pending, input);
    match input {
        Input::EnsureSinks(_) => assert(remembers_others(next)),
        Input::Mix(_, _) => assert(remembers_others(next)),
        Input::Status(_) => assert(remembers_others(next)) by {
            reveal(State::apply_status);
        },
        Input::Teardown => assert(remembers_others(next)),
        Input::DefaultKnown(_) => assert(remembers_others(next)),
        Input::SetupDone(_) => assert(remembers_others(next)),
        Input::RestoreDone(_) => assert(remembers_others(next)),
    }
}

/// The remembered default sink is never one of ours, and none of ours is ever restored.
pub proof fn our_sinks_are_never_remembered(
    spec: DeviceSpec,
    manage_default: bool,
    inputs: Seq<Input>,
)
    requires
        is_course(State::initial(spec, manage_default), inputs),
    ensures
        ({
            let (state, reaction) = after(State::initial(spec, manage_default), inputs);
            &&& state.prev_default matches Some(sink) ==> !is_ours(sink)
            &&& reaction.query matches Query::RestoreDefault { sink, leaving } ==> !is_ours(sink)
        }),
    decreases inputs.len(),
{
    if inputs.len() > 0 {
        our_sinks_are_never_remembered(spec, manage_default, inputs.drop_last());
        let (state, reaction) = after(State::initial(spec, manage_default), inputs.drop_last());
        lemma_remembers_others(state, reaction.query, inputs.last());
    }
}

/// A default sink that the user has chosen in the meantime stays.
pub proof fn a_choice_of_the_user_stays(state: State, leaving: bool, current: Option<Seq<char>>)
    requires
        current matches Some(sink) ==> !is_ours(sink),
    ensures
        !touches_default(state.default_known(Aim::Release { leaving }, current).1),
{
}

/// A default sink that is still ours goes to the remembered one, and to the real sink where
/// nothing is remembered or restoring it fails.
pub proof fn a_held_default_is_handed_back(state: State, leaving: bool, current: Seq<char>)
    requires
        is_ours(current),
    ensures
        ({
            let reaction = state.default_known(Aim::Release { leaving }, Some(current)).1;
            &&& state.prev_default matches Some(sink) ==> reaction.query == (
            Query::RestoreDefault { sink, leaving })
            &&& state.prev_default is None ==> (state.sinks matches Some(target)
                ==> reaction.effects.len() > 0 && reaction.effects[0] == Effect::SetDefaultSink(
                target,
            ))
            &&& state.sinks matches Some(target) ==> state.restore_done(
                leaving,
                false,
            ).1.effects.len() > 0 && state.restore_done(leaving, false).1.effects[0]
                == Effect::SetDefaultSink(target)
            &&& !touches_default(state.restore_done(leaving, true).1)
        }),
{
}

/// A session that ends has handed the default sink back and removed its sinks after two
/// answers at most, whatever they are.
pub proof fn a_teardown_comes_to_an_end(
    state: State,
    current: Option<Seq<char>>,
    restored: bool,
)
    ensures
        ({
            let (s1, r1) = state.teardown();
            let (s2, r2) = s1.default_known(r1.query->DefaultSink_0, current);
            let (s3, r3) = s2.restore_done(r2.query->RestoreDefault_leaving, restored);
            &&& r1.query is Nothing ==> s1.sinks is None
            &&& r1.query !is Nothing ==> r1.query is DefaultSink
            &&& r1.query is DefaultSink && r2.query is Nothing ==> s2.sinks is None
            &&& r1.query is DefaultSink && r2.query !is Nothing ==> r2.query is RestoreDefault
                && r3.query is Nothing && s3.sinks is None
        }),
{
}

// ---------------------------------------------------------------------------
// The sinks
// ---------------------------------------------------------------------------

/// Sinks that exist and are routed into the headset are left alone.
pub proof fn healthy_sinks_are_left_alone(state: State, snap: Snapshot)
    requires
        state.sinks is Some,
        snap.target == state.sinks,
        snap.game,
        snap.chat,
    ensures
        state.ensure_sinks(Some(snap)) == (
            state,
            (Reaction { effects: seq![], query: Query::Nothing }),
        ),
{
}

/// Where the headset has a sink and ours are missing, incomplete or routed elsewhere, they are
/// built anew, into the headset's sink.
pub proof fn lost_sinks_are_rebuilt(state: State, snap: Snapshot, current: Option<Seq<char>>)
    requires
        snap.target is Some,
        state.sinks != snap.target || !snap.game || !snap.chat,
    ensures
        ({
            let (s1, r1) = state.ensure_sinks(Some(snap));
            let (s2, r2) = s1.default_known(r1.query->DefaultSink_0, current);
            ||| r1.query == Query::SetupSinks(snap.target->0)
            ||| r1.query == Query::DefaultSink(Aim::Remember(snap.target->0)) && r2.query
                == Query::SetupSinks(snap.target->0)
        }),
{
}

/// The sinks are removed only where there are any, and are then gone: never twice in a row.
pub proof fn sinks_are_removed_once(state: State, pending: Query, input: Input)
    requires
        fits(pending, input),
        removes_sinks(step(state, pending, input).1),
    ensures
        state.sinks is Some,
        step(state, pending, input).0.sinks is None,
{
    let (next, reaction) = step(state, pending, input);
    let gone = state.sinks is Some && next.sinks is None;
    match input {
        Input::EnsureSinks(_) => assert(gone),
        Input::Mix(_, _) => assert(gone),
        Input::Status(_) => assert(gone) by {
            reveal(State::apply_status);
        },
        Input::Teardown => assert(gone),
        Input::DefaultKnown(_) => assert(gone),
        Input::SetupDone(_) => assert(gone),
        Input::RestoreDone(_) => assert(gone),
    }
}

/// Sinks come only from a setup that succeeded, and are routed where it was asked for.
pub proof fn sinks_come_from_a_successful_setup(state: State, pending: Query, input: Input)
    requires
        fits(pending, input),
        step(state, pending, input).0.sinks != state.sinks,
        step(state, pending, input).0.sinks is Some,
    ensures
        pending matches Query::SetupSinks(target) && step(state, pending, input).0.sinks == Some(
            target,
        ) && input == Input::SetupDone(Ok(())),
{
    reveal(State::apply_status);
    if let Input::SetupDone(Ok(unit)) = input {
        assert(unit == ());
    }
}

/// The last position of the dial survives a rebuild: building the sinks ends with the
/// volumes, and claims the default sink unless the headset is known to be off.
pub proof fn a_rebuild_replays_the_mix(state: State, target: Seq<char>)
    ensures
        ({
            let (built, reaction) = state.setup_done(target, Ok(()));
            &&& built.last_mix == state.last_mix
            &&& reaction.effects.len() >= 2
            &&& reaction.effects[1] == Effect::SetMix(state.last_mix.0, state.last_mix.1)
            &&& touches_default(reaction) <==> state.manage_default && state.online != Some(false)
            &&& touches_default(reaction) ==> reaction.effects.last() == Effect::SetDefaultSink(
                GAME_SINK@,
            )
        }),
{
    let reaction = state.setup_done(target, Ok(())).1;
    if state.manage_default && state.online != Some(false) {
        assert(reaction.effects[2] is SetDefaultSink);
    }
}

/// A dial that has not moved changes nothing.
pub proof fn the_same_mix_twice_is_applied_once(state: State, game: u8, chat: u8)
    ensures
        state.handle_mix(game, chat).0.handle_mix(game, chat) == (
            state.handle_mix(game, chat).0,
            Seq::<Effect>::empty(),
        ),
{
}

// ---------------------------------------------------------------------------
// Power and battery
// ---------------------------------------------------------------------------

/// A headset that comes on again finds the last position of the dial applied and the default
/// sink claimed, where it is ours to manage and there are sinks, whatever it was before.
pub proof fn power_on_reclaims(
    state: State,
    fields: Map<Field, u8>,
    current: Option<Seq<char>>,
)
    requires
        state.online == Some(false),
        fields.dom().contains(Field::Power),
        state.spec.power_online@.contains(fields[Field::Power]),
    ensures
        ({
            let (on, reaction) = state.apply_status(fields);
            let claimed = on.default_known(reaction.query->DefaultSink_0, current).1;
            &&& on.online == Some(true)
            &&& on.last_mix == state.last_mix
            &&& reaction.effects[1] == Effect::SetMix(state.last_mix.0, state.last_mix.1)
            &&& claims(reaction) <==> state.manage_default && state.sinks is Some
            &&& claims(reaction) ==> claimed.effects[0] == Effect::SetDefaultSink(GAME_SINK@)
                && claimed.query is Nothing
        }),
{
    reveal(State::apply_status);
}

/// A headset that goes off, or is found to be off by the first report, has its default sink
/// looked at, to hand it back, and nothing else happens to the sinks.
pub proof fn power_off_releases(state: State, fields: Map<Field, u8>)
    requires
        state.online != Some(false),
        fields.dom().contains(Field::Power),
        !state.spec.power_online@.contains(fields[Field::Power]),
    ensures
        ({
            let (off, reaction) = state.apply_status(fields);
            &&& off.online == Some(false)
            &&& off.sinks == state.sinks
            &&& off.prev_default == state.prev_default
            &&& reaction.query == if state.manage_default {
                Query::DefaultSink(Aim::Release { leaving: false })
            } else {
                Query::Nothing
            }
        }),
{
    reveal(State::apply_status);
}

/// No input of the course leads to a claim for a headset that has come on.
pub open spec fn claims_no_more(start: State, inputs: Seq<Input>) -> bool
    decreases inputs.len(),
{
    inputs.len() == 0 || claims_no_more(start, inputs.drop_last()) && !claims(
        after(start, inputs).1,
    )
}

/// What is remembered outlasts an input that is not the answer to a claim or a first look.
proof fn lemma_remembered(state: State, pending: Query, input: Input)
    requires
        fits(pending, input),
        state.prev_default is Some,
        !(pending matches Query::DefaultSink(Aim::Claim { .. })),
        !(pending matches Query::DefaultSink(Aim::Remember(_))),
    ensures
        step(state, pending, input).0.prev_default == state.prev_default,
        step(state, pending, input).0.manage_default == state.manage_default,
        !(step(state, pending, input).1.query matches Query::DefaultSink(Aim::Remember(_))),
{
    let (next, reaction) = step(state, pending, input);
    let stays = next.prev_default == state.prev_default && next.manage_default
        == state.manage_default && !(reaction.query matches Query::DefaultSink(Aim::Remember(_)));
    match input {
        Input::EnsureSinks(_) => assert(stays),
        Input::Mix(_, _) => assert(stays),
        Input::Status(_) => assert(stays) by {
            reveal(State::apply_status);
        },
        Input::Teardown => assert(stays),
        Input::DefaultKnown(_) => assert(stays),
        Input::SetupDone(_) => assert(stays),
        Input::RestoreDone(_) => assert(stays),
    }
}

proof fn lemma_remembered_stays(start: State, inputs: Seq<Input>)
    requires
        start.prev_default is Some,
        is_course(start, inputs),
        claims_no_more(start, inputs),
    ensures
        after(start, inputs).0.prev_default == start.prev_default,
        after(start, inputs).0.manage_default == start.manage_default,
        !(after(start, inputs).1.query matches Query::DefaultSink(Aim::Remember(_))),
        !claims(after(start, inputs).1),
    decreases inputs.len(),
{
    if inputs.len() > 0 {
        lemma_remembered_stays(start, inputs.drop_last());
        let (state, reaction) = after(start, inputs.drop_last());
        lemma_remembered(state, reaction.query, inputs.last());
    }
}

/// The sink that was the default when it was claimed for a headset that came on is the one that
/// is restored when the headset goes off, whatever was remembered before and whatever happens in
/// between, up to the next such claim.
pub proof fn the_default_at_the_claim_is_restored(
    state: State,
    on: Map<Field, u8>,
    sink: Seq<char>,
    between: Seq<Input>,
    off: Map<Field, u8>,
    current: Seq<char>,
)
    requires
        state.online == Some(false),
        state.manage_default,
        state.sinks is Some,
        on.dom().contains(Field::Power),
        state.spec.power_online@.contains(on[Field::Power]),
        !is_ours(sink),
        ({
            let (asking, asked) = state.apply_status(on);
            let claimed = asking.default_known(asked.query->DefaultSink_0, Some(sink)).0;
            let (last, reaction) = after(claimed, between);
            &&& is_course(claimed, between)
            &&& claims_no_more(claimed, between)
            &&& reaction.query is Nothing
            &&& last.online != Some(false)
            &&& off.dom().contains(Field::Power)
            &&& !last.spec.power_online@.contains(off[Field::Power])
        }),
        is_ours(current),
    ensures
        ({
            let (asking, asked) = state.apply_status(on);
            let claimed = asking.default_known(asked.query->DefaultSink_0, Some(sink)).0;
            let last = after(claimed, between).0;
            let (gone, looked) = last.apply_status(off);
            &&& asked.query is DefaultSink
            &&& looked.query is DefaultSink
            &&& gone.default_known(looked.query->DefaultSink_0, Some(current)).1.query == (
            Query::RestoreDefault { sink, leaving: false })
        }),
{
    power_on_reclaims(state, on, Some(sink));
    let (asking, asked) = state.apply_status(on);
    assert(asking.manage_default) by {
        reveal(State::apply_status);
    }
    let claimed = asking.default_known(asked.query->DefaultSink_0, Some(sink)).0;
    assert(claimed.prev_default == Some(sink));
    lemma_remembered_stays(claimed, between);
    power_off_releases(after(claimed, between).0, off);
}

/// A default sink that cannot be told, or is one of ours, leaves what is remembered when the
/// default sink is claimed.
pub proof fn a_claim_forgets_nothing(state: State, charging: bool, current: Option<Seq<char>>)
    requires
        current matches Some(sink) ==> is_ours(sink),
    ensures
        state.default_known(Aim::Claim { charging }, current).0.prev_default == state.prev_default,
{
}

/// The charge is low, the headset is not off, and the warning is a new one.
spec fn is_reasonable(state: State, warned: State) -> bool {
    &&& warned.battery_pct matches Some(pct) && pct <= LOW_BATTERY_WARN_PCT
    &&& warned.online != Some(false)
    &&& !state.battery_warned
    &&& warned.battery_warned
}

/// A warning comes only at a low charge, not while the headset is off, and not while an
/// earlier one stands.
pub proof fn a_warning_has_its_reasons(state: State, pending: Query, input: Input)
    requires
        fits(pending, input),
        notifies(step(state, pending, input).1),
    ensures
        ({
            let warned = step(state, pending, input).0;
            &&& warned.battery_pct matches Some(pct) && pct <= LOW_BATTERY_WARN_PCT
            &&& warned.online != Some(false)
            &&& !state.battery_warned
            &&& warned.battery_warned
        }),
{
    let warned = step(state, pending, input).0;
    match input {
        Input::EnsureSinks(_) => assert(is_reasonable(state, warned)),
        Input::Mix(_, _) => assert(is_reasonable(state, warned)),
        Input::Status(_) => assert(is_reasonable(state, warned)) by {
            reveal(State::apply_status);
        },
        Input::Teardown => assert(is_reasonable(state, warned)),
        Input::DefaultKnown(_) => assert(is_reasonable(state, warned)),
        Input::SetupDone(_) => assert(is_reasonable(state, warned)),
        Input::RestoreDone(_) => assert(is_reasonable(state, warned)),
    }
}

/// A low charge is warned of, unless the headset is off or an earlier warning stands: at once,
/// or right after the default sink is claimed.
pub proof fn a_low_battery_is_warned_of(
    state: State,
    fields: Map<Field, u8>,
    current: Option<Seq<char>>,
)
    requires
        state.with_battery(fields).battery_pct matches Some(pct) && pct <= LOW_BATTERY_WARN_PCT,
        state.apply_status(fields).0.online != Some(false),
        !state.battery_warned,
    ensures
        ({
            let (next, reaction) = state.apply_status(fields);
            if claims(reaction) {
                notifies(next.default_known(reaction.query->DefaultSink_0, current).1)
            } else {
                notifies(reaction)
            }
        }),
{
    reveal(State::apply_status);
    let (next, reaction) = state.apply_status(fields);
    if claims(reaction) {
        let effects = next.default_known(reaction.query->DefaultSink_0, current).1.effects;
        assert(effects[effects.len() - 1] is NotifyLowBattery);
    } else {
        let effects = reaction.effects;
        assert(effects[effects.len() - 1] is NotifyLowBattery);
    }
}

/// The charge in the state after these inputs has not recovered, and the last report does not
/// say that the headset charges.
pub open spec fn still_low(start: State, inputs: Seq<Input>) -> bool
    decreases inputs.len(),
{
    inputs.len() == 0 || still_low(start, inputs.drop_last()) && {
        let (state, reaction) = after(start, inputs.drop_last());
        inputs.last() matches Input::Status(fields) ==> !state.spec.charging(fields) && (
        state.with_battery(fields).battery_pct matches Some(pct) ==> pct < LOW_BATTERY_CLEAR_PCT)
    }
}

/// A claim that is asked for comes from a report without recovery.
spec fn asks_while_low(state: State, pending: Query) -> bool {
    pending matches Query::DefaultSink(Aim::Claim { charging }) ==> !charging && (
    state.battery_pct matches Some(pct) ==> pct < LOW_BATTERY_CLEAR_PCT)
}

/// A standing warning outlasts an input that shows no recovery.
proof fn lemma_warning_stands(state: State, pending: Query, input: Input)
    requires
        state.battery_warned,
        fits(pending, input),
        asks_while_low(state, pending),
        input matches Input::Status(fields) ==> !state.spec.charging(fields) && (
        state.with_battery(fields).battery_pct matches Some(pct) ==> pct < LOW_BATTERY_CLEAR_PCT),
    ensures
        step(state, pending, input).0.battery_warned,
        !notifies(step(state, pending, input).1),
        asks_while_low(step(state, pending, input).0, step(state, pending, input).1.query),
{
    let (next, reaction) = step(state, pending, input);
    let stands = next.battery_warned && !notifies(reaction) && asks_while_low(
        next,
        reaction.query,
    );
    match input {
        Input::EnsureSinks(_) => assert(stands),
        Input::Mix(_, _) => assert(stands),
        Input::Status(_) => assert(stands) by {
            reveal(State::apply_status);
        },
        Input::Teardown => assert(stands),
        Input::DefaultKnown(_) => assert(stands),
        Input::SetupDone(_) => assert(stands),
        Input::RestoreDone(_) => assert(stands),
    }
}

proof fn lemma_warning_stays(start: State, inputs: Seq<Input>)
    requires
        start.battery_warned,
        is_course(start, inputs),
        still_low(start, inputs),
    ensures
        after(start, inputs).0.battery_warned,
        !notifies(after(start, inputs).1),
        asks_while_low(after(start, inputs).0, after(start, inputs).1.query),
    decreases inputs.len(),
{
    if inputs.len() > 0 {
        lemma_warning_stays(start, inputs.drop_last());
        let (state, reaction) = after(start, inputs.drop_last());
        lemma_warning_stands(state, reaction.query, inputs.last());
    }
}

/// Once given, the warning is not repeated until a report shows the charge recovered or the
/// headset charging, whatever happens in between.
pub proof fn a_warning_is_not_repeated(start: State, inputs: Seq<Input>)
    requires
        start.battery_warned,
        is_course(start, inputs),
        still_low(start, inputs),
    ensures
        after(start, inputs).0.battery_warned,
        !notifies(after(start, inputs).1),
{
    lemma_warning_stays(start, inputs);
}

/// A report of a recovered charge, or of charging, makes ready for another warning: at once, or
/// right after the default sink is claimed.
pub proof fn recovery_rearms_the_warning(
    state: State,
    fields: Map<Field, u8>,
    current: Option<Seq<char>>,
)
    requires
        state.battery_warned,
        state.with_battery(fields).battery_pct matches Some(pct) && (pct >= LOW_BATTERY_CLEAR_PCT
            || state.spec.charging(fields)),
    ensures
        ({
            let (next, reaction) = state.apply_status(fields);
            if claims(reaction) {
                !next.default_known(reaction.query->DefaultSink_0, current).0.battery_warned
            } else {
                !next.battery_warned
            }
        }),
{
    reveal(State::apply_status);
}

} // verus!
