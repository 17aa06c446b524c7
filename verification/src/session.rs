//! The session with one connected headset: when to build, rebuild and remove the virtual
//! sinks, when to claim the default sink and to whom to hand it back, and when to warn of a
//! low battery.
//!
//! A session performs nothing itself. Each of its methods returns a [`Turn`]: actions to
//! perform in order, and at most one request whose answer the session needs to go on.
use vstd::prelude::*;

use crate::audio::{SinkSnapshot, Snapshot};
use crate::devices::{percent, Collected, DeviceSpec, Field};
use crate::labels::described;
use crate::modules::{CHAT_SINK, GAME_SINK};
use crate::text::{decimal, decimal_of, err_text, hex, hex_of, opt_text, same_text};

verus! {

/// Warn when the charge falls to this many percent.
pub const LOW_BATTERY_WARN_PCT: u32 = 25;

/// Be ready to warn again once the charge has recovered to this many percent.
pub const LOW_BATTERY_CLEAR_PCT: u32 = 50;

// ---------------------------------------------------------------------------
// Actions and requests
// ---------------------------------------------------------------------------

/// Something to do for which no answer is needed.
#[derive(Debug, PartialEq, Eq)]
pub enum Action {
    Log(String),
    /// To be logged when asked for.
    LogVerbose(String),
    /// Unload our modules.
    TeardownSinks,
    /// Set the volumes of the two sinks, in percent.
    SetMix(u8, u8),
    /// Make this sink the default; a failure is of no consequence.
    SetDefaultSink(String),
    NotifyLowBattery(u32),
}

/// An [`Action`] with its text.
pub enum Effect {
    Log(Seq<char>),
    LogVerbose(Seq<char>),
    TeardownSinks,
    SetMix(u8, u8),
    SetDefaultSink(Seq<char>),
    NotifyLowBattery(u32),
}

impl View for Action {
    type V = Effect;

    open spec fn view(&self) -> Effect {
        match self {
            Action::Log(s) => Effect::Log(s@),
            Action::LogVerbose(s) => Effect::LogVerbose(s@),
            Action::TeardownSinks => Effect::TeardownSinks,
            Action::SetMix(g, c) => Effect::SetMix(*g, *c),
            Action::SetDefaultSink(s) => Effect::SetDefaultSink(s@),
            Action::NotifyLowBattery(p) => Effect::NotifyLowBattery(*p),
        }
    }
}

/// The effects of a list of actions.
pub open spec fn effects(actions: Seq<Action>) -> Seq<Effect> {
    actions.map_values(|a: Action| a@)
}

/// What the default sink is asked for.
#[derive(Debug, PartialEq, Eq)]
pub enum Purpose {
    /// To remember it, before the sinks are built and routed into the named one.
    Remember(String),
    /// To remember it, before it is claimed for a headset that has come on; `charging` is what
    /// the report said.
    Claim { charging: bool },
    /// To hand it back if it is still ours; `leaving` when the session ends.
    Release { leaving: bool },
}

/// Something to do whose answer the session needs.
#[derive(Debug, PartialEq, Eq)]
pub enum Request {
    Nothing,
    /// Ask for the default sink; the answer goes to [`Session::default_known`].
    DefaultSink(Purpose),
    /// Build the sinks, routed into the named one; the answer goes to
    /// [`Session::setup_done`].
    SetupSinks(String),
    /// Make the named sink the default; the answer goes to [`Session::restore_done`].
    RestoreDefault { sink: String, leaving: bool },
}

/// A [`Purpose`] with its text.
pub enum Aim {
    Remember(Seq<char>),
    Claim { charging: bool },
    Release { leaving: bool },
}

/// A [`Request`] with its text.
pub enum Query {
    Nothing,
    DefaultSink(Aim),
    SetupSinks(Seq<char>),
    RestoreDefault { sink: Seq<char>, leaving: bool },
}

impl View for Purpose {
    type V = Aim;

    open spec fn view(&self) -> Aim {
        match self {
            Purpose::Remember(s) => Aim::Remember(s@),
            Purpose::Claim { charging } => Aim::Claim { charging: *charging },
            Purpose::Release { leaving } => Aim::Release { leaving: *leaving },
        }
    }
}

impl View for Request {
    type V = Query;

    open spec fn view(&self) -> Query {
        match self {
            Request::Nothing => Query::Nothing,
            Request::DefaultSink(p) => Query::DefaultSink(p@),
            Request::SetupSinks(s) => Query::SetupSinks(s@),
            Request::RestoreDefault { sink, leaving } => Query::RestoreDefault {
                sink: sink@,
                leaving: *leaving,
            },
        }
    }
}

/// What a session wants done.
#[derive(Debug, PartialEq, Eq)]
pub struct Turn {
    pub actions: Vec<Action>,
    pub request: Request,
}

/// A [`Turn`] with its texts.
pub struct Reaction {
    pub effects: Seq<Effect>,
    pub query: Query,
}

impl View for Turn {
    type V = Reaction;

    open spec fn view(&self) -> Reaction {
        Reaction { effects: effects(self.actions@), query: self.request@ }
    }
}

// ---------------------------------------------------------------------------
// The state
// ---------------------------------------------------------------------------

/// A session with a headset.
#[derive(Debug)]
pub struct Session {
    pub spec: DeviceSpec,
    /// The default sink is ours to claim and hand back.
    pub manage_default: bool,
    /// The real sink that our sinks are routed into, while they exist.
    pub sinks: Option<String>,
    /// The default sink before we claimed it, handed back when the headset goes off and at the
    /// end; never one of ours.
    pub prev_default: Option<String>,
    /// The last position of the dial: game and chat, in percent.
    pub last_mix: (u8, u8),
    /// Whether the headset is on; unknown before the first report that says so.
    pub online: Option<bool>,
    pub battery_pct: Option<u32>,
    /// The low battery has been warned of.
    pub battery_warned: bool,
    /// That there is no real sink has been logged.
    pub warned_no_sink: bool,
}

/// A [`Session`] with its texts.
pub struct State {
    pub spec: DeviceSpec,
    pub manage_default: bool,
    pub sinks: Option<Seq<char>>,
    pub prev_default: Option<Seq<char>>,
    pub last_mix: (u8, u8),
    pub online: Option<bool>,
    pub battery_pct: Option<u32>,
    pub battery_warned: bool,
    pub warned_no_sink: bool,
}

impl View for Session {
    type V = State;

    open spec fn view(&self) -> State {
        State {
            spec: self.spec,
            manage_default: self.manage_default,
            sinks: opt_text(self.sinks),
            prev_default: opt_text(self.prev_default),
            last_mix: self.last_mix,
            online: self.online,
            battery_pct: self.battery_pct,
            battery_warned: self.battery_warned,
            warned_no_sink: self.warned_no_sink,
        }
    }
}

/// One of our two sinks.
pub open spec fn is_ours(sink: Seq<char>) -> bool {
    sink == GAME_SINK@ || sink == CHAT_SINK@
}

/// `sink` unless it is one of ours.
pub open spec fn unless_ours(sink: Option<Seq<char>>) -> Option<Seq<char>> {
    match sink {
        Some(s) => if is_ours(s) {
            None
        } else {
            Some(s)
        },
        None => None,
    }
}

/// Effects alone.
pub open spec fn just(effects: Seq<Effect>) -> Reaction {
    Reaction { effects: effects, query: Query::Nothing }
}

/// A query alone.
pub open spec fn ask(query: Query) -> Reaction {
    Reaction { effects: seq![], query: query }
}

/// The charge in words.
pub open spec fn battery_words(pct: Option<u32>) -> Seq<char> {
    match pct {
        Some(pct) => "battery "@ + decimal(pct as nat) + "%"@,
        None => "battery unknown"@,
    }
}

impl State {
    /// A session that knows nothing yet; the dial counts as centred.
    pub open spec fn initial(spec: DeviceSpec, manage_default: bool) -> State {
        State {
            spec: spec,
            manage_default: manage_default,
            sinks: None,
            prev_default: None,
            last_mix: (100, 100),
            online: None,
            battery_pct: None,
            battery_warned: false,
            warned_no_sink: false,
        }
    }

    /// Claiming the default sink.
    pub open spec fn claim(self) -> Seq<Effect> {
        if self.manage_default && self.sinks is Some {
            seq![Effect::SetDefaultSink(GAME_SINK@)]
        } else {
            seq![]
        }
    }

    /// The end of a release: a session that ends removes its sinks.
    pub open spec fn released(self, leaving: bool) -> (State, Seq<Effect>) {
        if leaving && self.sinks is Some {
            (
                State { sinks: None, ..self },
                seq![Effect::TeardownSinks, Effect::Log("virtual sinks removed"@)],
            )
        } else {
            (self, seq![])
        }
    }

    /// Handing the default sink back starts with a look at what it is.
    pub open spec fn release(self, leaving: bool) -> (State, Reaction) {
        if self.manage_default {
            (self, ask(Query::DefaultSink(Aim::Release { leaving })))
        } else {
            (self.released(leaving).0, just(self.released(leaving).1))
        }
    }

    /// Handing the default sink to the real sink, and the end of the release.
    pub open spec fn fall_back(self, leaving: bool) -> (State, Reaction) {
        let given = match self.sinks {
            Some(target) => seq![Effect::SetDefaultSink(target)],
            None => seq![],
        };
        (self.released(leaving).0, just(given + self.released(leaving).1))
    }

    /// The state with `current` remembered as the default sink to hand back, unless it is none or
    /// one of ours.
    pub open spec fn remembering(self, current: Option<Seq<char>>) -> State {
        State {
            prev_default: match unless_ours(current) {
                Some(sink) => Some(sink),
                None => self.prev_default,
            },
            ..self
        }
    }

    /// The default sink is known.
    pub open spec fn default_known(self, aim: Aim, current: Option<Seq<char>>) -> (State, Reaction) {
        match aim {
            Aim::Remember(target) => (
                State { prev_default: unless_ours(current), ..self },
                ask(Query::SetupSinks(target)),
            ),
            Aim::Claim { charging } => {
                let (warned, warning) = self.remembering(current).warn(charging);
                (warned, just(self.claim() + warning))
            },
            Aim::Release { leaving } => if current is Some && is_ours(current->0) {
                match self.prev_default {
                    Some(sink) => (self, ask(Query::RestoreDefault { sink, leaving })),
                    None => self.fall_back(leaving),
                }
            } else {
                (self.released(leaving).0, just(self.released(leaving).1))
            },
        }
    }

    /// The attempt to restore the previous default sink is over.
    pub open spec fn restore_done(self, leaving: bool, restored: bool) -> (State, Reaction) {
        if restored {
            (self.released(leaving).0, just(self.released(leaving).1))
        } else {
            self.fall_back(leaving)
        }
    }

    /// The health check: the real sink must exist, and our sinks be routed into it. The default
    /// sink is remembered before the first claim; a rebuild leaves it, since the default that
    /// stands while our sinks are lost is what the server put in their place.
    pub open spec fn ensure_sinks(self, snap: Option<Snapshot>) -> (State, Reaction) {
        match snap {
            None => (self, just(seq![])),
            Some(snap) => match snap.target {
                None => if self.sinks is Some {
                    (
                        State { sinks: None, ..self },
                        just(
                            seq![
                                Effect::Log(
                                    "Arctis audio sink disappeared, removing virtual sinks"@,
                                ),
                                Effect::TeardownSinks,
                            ],
                        ),
                    )
                } else if !self.warned_no_sink {
                    (
                        State { warned_no_sink: true, ..self },
                        just(seq![Effect::Log("waiting for Arctis audio sink..."@)]),
                    )
                } else {
                    (self, just(seq![]))
                },
                Some(target) => if self.sinks == Some(target) && snap.game && snap.chat {
                    (self, just(seq![]))
                } else {
                    (
                        self,
                        Reaction {
                            effects: if self.sinks is Some {
                                seq![
                                    Effect::Log(
                                        "virtual sinks lost (PipeWire restart or device change), rebuilding"@,
                                    ),
                                ]
                            } else {
                                seq![]
                            },
                            query: if self.prev_default is None {
                                Query::DefaultSink(Aim::Remember(target))
                            } else {
                                Query::SetupSinks(target)
                            },
                        },
                    )
                },
            },
        }
    }

    /// The attempt to build the sinks is over.
    pub open spec fn setup_done(self, target: Seq<char>, result: Result<(), Seq<char>>) -> (
        State,
        Reaction,
    ) {
        match result {
            Ok(_) => {
                let built = State { sinks: Some(target), warned_no_sink: false, ..self };
                (
                    built,
                    just(
                        seq![
                            Effect::Log(
                                "routing "@ + GAME_SINK@ + "/"@ + CHAT_SINK@ + " -> "@ + target,
                            ),
                            Effect::SetMix(self.last_mix.0, self.last_mix.1),
                        ] + if self.online != Some(false) {
                            built.claim()
                        } else {
                            seq![]
                        },
                    ),
                )
            },
            Err(e) => (self, just(seq![Effect::Log("sink setup failed: "@ + e)])),
        }
    }

    /// The dial is at `game` and `chat`.
    pub open spec fn handle_mix(self, game: u8, chat: u8) -> (State, Seq<Effect>) {
        if (game, chat) == self.last_mix {
            (self, seq![])
        } else {
            (
                State { last_mix: (game, chat), ..self },
                if self.sinks is Some {
                    seq![
                        Effect::SetMix(game, chat),
                        Effect::LogVerbose(
                            "chatmix: game "@ + decimal(game as nat) + "% / chat "@ + decimal(
                                chat as nat,
                            ) + "%"@,
                        ),
                    ]
                } else {
                    seq![]
                },
            )
        }
    }

    /// The state with the charge that a report gives.
    pub open spec fn with_battery(self, fields: Map<Field, u8>) -> State {
        if fields.dom().contains(Field::Battery) {
            State {
                battery_pct: Some(
                    percent(fields[Field::Battery] as int, self.spec.battery_max as int) as u32,
                ),
                ..self
            }
        } else {
            self
        }
    }

    /// The power state in words.
    pub open spec fn power_words(self, fields: Map<Field, u8>) -> Seq<char> {
        match described(self.spec.labels, fields, Field::Power) {
            Some(words) => words,
            None => "power state 0x"@ + hex(fields[Field::Power] as nat, 2, false),
        }
    }

    /// Claiming the default sink for a headset that has come on starts with a look at what it
    /// is, where there is anything to claim.
    pub open spec fn reclaim(self, charging: bool) -> Query {
        if self.manage_default && self.sinks is Some {
            Query::DefaultSink(Aim::Claim { charging })
        } else {
            Query::Nothing
        }
    }

    /// A report gives the power state `on`: where it is the first or a change, it is logged. A
    /// headset that comes on claims the default sink; one that goes off, or is found to be off,
    /// hands it back.
    pub open spec fn powered(self, on: bool, charging: bool, words: Seq<char>) -> (State, Reaction) {
        let after = State { online: Some(on), ..self };
        match self.online {
            None => (
                after,
                Reaction {
                    effects: seq![
                        Effect::Log("headset "@ + words + ", "@ + battery_words(self.battery_pct)),
                    ],
                    query: if on {
                        Query::Nothing
                    } else {
                        self.release(false).1.query
                    },
                },
            ),
            Some(before) => if before == on {
                (after, just(seq![]))
            } else if on {
                (
                    after,
                    Reaction {
                        effects: seq![
                            Effect::Log(
                                "headset powered on ("@ + battery_words(self.battery_pct)
                                    + "), claiming default sink"@,
                            ),
                            Effect::SetMix(self.last_mix.0, self.last_mix.1),
                        ],
                        query: self.reclaim(charging),
                    },
                )
            } else {
                (
                    after,
                    Reaction {
                        effects: seq![
                            Effect::Log("headset "@ + words + ", releasing default sink"@),
                        ],
                        query: self.release(false).1.query,
                    },
                )
            },
        }
    }

    /// The low-battery warning, given once until the charge has recovered or the headset
    /// charges, and not while the headset is known to be off.
    pub open spec fn warn(self, charging: bool) -> (State, Seq<Effect>) {
        match self.battery_pct {
            Some(pct) => if self.online != Some(false) && pct <= LOW_BATTERY_WARN_PCT
                && !self.battery_warned {
                (
                    State { battery_warned: true, ..self },
                    seq![
                        Effect::Log("LOW BATTERY: headset at "@ + decimal(pct as nat) + "%"@),
                        Effect::NotifyLowBattery(pct),
                    ],
                )
            } else if pct >= LOW_BATTERY_CLEAR_PCT || charging {
                (State { battery_warned: false, ..self }, seq![])
            } else {
                (self, seq![])
            },
            None => (self, seq![]),
        }
    }

    /// A status report. Where the default sink is to be claimed, the low-battery warning comes
    /// after that.
    #[verifier::opaque]
    pub open spec fn apply_status(self, fields: Map<Field, u8>) -> (State, Reaction) {
        let charged = self.with_battery(fields);
        let charging = self.spec.charging(fields);
        let (powered, reaction) = if fields.dom().contains(Field::Power) {
            charged.powered(
                self.spec.power_online@.contains(fields[Field::Power]),
                charging,
                self.power_words(fields),
            )
        } else {
            (charged, just(seq![]))
        };
        if reaction.query matches Query::DefaultSink(Aim::Claim { .. }) {
            (powered, reaction)
        } else {
            let (warned, warning) = powered.warn(charging);
            (warned, Reaction { effects: reaction.effects + warning, query: reaction.query })
        }
    }

    /// The session ends.
    pub open spec fn teardown(self) -> (State, Reaction) {
        self.release(true)
    }
}

// ---------------------------------------------------------------------------
// The session
// ---------------------------------------------------------------------------

/// No actions.
fn no_actions() -> (r: Vec<Action>)
    ensures
        effects(r@) == Seq::<Effect>::empty(),
{
    let r: Vec<Action> = Vec::new();
    assert(effects(r@) =~= Seq::<Effect>::empty());
    r
}

/// One more action.
fn add_action(actions: &mut Vec<Action>, action: Action)
    ensures
        effects(final(actions)@) == effects(old(actions)@).push(action@),
{
    let ghost before = effects(actions@);
    actions.push(action);
    assert(effects(actions@) =~= before.push(action@));
}

/// More actions.
fn add_actions(actions: &mut Vec<Action>, more: Vec<Action>)
    ensures
        effects(final(actions)@) == effects(old(actions)@) + effects(more@),
{
    let mut more = more;
    let ghost first = actions@;
    let ghost second = more@;
    actions.append(&mut more);
    assert(effects(first + second) =~= effects(first) + effects(second));
}

/// Actions alone.
fn turn(actions: Vec<Action>) -> (r: Turn)
    ensures
        r@ == just(effects(actions@)),
{
    Turn { actions, request: Request::Nothing }
}

/// A request alone.
fn request_turn(request: Request) -> (r: Turn)
    ensures
        r@ == ask(request@),
{
    Turn { actions: no_actions(), request }
}

/// The sink is one of ours.
fn ours(sink: &Option<String>) -> (r: bool)
    ensures
        r == (opt_text(*sink) is Some && is_ours(opt_text(*sink)->0)),
{
    match sink {
        Some(s) => same_text(s.as_str(), GAME_SINK) || same_text(s.as_str(), CHAT_SINK),
        None => false,
    }
}

/// A message made of a text between two fixed ones.
fn message(before: &str, text: &str, after: &str) -> (r: String)
    ensures
        r@ == before@ + text@ + after@,
{
    let mut r = before.to_owned();
    r.append(text);
    r.append(after);
    r
}

/// A snapshot that may be absent.
pub open spec fn opt_snapshot(snap: Option<SinkSnapshot>) -> Option<Snapshot> {
    match snap {
        Some(s) => Some(s@),
        None => None,
    }
}

impl Session {
    /// A session that knows nothing yet.
    pub fn new(spec: DeviceSpec, manage_default: bool) -> (r: Session)
        ensures
            r@ == State::initial(spec, manage_default),
    {
        Session {
            spec,
            manage_default,
            sinks: None,
            prev_default: None,
            last_mix: (100, 100),
            online: None,
            battery_pct: None,
            battery_warned: false,
            warned_no_sink: false,
        }
    }

    /// Claims the default sink, unless it is not ours to manage or there are no sinks.
    pub fn claim_default(&self) -> (r: Vec<Action>)
        ensures
            effects(r@) == self@.claim(),
    {
        let mut r = no_actions();
        if self.manage_default && self.sinks.is_some() {
            add_action(&mut r, Action::SetDefaultSink(GAME_SINK.to_owned()));
        }
        assert(effects(r@) =~= self@.claim());
        r
    }

    /// The end of a release.
    fn finish_release(&mut self, leaving: bool) -> (r: Vec<Action>)
        ensures
            final(self)@ == old(self)@.released(leaving).0,
            effects(r@) == old(self)@.released(leaving).1,
    {
        let mut r = no_actions();
        if leaving && self.sinks.is_some() {
            self.sinks = None;
            add_action(&mut r, Action::TeardownSinks);
            add_action(&mut r, Action::Log("virtual sinks removed".to_owned()));
        }
        assert(effects(r@) =~= old(self)@.released(leaving).1);
        r
    }

    /// Hands the default sink back, if it is still ours. A choice that the user made in the
    /// meantime stays.
    pub fn release_default(&mut self, leaving: bool) -> (r: Turn)
        ensures
            final(self)@ == old(self)@.release(leaving).0,
            r@ == old(self)@.release(leaving).1,
    {
        if self.manage_default {
            request_turn(Request::DefaultSink(Purpose::Release { leaving }))
        } else {
            turn(self.finish_release(leaving))
        }
    }

    /// Hands the default sink to the real sink.
    fn fall_back(&mut self, leaving: bool) -> (r: Turn)
        ensures
            final(self)@ == old(self)@.fall_back(leaving).0,
            r@ == old(self)@.fall_back(leaving).1,
    {
        let mut actions = no_actions();
        if let Some(target) = &self.sinks {
            add_action(&mut actions, Action::SetDefaultSink(target.clone()));
        }
        let rest = self.finish_release(leaving);
        add_actions(&mut actions, rest);
        assert(effects(actions@) =~= old(self)@.fall_back(leaving).1.effects);
        turn(actions)
    }

    /// Goes on with the default sink known.
    pub fn default_known(&mut self, purpose: Purpose, current: Option<String>) -> (r: Turn)
        ensures
            final(self)@ == old(self)@.default_known(purpose@, opt_text(current)).0,
            r@ == old(self)@.default_known(purpose@, opt_text(current)).1,
    {
        let held = ours(&current);
        match purpose {
            Purpose::Remember(target) => {
                self.prev_default = if held {
                    None
                } else {
                    current
                };
                request_turn(Request::SetupSinks(target))
            },
            Purpose::Claim { charging } => {
                if !held && current.is_some() {
                    self.prev_default = current;
                }
                let mut actions = self.claim_default();
                let warning = self.warn_battery(charging);
                add_actions(&mut actions, warning);
                turn(actions)
            },
            Purpose::Release { leaving } => {
                if held {
                    match &self.prev_default {
                        Some(sink) => request_turn(
                            Request::RestoreDefault { sink: sink.clone(), leaving },
                        ),
                        None => self.fall_back(leaving),
                    }
                } else {
                    turn(self.finish_release(leaving))
                }
            },
        }
    }

    /// Goes on after the attempt to restore the previous default sink.
    pub fn restore_done(&mut self, leaving: bool, restored: bool) -> (r: Turn)
        ensures
            final(self)@ == old(self)@.restore_done(leaving, restored).0,
            r@ == old(self)@.restore_done(leaving, restored).1,
    {
        if restored {
            turn(self.finish_release(leaving))
        } else {
            self.fall_back(leaving)
        }
    }

    /// The health check: makes sure that the real sink exists and that our sinks are routed
    /// into it, and has them built anew where they are not. Without a snapshot it waits for
    /// the next check.
    pub fn ensure_sinks(&mut self, snap: Option<SinkSnapshot>) -> (r: Turn)
        ensures
            final(self)@ == old(self)@.ensure_sinks(opt_snapshot(snap)).0,
            r@ == old(self)@.ensure_sinks(opt_snapshot(snap)).1,
    {
        let snap = match snap {
            Some(s) => s,
            None => return turn(no_actions()),
        };
        let mut actions = no_actions();
        let target = match snap.real {
            Some(t) => t,
            None => {
                if self.sinks.is_some() {
                    self.sinks = None;
                    add_action(
                        &mut actions,
                        Action::Log(
                            "Arctis audio sink disappeared, removing virtual sinks".to_owned(),
                        ),
                    );
                    add_action(&mut actions, Action::TeardownSinks);
                } else if !self.warned_no_sink {
                    self.warned_no_sink = true;
                    add_action(
                        &mut actions,
                        Action::Log("waiting for Arctis audio sink...".to_owned()),
                    );
                }
                assert(effects(actions@) =~= old(self)@.ensure_sinks(Some(snap@)).1.effects);
                return turn(actions);
            },
        };
        let healthy = match &self.sinks {
            Some(s) => same_text(s.as_str(), target.as_str()) && snap.game && snap.chat,
            None => false,
        };
        if healthy {
            return turn(actions);
        }
        if self.sinks.is_some() {
            add_action(
                &mut actions,
                Action::Log(
                    "virtual sinks lost (PipeWire restart or device change), rebuilding".to_owned(),
                ),
            );
        }
        assert(effects(actions@) =~= old(self)@.ensure_sinks(Some(snap@)).1.effects);
        let request = if self.prev_default.is_none() {
            Request::DefaultSink(Purpose::Remember(target))
        } else {
            Request::SetupSinks(target)
        };
        Turn { actions, request }
    }

    /// Goes on after the attempt to build the sinks, routed into `target`. The last position
    /// of the dial is applied anew, and the default sink claimed unless the headset is known
    /// to be off.
    pub fn setup_done(&mut self, target: String, result: Result<(), String>) -> (r: Turn)
        ensures
            final(self)@ == old(self)@.setup_done(target@, err_text(result)).0,
            r@ == old(self)@.setup_done(target@, err_text(result)).1,
    {
        let mut actions = no_actions();
        match result {
            Ok(_) => {
                let mut routing = "routing ".to_owned();
                routing.append(GAME_SINK);
                routing.append("/");
                routing.append(CHAT_SINK);
                routing.append(" -> ");
                routing.append(target.as_str());
                add_action(&mut actions, Action::Log(routing));
                self.sinks = Some(target);
                self.warned_no_sink = false;
                add_action(&mut actions, Action::SetMix(self.last_mix.0, self.last_mix.1));
                let off = match self.online {
                    Some(on) => !on,
                    None => false,
                };
                if !off {
                    add_actions(&mut actions, self.claim_default());
                }
            },
            Err(e) => {
                add_action(&mut actions, Action::Log(message("sink setup failed: ", e.as_str(), "")));
                proof {
                    reveal_strlit("");
                    assert("sink setup failed: "@ + e@ + ""@ =~= "sink setup failed: "@ + e@);
                }
            },
        }
        assert(effects(actions@) =~= old(self)@.setup_done(target@, err_text(result)).1.effects);
        turn(actions)
    }

    /// Applies a position of the dial, if it is a new one.
    pub fn handle_mix(&mut self, game: u8, chat: u8) -> (r: Vec<Action>)
        ensures
            final(self)@ == old(self)@.handle_mix(game, chat).0,
            effects(r@) == old(self)@.handle_mix(game, chat).1,
    {
        let mut r = no_actions();
        if game == self.last_mix.0 && chat == self.last_mix.1 {
            return r;
        }
        self.last_mix = (game, chat);
        if self.sinks.is_some() {
            let mut text = "chatmix: game ".to_owned();
            text.append(decimal_of(game as u32).as_str());
            text.append("% / chat ");
            text.append(decimal_of(chat as u32).as_str());
            text.append("%");
            add_action(&mut r, Action::SetMix(game, chat));
            add_action(&mut r, Action::LogVerbose(text));
        }
        assert(effects(r@) =~= old(self)@.handle_mix(game, chat).1);
        r
    }

    /// The charge in words.
    pub fn battery_str(&self) -> (r: String)
        ensures
            r@ == battery_words(self.battery_pct),
    {
        match self.battery_pct {
            Some(pct) => message("battery ", decimal_of(pct).as_str(), "%"),
            None => "battery unknown".to_owned(),
        }
    }

    /// The power state in words.
    fn power_str(&self, fields: &Collected, power: u8) -> (r: String)
        requires
            fields@.dom().contains(Field::Power),
            fields@[Field::Power] == power,
        ensures
            r@ == self@.power_words(fields@),
    {
        match self.spec.describe(fields, Field::Power) {
            Some(words) => words,
            None => {
                let mut r = "power state 0x".to_owned();
                r.append(hex_of(power as u32, 2, false).as_str());
                r
            },
        }
    }

    /// Applies a power state.
    fn apply_power(&mut self, on: bool, charging: bool, words: String) -> (r: Turn)
        ensures
            final(self)@ == old(self)@.powered(on, charging, words@).0,
            r@ == old(self)@.powered(on, charging, words@).1,
    {
        let mut actions = no_actions();
        let mut request = Request::Nothing;
        match self.online {
            None => {
                let mut text = "headset ".to_owned();
                text.append(words.as_str());
                text.append(", ");
                text.append(self.battery_str().as_str());
                add_action(&mut actions, Action::Log(text));
                if !on {
                    request = self.release_default(false).request;
                }
            },
            Some(before) => {
                if before != on {
                    if on {
                        let text = message(
                            "headset powered on (",
                            self.battery_str().as_str(),
                            "), claiming default sink",
                        );
                        add_action(&mut actions, Action::Log(text));
                        add_action(&mut actions, Action::SetMix(self.last_mix.0, self.last_mix.1));
                        if self.manage_default && self.sinks.is_some() {
                            request = Request::DefaultSink(Purpose::Claim { charging });
                        }
                    } else {
                        let text = message("headset ", words.as_str(), ", releasing default sink");
                        add_action(&mut actions, Action::Log(text));
                        request = self.release_default(false).request;
                    }
                }
            },
        }
        self.online = Some(on);
        assert(effects(actions@) =~= old(self)@.powered(on, charging, words@).1.effects);
        Turn { actions, request }
    }

    /// Warns of a low battery.
    fn warn_battery(&mut self, charging: bool) -> (r: Vec<Action>)
        ensures
            final(self)@ == old(self)@.warn(charging).0,
            effects(r@) == old(self)@.warn(charging).1,
    {
        let mut r = no_actions();
        if let Some(pct) = self.battery_pct {
            let off = match self.online {
                Some(on) => !on,
                None => false,
            };
            if !off && pct <= LOW_BATTERY_WARN_PCT && !self.battery_warned {
                let text = message("LOW BATTERY: headset at ", decimal_of(pct).as_str(), "%");
                add_action(&mut r, Action::Log(text));
                add_action(&mut r, Action::NotifyLowBattery(pct));
                self.battery_warned = true;
            } else if pct >= LOW_BATTERY_CLEAR_PCT || charging {
                self.battery_warned = false;
            }
        }
        assert(effects(r@) =~= old(self)@.warn(charging).1);
        r
    }

    /// Applies a status report: the charge, the power state with what a change of it brings,
    /// and the low-battery warning.
    pub fn apply_status(&mut self, fields: &Collected) -> (r: Turn)
        ensures
            final(self)@ == old(self)@.apply_status(fields@).0,
            r@ == old(self)@.apply_status(fields@).1,
    {
        reveal(State::apply_status);
        if let Some(raw) = fields.get(Field::Battery) {
            self.battery_pct = Some(self.spec.battery_percent(raw));
        }
        assert(self@ == old(self)@.with_battery(fields@));
        let charging = self.spec.is_charging(fields);
        let mut r = match fields.get(Field::Power) {
            Some(power) => {
                let words = self.power_str(fields, power);
                self.apply_power(self.spec.is_online(power), charging, words)
            },
            None => turn(no_actions()),
        };
        match &r.request {
            Request::DefaultSink(Purpose::Claim { charging: _ }) => return r,
            _ => {},
        }
        let warning = self.warn_battery(charging);
        add_actions(&mut r.actions, warning);
        r
    }

    /// Ends the session: hands the default sink back and removes the sinks.
    pub fn teardown(&mut self) -> (r: Turn)
        ensures
            final(self)@ == old(self)@.teardown().0,
            r@ == old(self)@.teardown().1,
    {
        self.release_default(true)
    }
}

} // verus!
