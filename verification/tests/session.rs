use arctis_chatmix::audio::SinkSnapshot;
use arctis_chatmix::catalog::{nova_pro_wired, nova_pro_wireless};
use arctis_chatmix::devices::{Collected, Field};
use arctis_chatmix::session::{Action, Request, Session, Turn};

/// Records every audio operation; snapshot and default sink are scriptable. Setting the
/// default updates the fake default, like the real server.
#[derive(Default)]
struct FakeAudio {
    calls: Vec<String>,
    logs: Vec<String>,
    snapshot: Option<SinkSnapshot>,
    default: Option<String>,
    /// Sinks that cannot be made the default.
    refused: Vec<String>,
    /// Building the sinks fails with this message.
    setup_error: Option<String>,
}

impl FakeAudio {
    fn set_snapshot(&mut self, game: bool, chat: bool, real: Option<&str>) {
        self.snapshot = Some(SinkSnapshot { game, chat, real: real.map(str::to_string) });
    }

    fn set_default(&mut self, sink: &str) {
        self.default = Some(sink.to_string());
    }

    fn take_calls(&mut self) -> Vec<String> {
        std::mem::take(&mut self.calls)
    }

    fn take_logs(&mut self) -> Vec<String> {
        std::mem::take(&mut self.logs)
    }

    fn set_default_sink(&mut self, sink: &str) -> bool {
        if self.refused.iter().any(|s| s == sink) {
            return false;
        }
        self.calls.push(format!("default:{sink}"));
        self.default = Some(sink.to_string());
        true
    }

    fn act(&mut self, actions: Vec<Action>) {
        for action in actions {
            match action {
                Action::Log(text) => self.logs.push(text),
                Action::LogVerbose(text) => self.logs.push(text),
                Action::TeardownSinks => self.calls.push("teardown".to_string()),
                Action::SetMix(game, chat) => self.calls.push(format!("mix:{game}/{chat}")),
                Action::SetDefaultSink(sink) => {
                    self.set_default_sink(&sink);
                }
                Action::NotifyLowBattery(pct) => self.calls.push(format!("notify:{pct}")),
            }
        }
    }

    /// Performs a turn and everything that follows from it.
    fn run(&mut self, s: &mut Session, turn: Turn) {
        let mut turn = turn;
        loop {
            self.act(turn.actions);
            turn = match turn.request {
                Request::Nothing => return,
                Request::DefaultSink(purpose) => s.default_known(purpose, self.default.clone()),
                Request::SetupSinks(real) => {
                    self.calls.push(format!("setup:{real}"));
                    let result = match &self.setup_error {
                        Some(e) => Err(e.clone()),
                        None => Ok(()),
                    };
                    s.setup_done(real, result)
                }
                Request::RestoreDefault { sink, leaving } => {
                    let restored = self.set_default_sink(&sink);
                    s.restore_done(leaving, restored)
                }
            };
        }
    }

    fn ensure_sinks(&mut self, s: &mut Session) {
        let turn = s.ensure_sinks(self.snapshot.clone());
        self.run(s, turn);
    }

    fn apply_status(&mut self, s: &mut Session, fields: &Collected) {
        let turn = s.apply_status(fields);
        self.run(s, turn);
    }

    fn handle_mix(&mut self, s: &mut Session, game: u8, chat: u8) {
        let actions = s.handle_mix(game, chat);
        self.act(actions);
    }

    fn teardown(&mut self, s: &mut Session) {
        let turn = s.teardown();
        self.run(s, turn);
    }
}

fn status(power: Option<u8>, battery: Option<u8>) -> Collected {
    let mut c = Collected::default();
    if let Some(p) = power {
        c.insert(Field::Power, p);
    }
    if let Some(b) = battery {
        c.insert(Field::Battery, b);
    }
    c
}

/// A session with sinks built: real sink "alsa_out", previous default "speakers", default
/// claimed.
fn established(audio: &mut FakeAudio) -> Session {
    audio.set_snapshot(false, false, Some("alsa_out"));
    audio.set_default("speakers");
    let mut s = Session::new(nova_pro_wireless(), true);
    audio.ensure_sinks(&mut s);
    audio.take_calls();
    audio.take_logs();
    s
}

// The Nova Pro Wireless has a full battery at raw 8 (2 is 25%, 4 is 50%); power 0x08 is
// online, 0x00 offline.

#[test]
fn first_setup_claims_default_and_replays_mix() {
    let mut audio = FakeAudio::default();
    audio.set_snapshot(false, false, Some("alsa_out"));
    audio.set_default("speakers");
    let mut s = Session::new(nova_pro_wireless(), true);
    audio.ensure_sinks(&mut s);
    assert_eq!(
        audio.take_calls(),
        ["setup:alsa_out", "mix:100/100", "default:Arctis Game"]
    );
    // The user's sink was remembered, not ours.
    assert_eq!(s.prev_default.as_deref(), Some("speakers"));
}

#[test]
fn healthy_sinks_are_left_alone() {
    let mut audio = FakeAudio::default();
    let mut s = established(&mut audio);
    audio.set_snapshot(true, true, Some("alsa_out"));
    audio.ensure_sinks(&mut s);
    assert!(audio.take_calls().is_empty());
}

#[test]
fn missing_virtual_sink_triggers_rebuild() {
    let mut audio = FakeAudio::default();
    let mut s = established(&mut audio);
    audio.set_snapshot(true, false, Some("alsa_out")); // chat sink lost
    audio.ensure_sinks(&mut s);
    assert!(audio.take_calls().contains(&"setup:alsa_out".to_string()));
}

#[test]
fn real_sink_change_triggers_rebuild() {
    let mut audio = FakeAudio::default();
    let mut s = established(&mut audio);
    audio.set_snapshot(true, true, Some("other_out"));
    audio.ensure_sinks(&mut s);
    assert!(audio.take_calls().contains(&"setup:other_out".to_string()));
    assert_eq!(s.sinks.as_deref(), Some("other_out"));
}

#[test]
fn vanished_real_sink_tears_down_once() {
    let mut audio = FakeAudio::default();
    let mut s = established(&mut audio);
    audio.set_snapshot(false, false, None);
    audio.ensure_sinks(&mut s);
    assert_eq!(audio.take_calls(), ["teardown"]);
    audio.ensure_sinks(&mut s); // still gone: no repeated teardown
    assert!(audio.take_calls().is_empty());
}

#[test]
fn power_off_restores_previous_default() {
    let mut audio = FakeAudio::default();
    let mut s = established(&mut audio);
    audio.apply_status(&mut s, &status(Some(0x08), Some(8))); // first report: online
    audio.take_calls();
    audio.apply_status(&mut s, &status(Some(0x00), None)); // powered off
    assert_eq!(audio.take_calls(), ["default:speakers"]);
}

#[test]
fn release_respects_a_manual_default_change() {
    let mut audio = FakeAudio::default();
    let mut s = established(&mut audio);
    audio.apply_status(&mut s, &status(Some(0x08), Some(8)));
    audio.take_calls();
    audio.set_default("usb-dac"); // user picked something else meanwhile
    audio.apply_status(&mut s, &status(Some(0x00), None));
    assert!(audio.take_calls().is_empty());
    assert_eq!(audio.default.as_deref(), Some("usb-dac"));
}

#[test]
fn power_on_reclaims_default_and_replays_mix() {
    let mut audio = FakeAudio::default();
    let mut s = established(&mut audio);
    audio.apply_status(&mut s, &status(Some(0x08), Some(8)));
    audio.handle_mix(&mut s, 60, 80);
    audio.apply_status(&mut s, &status(Some(0x00), None));
    audio.take_calls();
    audio.apply_status(&mut s, &status(Some(0x08), None)); // powered back on
    assert_eq!(audio.take_calls(), ["mix:60/80", "default:Arctis Game"]);
}

#[test]
fn disabled_default_management_never_touches_default() {
    let mut audio = FakeAudio::default();
    audio.set_snapshot(false, false, Some("alsa_out"));
    audio.set_default("speakers");
    let mut s = Session::new(nova_pro_wireless(), false);
    audio.ensure_sinks(&mut s);
    audio.apply_status(&mut s, &status(Some(0x08), Some(8)));
    audio.apply_status(&mut s, &status(Some(0x00), None));
    audio.apply_status(&mut s, &status(Some(0x08), None));
    audio.teardown(&mut s);
    assert!(!audio.take_calls().iter().any(|c| c.starts_with("default:")));
}

#[test]
fn low_battery_warns_once_with_hysteresis() {
    let mut audio = FakeAudio::default();
    let mut s = established(&mut audio);
    audio.apply_status(&mut s, &status(Some(0x08), Some(8))); // 100%: no warning
    audio.take_calls();

    audio.apply_status(&mut s, &status(None, Some(2))); // 25%: warn
    assert_eq!(audio.take_calls(), ["notify:25"]);
    audio.apply_status(&mut s, &status(None, Some(2))); // still 25%: no repeat
    assert!(audio.take_calls().is_empty());

    audio.apply_status(&mut s, &status(None, Some(3))); // 37%: below the clear bound, stays latched
    assert!(audio.take_calls().is_empty());
    audio.apply_status(&mut s, &status(None, Some(2))); // dipping again without recovery: silent
    assert!(audio.take_calls().is_empty());

    audio.apply_status(&mut s, &status(None, Some(4))); // 50%: re-arms the warning
    audio.apply_status(&mut s, &status(None, Some(2))); // 25% again: warns again
    assert_eq!(audio.take_calls(), ["notify:25"]);
}

#[test]
fn no_battery_warning_while_powered_off() {
    let mut audio = FakeAudio::default();
    let mut s = established(&mut audio);
    audio.apply_status(&mut s, &status(Some(0x00), Some(1))); // off, 12%
    assert!(!audio.take_calls().iter().any(|c| c.starts_with("notify:")));
}

#[test]
fn teardown_releases_default_and_unloads() {
    let mut audio = FakeAudio::default();
    let mut s = established(&mut audio);
    audio.teardown(&mut s);
    assert_eq!(audio.take_calls(), ["default:speakers", "teardown"]);
    assert!(s.sinks.is_none());
}

#[test]
fn the_texts_of_a_session() {
    let mut audio = FakeAudio::default();
    audio.set_default("speakers");
    let mut s = Session::new(nova_pro_wireless(), true);
    assert_eq!(s.battery_str(), "battery unknown");
    audio.set_snapshot(false, false, None);
    audio.ensure_sinks(&mut s);
    audio.ensure_sinks(&mut s);
    assert_eq!(audio.take_logs(), ["waiting for Arctis audio sink..."]);
    audio.set_snapshot(false, false, Some("alsa_out"));
    audio.ensure_sinks(&mut s);
    assert_eq!(audio.take_logs(), ["routing Arctis Game/Arctis Chat -> alsa_out"]);
    audio.set_snapshot(true, false, Some("alsa_out"));
    audio.ensure_sinks(&mut s);
    assert_eq!(
        audio.take_logs(),
        [
            "virtual sinks lost (PipeWire restart or device change), rebuilding",
            "routing Arctis Game/Arctis Chat -> alsa_out",
        ]
    );
    audio.apply_status(&mut s, &status(Some(0x08), Some(7)));
    assert_eq!(audio.take_logs(), ["headset online, battery 87%"]);
    assert_eq!(s.battery_str(), "battery 87%");
    audio.apply_status(&mut s, &status(Some(0x08), Some(7)));
    assert!(audio.take_logs().is_empty());
    audio.apply_status(&mut s, &status(Some(0x01), None));
    assert_eq!(audio.take_logs(), ["headset offline, releasing default sink"]);
    audio.apply_status(&mut s, &status(Some(0x08), None));
    assert_eq!(audio.take_logs(), ["headset powered on (battery 87%), claiming default sink"]);
    audio.handle_mix(&mut s, 60, 80);
    assert_eq!(audio.take_logs(), ["chatmix: game 60% / chat 80%"]);
    audio.apply_status(&mut s, &status(None, Some(1)));
    assert_eq!(audio.take_logs(), ["LOW BATTERY: headset at 12%"]);
    audio.set_snapshot(false, false, None);
    audio.ensure_sinks(&mut s);
    assert_eq!(
        audio.take_logs(),
        ["Arctis audio sink disappeared, removing virtual sinks"]
    );
    audio.setup_error = Some("no such module".to_string());
    audio.set_snapshot(false, false, Some("alsa_out"));
    audio.ensure_sinks(&mut s);
    assert_eq!(audio.take_logs(), ["sink setup failed: no such module"]);
    assert!(s.sinks.is_none());
    audio.setup_error = None;
    audio.ensure_sinks(&mut s);
    audio.take_logs();
    audio.teardown(&mut s);
    assert_eq!(audio.take_logs(), ["virtual sinks removed"]);
}

#[test]
fn an_unknown_power_state_is_shown_in_hex() {
    let mut audio = FakeAudio::default();
    let mut s = established(&mut audio);
    audio.apply_status(&mut s, &status(Some(0x0a), None));
    assert_eq!(audio.take_logs(), ["headset unknown (0x0a), battery unknown"]);
    // A device without any wording for its power states.
    let mut s = Session::new(nova_pro_wired(), true);
    audio.apply_status(&mut s, &status(Some(0x0a), None));
    assert_eq!(audio.take_logs(), ["headset power state 0x0a, battery unknown"]);
}

#[test]
fn our_own_sinks_are_not_remembered() {
    for ours in ["Arctis Game", "Arctis Chat"] {
        let mut audio = FakeAudio::default();
        audio.set_snapshot(false, false, Some("alsa_out"));
        audio.set_default(ours);
        let mut s = Session::new(nova_pro_wireless(), true);
        audio.ensure_sinks(&mut s);
        assert_eq!(s.prev_default, None);
    }
}

#[test]
fn the_real_sink_gets_the_default_where_the_previous_one_cannot() {
    let mut audio = FakeAudio::default();
    let mut s = established(&mut audio);
    audio.refused.push("speakers".to_string());
    audio.teardown(&mut s);
    assert_eq!(audio.take_calls(), ["default:alsa_out", "teardown"]);

    let mut audio = FakeAudio::default();
    audio.set_snapshot(false, false, Some("alsa_out"));
    let mut s = Session::new(nova_pro_wireless(), true);
    audio.ensure_sinks(&mut s);
    audio.take_calls();
    audio.teardown(&mut s);
    assert_eq!(audio.take_calls(), ["default:alsa_out", "teardown"]);
}

#[test]
fn no_snapshot_changes_nothing() {
    let mut audio = FakeAudio::default();
    let mut s = established(&mut audio);
    audio.snapshot = None;
    audio.ensure_sinks(&mut s);
    assert!(audio.take_calls().is_empty());
    assert!(audio.take_logs().is_empty());
    assert_eq!(s.sinks.as_deref(), Some("alsa_out"));
}

#[test]
fn a_headset_that_is_off_does_not_claim_the_default() {
    let mut audio = FakeAudio::default();
    audio.set_snapshot(false, false, Some("alsa_out"));
    audio.set_default("speakers");
    let mut s = Session::new(nova_pro_wireless(), true);
    audio.apply_status(&mut s, &status(Some(0x00), None));
    audio.ensure_sinks(&mut s);
    assert_eq!(audio.take_calls(), ["setup:alsa_out", "mix:100/100"]);
}

#[test]
fn the_same_mix_twice_is_set_once() {
    let mut audio = FakeAudio::default();
    let mut s = established(&mut audio);
    audio.handle_mix(&mut s, 60, 80);
    audio.handle_mix(&mut s, 60, 80);
    assert_eq!(audio.take_calls(), ["mix:60/80"]);
    // Without sinks the position is only remembered, and replayed when they are built.
    audio.set_snapshot(false, false, None);
    audio.ensure_sinks(&mut s);
    audio.take_calls();
    audio.handle_mix(&mut s, 10, 100);
    assert!(audio.take_calls().is_empty());
    audio.set_snapshot(false, false, Some("alsa_out"));
    audio.ensure_sinks(&mut s);
    assert_eq!(
        audio.take_calls(),
        ["setup:alsa_out", "mix:10/100", "default:Arctis Game"]
    );
}

#[test]
fn charging_rearms_the_warning() {
    let mut audio = FakeAudio::default();
    let mut s = established(&mut audio);
    audio.apply_status(&mut s, &status(Some(0x08), Some(2)));
    assert_eq!(audio.take_calls(), ["notify:25"]);
    audio.apply_status(&mut s, &status(Some(0x02), Some(2))); // off, charging by cable
    audio.take_calls();
    audio.apply_status(&mut s, &status(Some(0x08), Some(2)));
    assert!(audio.take_calls().contains(&"notify:25".to_string()));
}

#[test]
fn a_headset_found_off_hands_the_default_back() {
    let mut audio = FakeAudio::default();
    let mut s = established(&mut audio);
    audio.apply_status(&mut s, &status(Some(0x00), None)); // the first report ever
    assert_eq!(audio.take_calls(), ["default:speakers"]);
    assert_eq!(audio.take_logs(), ["headset unknown (0x00), battery unknown"]);
    audio.apply_status(&mut s, &status(Some(0x00), None));
    assert!(audio.take_calls().is_empty());
}

#[test]
fn a_headset_found_off_respects_a_manual_default_change() {
    let mut audio = FakeAudio::default();
    let mut s = established(&mut audio);
    audio.set_default("usb-dac");
    audio.apply_status(&mut s, &status(Some(0x00), None));
    assert!(audio.take_calls().is_empty());
}

#[test]
fn the_default_before_the_last_claim_is_restored() {
    let mut audio = FakeAudio::default();
    let mut s = established(&mut audio);
    audio.apply_status(&mut s, &status(Some(0x08), None));
    audio.apply_status(&mut s, &status(Some(0x00), None));
    audio.set_default("usb-dac"); // chosen while the headset is off
    audio.apply_status(&mut s, &status(Some(0x08), None));
    assert_eq!(audio.default.as_deref(), Some("Arctis Game"));
    audio.take_calls();
    audio.apply_status(&mut s, &status(Some(0x00), None));
    assert_eq!(audio.take_calls(), ["default:usb-dac"]);
}

#[test]
fn a_claim_keeps_what_is_remembered_where_the_default_is_ours_or_unknown() {
    for current in [None, Some("Arctis Game"), Some("Arctis Chat")] {
        let mut audio = FakeAudio::default();
        let mut s = established(&mut audio);
        audio.apply_status(&mut s, &status(Some(0x00), None));
        audio.default = current.map(str::to_string);
        audio.apply_status(&mut s, &status(Some(0x08), None));
        audio.take_calls();
        audio.apply_status(&mut s, &status(Some(0x00), None));
        assert_eq!(audio.take_calls(), ["default:speakers"]);
    }
}

#[test]
fn a_warning_at_power_on_comes_after_the_claim() {
    let mut audio = FakeAudio::default();
    let mut s = established(&mut audio);
    audio.apply_status(&mut s, &status(Some(0x00), None));
    audio.take_calls();
    audio.apply_status(&mut s, &status(Some(0x08), Some(2)));
    assert_eq!(
        audio.take_calls(),
        ["mix:100/100", "default:Arctis Game", "notify:25"]
    );
}
