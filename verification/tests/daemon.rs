use arctis_chatmix::audio::{SinkSnapshot, WatchEvent};
use arctis_chatmix::catalog::{nova_5, nova_7_percent, nova_pro_wireless};
use arctis_chatmix::daemon::{due, Answer, Daemon, Deed, Question, SECOND};
use arctis_chatmix::devices::{frame_command, DeviceSpec};
use arctis_chatmix::hid::WriteOutcome;
use arctis_chatmix::session::Action;

fn log(text: &str) -> Deed {
    Deed::Act(Action::Log(text.to_string()))
}

fn written() -> Answer {
    Answer::Written(WriteOutcome::Written)
}

/// The daemon wants this command written.
fn asks_for(daemon: &Daemon, cmd: &[u8]) {
    assert_eq!(daemon.question(), Question::Write(frame_command(cmd, daemon.writer.unnumbered)));
}

fn snapshot(real: Option<&str>) -> Answer {
    Answer::Snapshot(Some(SinkSnapshot {
        game: real.is_some(),
        chat: real.is_some(),
        real: real.map(str::to_string),
    }))
}

/// A daemon at the top of its loop, with sinks routed into "alsa_out" and the default claimed
/// from "speakers".
fn running(spec: DeviceSpec, nodes: usize, watching: bool, now: u64) -> Daemon {
    let (mut daemon, _) = Daemon::new(spec, true, nodes);
    while matches!(daemon.question(), Question::Write(_)) {
        daemon.step(written(), now);
    }
    assert_eq!(daemon.question(), Question::Snapshot);
    daemon.step(snapshot(Some("alsa_out")), now);
    assert_eq!(daemon.question(), Question::DefaultSink);
    daemon.step(Answer::DefaultSink(Some("speakers".to_string())), now);
    assert_eq!(daemon.question(), Question::SetupSinks("alsa_out".to_string()));
    let deeds = daemon.step(Answer::Setup(Ok(())), now);
    assert_eq!(
        deeds,
        [
            log("routing Arctis Game/Arctis Chat -> alsa_out"),
            Deed::Act(Action::SetMix(100, 100)),
            Deed::Act(Action::SetDefaultSink("Arctis Game".to_string())),
        ]
    );
    assert_eq!(daemon.question(), Question::SpawnWatch);
    let deeds = daemon.step(Answer::Spawned(watching), now);
    if watching {
        assert!(deeds.is_empty());
    } else {
        assert_eq!(deeds, [log("pactl subscribe unavailable, falling back to sink polling")]);
    }
    assert_eq!(daemon.question(), Question::Running);
    daemon
}

/// Lets a daemon wait, with something pending.
fn wait(daemon: &mut Daemon, now: u64) {
    assert!(daemon.step(Answer::Running(true), now).is_empty());
    assert_eq!(daemon.question(), Question::Poll);
    assert!(daemon.step(Answer::Polled(true), now).is_empty());
}

fn report(bytes: &[u8]) -> Answer {
    Answer::Report(Ok(bytes.to_vec()))
}

#[test]
fn the_handshake_comes_first() {
    let (mut daemon, deeds) = Daemon::new(nova_pro_wireless(), true, 1);
    assert!(deeds.is_empty());
    let init = nova_pro_wireless().init;
    for (i, cmd) in init.iter().enumerate() {
        asks_for(&daemon, cmd);
        let deeds = daemon.step(written(), 0);
        if i + 1 < init.len() {
            assert_eq!(deeds, [Deed::Pause(10)]);
        } else {
            assert_eq!(deeds, [Deed::Pause(10), log("sent init sequence")]);
        }
    }
    for cmd in nova_pro_wireless().status_requests {
        asks_for(&daemon, cmd);
        assert!(daemon.step(Answer::Written(WriteOutcome::Failed("x".to_string())), 0).is_empty());
    }
    assert_eq!(daemon.question(), Question::Snapshot);
}

#[test]
fn a_failed_handshake_is_an_error() {
    let (mut daemon, _) = Daemon::new(nova_pro_wireless(), true, 1);
    let gone = WriteOutcome::Failed("No such device".to_string());
    assert!(daemon.step(Answer::Written(gone), 0).is_empty());
    assert_eq!(
        daemon.question(),
        Question::Finished(Err("init command failed: No such device".to_string()))
    );
}

#[test]
fn a_rejected_layout_is_tried_in_the_other_framing() {
    let (mut daemon, _) = Daemon::new(nova_pro_wireless(), true, 1);
    let first = match daemon.question() {
        Question::Write(bytes) => bytes,
        other => panic!("no write: {other:?}"),
    };
    let invalid = || Answer::Written(WriteOutcome::Rejected("Invalid argument".to_string()));
    assert_eq!(
        daemon.step(invalid(), 0),
        [log("hidraw rejected write, switching to unnumbered report framing")]
    );
    let mut other = vec![0];
    other.extend_from_slice(&first);
    assert_eq!(daemon.question(), Question::Write(other));
    assert!(daemon.step(invalid(), 0).is_empty());
    assert_eq!(
        daemon.question(),
        Question::Finished(Err("init command failed: Invalid argument".to_string()))
    );
}

#[test]
fn a_device_without_dial_reports_is_noted() {
    let (mut daemon, deeds) = Daemon::new(nova_5(), true, 1);
    assert!(deeds.is_empty());
    let mut deeds = Vec::new();
    while matches!(daemon.question(), Question::Write(_)) {
        deeds = daemon.step(written(), 0);
    }
    assert_eq!(
        deeds,
        [Deed::Act(Action::Log(format!(
            "note: no ChatMix protocol is documented for the {}; providing sinks and status only",
            nova_5().name
        )))]
    );
}

#[test]
fn a_fast_spin_is_one_change() {
    let mut daemon = running(nova_pro_wireless(), 1, false, 0);
    wait(&mut daemon, 1);
    for (game, chat) in [(90, 100), (70, 100), (60, 255)] {
        assert_eq!(daemon.question(), Question::NodeReady(0));
        daemon.step(Answer::Ready(true), 1);
        assert_eq!(daemon.question(), Question::Read(0));
        assert!(daemon.step(report(&[0x07, 0x45, game, chat]), 1).is_empty());
    }
    assert_eq!(
        daemon.step(Answer::Ready(false), 1),
        [
            Deed::Act(Action::SetMix(60, 100)),
            Deed::Act(Action::LogVerbose("chatmix: game 60% / chat 100%".to_string())),
        ]
    );
    assert_eq!(daemon.question(), Question::Running);
    // A pass without a report of the dial leaves the volumes alone.
    wait(&mut daemon, 1);
    assert!(daemon.step(Answer::Ready(false), 1).is_empty());
}

#[test]
fn every_node_is_drained() {
    let mut daemon = running(nova_7_percent(), 3, false, 0);
    wait(&mut daemon, 1);
    for node in 0..3 {
        assert_eq!(daemon.question(), Question::NodeReady(node));
        assert!(daemon.step(Answer::Ready(false), 1).is_empty());
    }
    assert_eq!(daemon.question(), Question::Running);
}

#[test]
fn a_failed_read_ends_the_session() {
    let mut daemon = running(nova_pro_wireless(), 2, false, 0);
    wait(&mut daemon, 1);
    daemon.step(Answer::Ready(true), 1);
    daemon.step(report(&[0x07, 0x45, 60, 100]), 1);
    daemon.step(Answer::Ready(true), 1);
    assert_eq!(
        daemon.step(Answer::Report(Err("gone".to_string())), 1),
        [
            log("device read failed (gone), assuming disconnect"),
            Deed::Act(Action::SetMix(60, 100)),
            Deed::Act(Action::LogVerbose("chatmix: game 60% / chat 100%".to_string())),
        ]
    );
    assert_eq!(daemon.question(), Question::DefaultSink);
    daemon.step(Answer::DefaultSink(Some("Arctis Game".to_string())), 1);
    assert_eq!(daemon.question(), Question::RestoreDefault("speakers".to_string()));
    assert_eq!(
        daemon.step(Answer::Restored(false), 1),
        [
            Deed::Act(Action::SetDefaultSink("alsa_out".to_string())),
            Deed::Act(Action::TeardownSinks),
            log("virtual sinks removed"),
        ]
    );
    assert_eq!(daemon.question(), Question::Finished(Ok(true)));
    assert!(daemon.session.sinks.is_none());
}

#[test]
fn a_stop_ends_the_session_for_good() {
    let mut daemon = running(nova_pro_wireless(), 1, true, 0);
    assert!(daemon.step(Answer::Running(false), 1).is_empty());
    assert_eq!(
        daemon.step(Answer::DefaultSink(Some("usb-dac".to_string())), 1),
        [Deed::Act(Action::TeardownSinks), log("virtual sinks removed")]
    );
    assert_eq!(daemon.question(), Question::Finished(Ok(false)));
}

#[test]
fn a_status_poll_that_fails_ends_the_session() {
    let spec = nova_pro_wireless();
    let mut daemon = running(spec, 1, true, 0);
    let now = spec.status_poll_secs * SECOND;
    // One nanosecond early nothing is asked.
    daemon.step(Answer::Running(true), now - 1);
    assert_eq!(daemon.question(), Question::Poll);
    daemon.step(Answer::Polled(false), now - 1);
    daemon.step(Answer::Running(true), now);
    if let Question::Snapshot = daemon.question() {
        daemon.step(snapshot(Some("alsa_out")), now);
    }
    let mut last = Vec::new();
    for cmd in spec.status_requests {
        asks_for(&daemon, cmd);
        last = daemon.step(Answer::Written(WriteOutcome::Failed("gone".to_string())), now);
    }
    assert_eq!(last, [log("device write failed, assuming disconnect")]);
    assert_eq!(daemon.question(), Question::DefaultSink);
    daemon.step(Answer::DefaultSink(None), now);
    assert_eq!(daemon.question(), Question::Finished(Ok(true)));
}

#[test]
fn a_status_poll_is_repeated_after_its_interval() {
    let spec = nova_pro_wireless();
    let mut daemon = running(spec, 1, true, 0);
    let now = spec.status_poll_secs * SECOND;
    daemon.step(Answer::Running(true), now);
    if let Question::Snapshot = daemon.question() {
        daemon.step(snapshot(Some("alsa_out")), now);
    }
    for _ in spec.status_requests {
        assert!(daemon.step(written(), now).is_empty());
    }
    assert_eq!(daemon.question(), Question::Poll);
    daemon.step(Answer::Polled(false), now);
    daemon.step(Answer::Running(true), now + 1);
    assert_eq!(daemon.question(), Question::Poll);
}

#[test]
fn sinks_are_looked_at_every_three_seconds_without_events() {
    let mut daemon = running(nova_pro_wireless(), 1, false, 0);
    daemon.step(Answer::Running(true), 3 * SECOND - 1);
    assert_eq!(daemon.question(), Question::Poll);
    daemon.step(Answer::Polled(false), 3 * SECOND - 1);
    daemon.step(Answer::Running(true), 3 * SECOND);
    assert_eq!(daemon.question(), Question::Snapshot);
    assert!(daemon.step(snapshot(Some("alsa_out")), 3 * SECOND).is_empty());
    assert_eq!(daemon.question(), Question::SpawnWatch);
    daemon.step(Answer::Spawned(true), 3 * SECOND);
    assert_eq!(daemon.question(), Question::Poll);
}

#[test]
fn sinks_are_looked_at_every_thirty_seconds_with_events() {
    // The Nova 7 answers status requests; keep its polls out of the way.
    let mut spec = nova_7_percent();
    spec.status_poll_secs = 3600;
    let mut daemon = running(spec, 1, true, 0);
    daemon.step(Answer::Running(true), 30 * SECOND - 1);
    assert_eq!(daemon.question(), Question::Poll);
    daemon.step(Answer::Polled(false), 30 * SECOND - 1);
    daemon.step(Answer::Running(true), 30 * SECOND);
    assert_eq!(daemon.question(), Question::Snapshot);
    daemon.step(snapshot(Some("alsa_out")), 30 * SECOND);
    assert_eq!(daemon.question(), Question::Poll);
}

#[test]
fn a_change_event_leads_to_a_look_at_the_sinks() {
    let mut daemon = running(nova_pro_wireless(), 1, true, 0);
    wait(&mut daemon, 1);
    assert_eq!(daemon.question(), Question::Drain);
    daemon.step(Answer::Drained(WatchEvent::Changed), 1);
    assert_eq!(daemon.question(), Question::Snapshot);
    assert_eq!(
        daemon.step(snapshot(None), 1),
        [
            log("Arctis audio sink disappeared, removing virtual sinks"),
            Deed::Act(Action::TeardownSinks),
        ]
    );
    assert_eq!(daemon.question(), Question::NodeReady(0));
}

#[test]
fn an_event_stream_that_ends_is_closed() {
    let mut daemon = running(nova_pro_wireless(), 1, true, 0);
    wait(&mut daemon, 1);
    assert_eq!(
        daemon.step(Answer::Drained(WatchEvent::Ended), 1),
        [log("PipeWire event stream ended, falling back to sink polling"), Deed::DropWatch]
    );
    assert_eq!(daemon.question(), Question::NodeReady(0));
    daemon.step(Answer::Ready(false), 1);
    wait(&mut daemon, 2);
    assert_eq!(daemon.question(), Question::NodeReady(0));
}

#[test]
fn a_status_report_reaches_the_session() {
    let mut daemon = running(nova_pro_wireless(), 1, false, 0);
    wait(&mut daemon, 1);
    daemon.step(Answer::Ready(true), 1);
    let mut bytes = [0u8; 64];
    bytes[0] = 0x06;
    bytes[1] = 0xb0;
    bytes[6] = 0x02;
    bytes[15] = 0x08;
    assert_eq!(
        daemon.step(report(&bytes), 1),
        [
            log("headset online, battery 25%"),
            log("LOW BATTERY: headset at 25%"),
            Deed::Act(Action::NotifyLowBattery(25)),
        ]
    );
    assert_eq!(daemon.session.online, Some(true));
    assert_eq!(daemon.question(), Question::NodeReady(0));
}

#[test]
fn an_answer_to_something_else_changes_nothing() {
    let mut daemon = running(nova_pro_wireless(), 1, false, 0);
    for answer in [
        written(),
        snapshot(None),
        Answer::DefaultSink(None),
        Answer::Setup(Ok(())),
        Answer::Restored(true),
        Answer::Spawned(true),
        Answer::Polled(true),
        Answer::Drained(WatchEvent::Ended),
        Answer::Ready(true),
        report(&[]),
    ] {
        assert!(daemon.step(answer, 1).is_empty());
        assert_eq!(daemon.question(), Question::Running);
        assert!(!daemon.watching);
    }
}

#[test]
fn times_are_compared_in_whole_nanoseconds() {
    assert!(due(5, 5 + SECOND, 1));
    assert!(!due(5, 4 + SECOND, 1));
    assert!(due(5, 4, 0));
    assert!(!due(5, 4, 1));
    assert!(!due(0, u64::MAX, u64::MAX));
}

#[test]
fn the_default_is_looked_at_before_it_is_claimed_again() {
    let mut daemon = running(nova_pro_wireless(), 1, false, 0);
    let power = |state: u8| {
        let mut bytes = [0u8; 64];
        bytes[0] = 0x06;
        bytes[1] = 0xb0;
        bytes[6] = 0x08;
        bytes[15] = state;
        report(&bytes)
    };
    wait(&mut daemon, 1);
    daemon.step(Answer::Ready(true), 1);
    // The first report says that the headset is off.
    assert_eq!(daemon.step(power(0x01), 1), [log("headset offline, battery 100%")]);
    assert_eq!(daemon.question(), Question::DefaultSink);
    daemon.step(Answer::DefaultSink(Some("Arctis Game".to_string())), 1);
    assert_eq!(daemon.question(), Question::RestoreDefault("speakers".to_string()));
    assert!(daemon.step(Answer::Restored(true), 1).is_empty());
    assert_eq!(daemon.question(), Question::NodeReady(0));

    daemon.step(Answer::Ready(true), 1);
    assert_eq!(
        daemon.step(power(0x08), 1),
        [
            log("headset powered on (battery 100%), claiming default sink"),
            Deed::Act(Action::SetMix(100, 100)),
        ]
    );
    assert_eq!(daemon.question(), Question::DefaultSink);
    assert_eq!(
        daemon.step(Answer::DefaultSink(Some("usb-dac".to_string())), 1),
        [Deed::Act(Action::SetDefaultSink("Arctis Game".to_string()))]
    );
    assert_eq!(daemon.question(), Question::NodeReady(0));

    daemon.step(Answer::Ready(true), 1);
    daemon.step(power(0x01), 1);
    daemon.step(Answer::DefaultSink(Some("Arctis Game".to_string())), 1);
    assert_eq!(daemon.question(), Question::RestoreDefault("usb-dac".to_string()));
}
