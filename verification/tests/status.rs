use arctis_chatmix::catalog::{nova_elite, nova_pro_wired, nova_pro_wireless};
use arctis_chatmix::daemon::SECOND;
use arctis_chatmix::devices::{frame_command, Collected, Field};
use arctis_chatmix::hid::WriteOutcome;
use arctis_chatmix::status::{
    print_status, status_value, Inquiry, StatusAnswer, StatusQuestion,
};

fn collected(values: &[(Field, u8)]) -> Collected {
    let mut r = Collected::default();
    for (field, value) in values {
        r.insert(*field, *value);
    }
    r
}

#[test]
fn a_report_is_labelled_and_in_order() {
    let fields = collected(&[
        (Field::ChatMix, 255),
        (Field::GameMix, 60),
        (Field::MicMuted, 1),
        (Field::SlotBattery, 8),
        (Field::Battery, 7),
        (Field::Power, 0x08),
    ]);
    assert_eq!(
        print_status(&nova_pro_wireless(), &fields),
        [
            format!("device:       {}", nova_pro_wireless().name),
            "headset:      online".to_string(),
            "battery:      87%".to_string(),
            "charge slot:  100%".to_string(),
            "microphone:   muted".to_string(),
            "chatmix:      game 60% / chat 100%".to_string(),
        ]
    );
}

#[test]
fn the_padding_is_that_of_a_format_string() {
    let fields = collected(&[(Field::AutoOff, 4), (Field::BtAutoMute, 0), (Field::LineOut, 1)]);
    let spec = nova_pro_wireless();
    for line in print_status(&spec, &fields) {
        let (label, value) = line.split_once(':').unwrap();
        assert_eq!(line, format!("{:<14}{}", format!("{label}:"), value.trim_start()));
    }
}

#[test]
fn what_is_not_collected_is_not_shown() {
    let spec = nova_pro_wireless();
    assert_eq!(print_status(&spec, &collected(&[])).len(), 1);
    // Half a dial, a field without a line and one without a wording.
    assert_eq!(print_status(&spec, &collected(&[(Field::GameMix, 60)])).len(), 1);
    assert_eq!(print_status(&spec, &collected(&[(Field::ChatMix, 60)])).len(), 1);
    assert_eq!(print_status(&spec, &collected(&[(Field::Pairing, 8)])).len(), 1);
    let wired = nova_pro_wired();
    assert_eq!(print_status(&wired, &collected(&[(Field::Power, 8)])).len(), 1);
}

#[test]
fn values_are_worded() {
    let spec = nova_pro_wireless();
    let value = |values: &[(Field, u8)], field| status_value(&spec, &collected(values), field);
    assert_eq!(value(&[(Field::MicMuted, 0)], Field::MicMuted).as_deref(), Some("unmuted"));
    assert_eq!(value(&[(Field::MicMuted, 2)], Field::MicMuted).as_deref(), Some("unmuted"));
    assert_eq!(
        value(&[(Field::Battery, 4), (Field::Power, 0x02)], Field::Battery).as_deref(),
        Some("50% (charging)")
    );
    assert_eq!(value(&[(Field::Battery, 200)], Field::Battery).as_deref(), Some("100%"));
    assert_eq!(value(&[], Field::Battery), None);
    // No battery, no charge.
    assert_eq!(
        status_value(&nova_pro_wired(), &collected(&[(Field::Battery, 4)]), Field::Battery)
            .as_deref(),
        Some("0%")
    );
}

fn written() -> StatusAnswer {
    StatusAnswer::Written(WriteOutcome::Written)
}

/// A query that has written all its requests at the time 0.
fn asked() -> Inquiry {
    let mut query = Inquiry::new(nova_elite());
    for request in nova_elite().status_requests {
        let bytes = frame_command(request, nova_elite().unnumbered_reports);
        assert_eq!(query.question(), StatusQuestion::Write(bytes));
        assert_eq!(query.step(written(), 0), None);
    }
    query
}

fn failure(query: &Inquiry) -> String {
    match query.question() {
        StatusQuestion::Finished(Err(e)) => e,
        other => panic!("no failure: {other:?}"),
    }
}

#[test]
fn a_device_without_status_requests_has_no_status() {
    let mut spec = nova_pro_wired();
    spec.status_requests = &[];
    assert_eq!(
        failure(&Inquiry::new(spec)),
        format!("the {} has no status protocol", spec.name)
    );
}

#[test]
fn a_request_that_cannot_be_written_ends_the_query() {
    let mut query = Inquiry::new(nova_pro_wireless());
    query.step(StatusAnswer::Written(WriteOutcome::Failed("gone".to_string())), 0);
    assert_eq!(failure(&query), "failed to send status request");

    let mut query = Inquiry::new(nova_pro_wireless());
    let rejected = || StatusAnswer::Written(WriteOutcome::Rejected("invalid".to_string()));
    assert_eq!(
        query.step(rejected(), 0).as_deref(),
        Some("hidraw rejected write, switching to unnumbered report framing")
    );
    assert_eq!(
        query.question(),
        StatusQuestion::Write(frame_command(nova_pro_wireless().status_requests[0], true))
    );
    assert_eq!(query.step(rejected(), 0), None);
    assert_eq!(failure(&query), "failed to send status request");
}

#[test]
fn a_silent_device_is_waited_for_two_seconds() {
    let mut query = asked();
    assert_eq!(query.question(), StatusQuestion::Poll(200));
    query.step(StatusAnswer::Polled(false), 2 * SECOND - 1);
    assert_eq!(query.question(), StatusQuestion::Poll(200));
    query.step(StatusAnswer::Polled(false), 2 * SECOND);
    assert_eq!(failure(&query), "no status response from the device");
}

#[test]
fn replies_are_collected_until_the_device_is_quiet() {
    let mut query = Inquiry::new(nova_pro_wireless());
    query.step(written(), 0);
    // A reply that carries nothing does not count.
    query.step(StatusAnswer::Polled(true), 1);
    assert_eq!(query.question(), StatusQuestion::Read);
    query.step(StatusAnswer::Reply(Some(vec![0xff, 0xff])), 1);
    assert_eq!(query.question(), StatusQuestion::Poll(200));
    for (game, chat) in [(10, 20), (30, 40)] {
        query.step(StatusAnswer::Polled(true), 2);
        query.step(StatusAnswer::Reply(Some(vec![0x07, 0x45, game, chat])), 2);
        assert_eq!(query.question(), StatusQuestion::Poll(300));
    }
    query.step(StatusAnswer::Polled(false), 3);
    assert_eq!(
        query.question(),
        StatusQuestion::Finished(Ok(vec![
            format!("device:       {}", nova_pro_wireless().name),
            "chatmix:      game 30% / chat 40%".to_string(),
        ]))
    );
}

#[test]
fn a_read_that_fails_ends_the_query() {
    let mut query = asked();
    query.step(StatusAnswer::Polled(true), 1);
    query.step(StatusAnswer::Reply(None), 1);
    assert_eq!(failure(&query), "no status response from the device");
}

#[test]
fn a_device_that_keeps_talking_is_heard_for_two_seconds() {
    let mut query = Inquiry::new(nova_pro_wireless());
    query.step(written(), 5);
    query.step(StatusAnswer::Polled(true), 6);
    query.step(StatusAnswer::Reply(Some(vec![0x07, 0x45, 1, 2])), 5 + 2 * SECOND);
    assert!(matches!(query.question(), StatusQuestion::Finished(Ok(_))));
}

#[test]
fn other_answers_change_nothing_in_a_query() {
    let mut query = asked();
    assert_eq!(query.step(written(), 9 * SECOND), None);
    assert_eq!(query.step(StatusAnswer::Reply(None), 9 * SECOND), None);
    assert_eq!(query.question(), StatusQuestion::Poll(200));
}
