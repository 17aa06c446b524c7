use arctis_chatmix::audio::{
    sink_entries, snapshot_sinks, ReadStep, SinkWatch, WatchEvent, WatchRead,
};
use arctis_chatmix::catalog::{nova_5, nova_pro_wireless};

const SINKS: &str = r#"[
    {"index": 1, "name": "Arctis Game", "properties": {"node.name": "Arctis Game"}},
    {"index": 2, "name": "alsa_output.usb-SteelSeries",
     "properties": {"device.vendor.id": "0x1038", "device.product.id": "0x12e0"}},
    {"index": 3, "name": "hdmi", "properties": {"device.vendor.id": "0x10de"}},
    {"index": 4, "name": 5},
    17
]"#;

#[test]
fn sinks_are_read_from_json() {
    let entries = sink_entries(SINKS).unwrap();
    let read: Vec<(&str, &str, &str)> = entries
        .iter()
        .map(|e| (e.name.as_str(), e.vendor.as_str(), e.product.as_str()))
        .collect();
    assert_eq!(
        read,
        [
            ("Arctis Game", "", ""),
            ("alsa_output.usb-SteelSeries", "0x1038", "0x12e0"),
            ("hdmi", "0x10de", ""),
            ("", "", ""),
            ("", "", ""),
        ]
    );
}

#[test]
fn what_is_no_list_of_sinks() {
    assert!(sink_entries("").is_none());
    assert!(sink_entries("not json").is_none());
    assert!(sink_entries("{\"name\": \"Arctis Game\"}").is_none());
    assert!(sink_entries("\"text\"").is_none());
    assert!(sink_entries("[] trailing").is_none());
    assert_eq!(sink_entries("[]").unwrap().len(), 0);
}

#[test]
fn escapes_in_json_are_resolved() {
    let entries = sink_entries(r#"[{"name": "Arctis Game\n"}]"#).unwrap();
    assert_eq!(entries[0].name, "Arctis Game\n");
}

#[test]
fn a_snapshot_shows_our_sinks_and_the_real_one() {
    let snap = snapshot_sinks(&nova_pro_wireless(), SINKS).unwrap();
    assert!(snap.game);
    assert!(!snap.chat);
    assert_eq!(snap.real.as_deref(), Some("alsa_output.usb-SteelSeries"));
}

#[test]
fn the_sink_of_another_headset_is_not_the_real_one() {
    let snap = snapshot_sinks(&nova_5(), SINKS).unwrap();
    assert_eq!(snap.real, None);
}

#[test]
fn the_last_sink_of_the_headset_counts() {
    let json = r#"[
        {"name": "first", "properties": {"device.vendor.id": "0x1038", "device.product.id": "0x225d"}},
        {"name": "Arctis Chat"},
        {"name": "second", "properties": {"device.vendor.id": "0x1038", "device.product.id": "0x12e5"}},
        {"name": "other", "properties": {"device.vendor.id": "0x1038", "device.product.id": "0x12E5"}}
    ]"#;
    let snap = snapshot_sinks(&nova_pro_wireless(), json).unwrap();
    assert!(!snap.game);
    assert!(snap.chat);
    assert_eq!(snap.real.as_deref(), Some("second"));
    assert!(snapshot_sinks(&nova_pro_wireless(), "no json").is_none());
}

fn fed(text: &str) -> SinkWatch {
    let mut watch = SinkWatch::new();
    assert_eq!(watch.take(WatchRead::Bytes(text.as_bytes().to_vec())), ReadStep::More);
    watch
}

#[test]
fn changes_of_sinks_and_modules_count() {
    for line in [
        "Event 'new' on sink #57\n",
        "Event 'remove' on sink #57\n",
        "Event 'new' on module #3\n",
        "Event 'remove' on module #3\n",
        "Event 'change' on client #1\nEvent 'new' on sink #57\nEvent 'new' on client #2\n",
    ] {
        assert_eq!(fed(line).drain(false), WatchEvent::Changed, "{line}");
        assert_eq!(fed(line).drain(true), WatchEvent::Changed, "{line}");
    }
}

#[test]
fn other_events_are_quiet() {
    for line in [
        "Event 'change' on sink #57\n",
        "Event 'new' on sink-input #57\n",
        "Event 'new' on client #57\n",
        "on sink #57\n",
        "Event 'new' on sink #57",
        "Event 'new'\non sink #57\n",
        "\u{fffd}\n",
    ] {
        assert_eq!(fed(line).drain(false), WatchEvent::Quiet, "{line}");
        assert_eq!(fed(line).drain(true), WatchEvent::Ended, "{line}");
    }
    assert_eq!(SinkWatch::new().drain(false), WatchEvent::Quiet);
    assert_eq!(SinkWatch::new().drain(true), WatchEvent::Ended);
}

#[test]
fn an_event_may_come_in_parts() {
    let text = "Event 'new' on sink #57\n";
    for cut in 1..text.len() {
        let mut watch = fed(&text[..cut]);
        assert_eq!(watch.drain(false), WatchEvent::Quiet);
        watch.take(WatchRead::Bytes(text.as_bytes()[cut..].to_vec()));
        assert_eq!(watch.drain(false), WatchEvent::Changed);
        assert_eq!(watch.drain(false), WatchEvent::Quiet);
    }
}

#[test]
fn reads_go_on_until_nothing_is_pending() {
    let mut watch = SinkWatch::new();
    assert_eq!(watch.take(WatchRead::Bytes(vec![1])), ReadStep::More);
    assert_eq!(watch.take(WatchRead::Blocked), ReadStep::Pause);
    assert_eq!(watch.take(WatchRead::Bytes(vec![])), ReadStep::Ended);
    assert_eq!(watch.take(WatchRead::Failed), ReadStep::Ended);
}
