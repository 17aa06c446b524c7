use arctis_chatmix::catalog::{nova_7_percent, nova_pro_wireless};
use arctis_chatmix::hid::{
    find_hidraw, hid_ids, phys_base, uevent_matches, WriteOutcome, WriteStep, Writer,
};

/// Captured live from an Arctis Nova Pro Wireless base station.
const REAL_UEVENT: &str = "DRIVER=hid-generic\n\
    HID_ID=0003:00001038:000012E0\n\
    HID_NAME=SteelSeries Arctis Nova Pro Wireless\n\
    HID_PHYS=usb-0000:80:14.0-10.1/input4\n\
    HID_UNIQ=\n\
    MODALIAS=hid:b0003g0001v00001038p000012E0";

#[test]
fn uevent_matches_real_device() {
    assert!(uevent_matches(REAL_UEVENT, &hid_ids(&nova_pro_wireless()), "/input4"));
}

#[test]
fn uevent_rejects_wrong_interface() {
    assert!(!uevent_matches(REAL_UEVENT, &hid_ids(&nova_pro_wireless()), "/input3"));
}

#[test]
fn uevent_rejects_other_device() {
    let other = REAL_UEVENT.replace("1038", "1532");
    assert!(!uevent_matches(&other, &hid_ids(&nova_pro_wireless()), "/input4"));
}

#[test]
fn uevent_matches_only_its_own_spec() {
    // A Nova 7 on interface 3 must not match the Nova Pro spec and vice versa.
    let nova7 = REAL_UEVENT
        .replace("12E0", "22A1")
        .replace("input4", "input3");
    assert!(!uevent_matches(&nova7, &hid_ids(&nova_pro_wireless()), "/input4"));
    assert!(uevent_matches(&nova7, &hid_ids(&nova_7_percent()), "/input3"));
}

#[test]
fn hid_ids_are_upper_case_and_padded() {
    assert_eq!(
        hid_ids(&nova_pro_wireless()),
        ["0003:00001038:000012E0", "0003:00001038:000012E5", "0003:00001038:0000225D"]
    );
}

fn node(name: &str, id: &str, phys: &str) -> (String, String) {
    (name.to_string(), format!("HID_ID=0003:00001038:{id}\nHID_PHYS={phys}\n"))
}

#[test]
fn discovery_ties_listen_nodes_to_the_same_device() {
    let entries = vec![
        node("hidraw0", "0000229E", "usb-1/input5"),
        node("hidraw1", "0000229E", "usb-2/input3"),
        node("hidraw2", "0000229E", "usb-2/input5"),
        node("hidraw3", "000012E0", "usb-3/input4"),
    ];
    let found = find_hidraw(&entries).unwrap();
    assert_eq!(found.spec.name, "Arctis Nova 7 (percent battery)");
    assert_eq!(found.command, "hidraw1");
    assert_eq!(found.extra_listen, ["hidraw2"]);
}

#[test]
fn discovery_skips_missing_listen_nodes_and_unknown_devices() {
    let entries = vec![node("hidraw0", "00001234", "usb-1/input3"), node("hidraw1", "00002244", "usb-1/input3")];
    let found = find_hidraw(&entries).unwrap();
    assert_eq!(found.spec.name, "Arctis Nova Elite");
    assert_eq!(found.command, "hidraw1");
    assert!(found.extra_listen.is_empty());
    assert!(find_hidraw(&vec![]).is_none());
    assert!(find_hidraw(&vec![node("hidraw0", "00002244", "usb-1/input4")]).is_none());
}

#[test]
fn the_physical_base_ends_before_the_last_input() {
    assert_eq!(phys_base("HID_PHYS=a/input1/b/input4\r\n"), "a/input1/b");
    assert_eq!(phys_base("HID_PHYS=plain\n"), "");
    assert_eq!(phys_base("DRIVER=x\n"), "");
    assert_eq!(phys_base(REAL_UEVENT), "usb-0000:80:14.0-10.1");
}

#[test]
fn the_last_line_with_a_key_decides() {
    let twice = "HID_ID=0003:00001038:000012E0\nHID_ID=x\nHID_PHYS=p/input4";
    assert!(!uevent_matches(twice, &hid_ids(&nova_pro_wireless()), "/input4"));
}

#[test]
fn a_rejected_write_is_tried_once_in_the_other_framing() {
    let mut w = Writer::new(&nova_pro_wireless());
    assert_eq!(w.frame(&[6, 0xb0]).len(), 64);
    assert!(matches!(w.write_command(WriteOutcome::Rejected("EINVAL".to_string())), WriteStep::Again));
    assert_eq!(w.switched(), "hidraw rejected write, switching to unnumbered report framing");
    assert_eq!(w.frame(&[6, 0xb0]).len(), 65);
    assert!(matches!(w.write_command(WriteOutcome::Written), WriteStep::Done));
    // What worked stays in use.
    assert_eq!(w.frame(&[6, 0xb0]).len(), 65);
    assert!(matches!(w.write_command(WriteOutcome::Rejected("EINVAL".to_string())), WriteStep::Again));
    assert_eq!(w.switched(), "hidraw rejected write, switching to numbered report framing");
    match w.write_command(WriteOutcome::Rejected("again".to_string())) {
        WriteStep::Failed(e) => assert_eq!(e, "again"),
        _ => panic!("a second rejection is final"),
    }
    match w.write_command(WriteOutcome::Failed("EIO".to_string())) {
        WriteStep::Failed(e) => assert_eq!(e, "EIO"),
        _ => panic!("other errors are final"),
    }
}
