use arctis_chatmix::catalog::{
    arctis_7_plus, nova_5, nova_7_discrete, nova_7_percent, nova_elite, nova_pro_wired,
    nova_pro_wireless, specs,
};
use arctis_chatmix::devices::{
    frame_command, parse_report, Collected, Field, REPORT_LEN, VENDOR_ID,
};

#[test]
fn no_duplicate_product_ids() {
    let mut all: Vec<u16> = specs().iter().flat_map(|s| s.product_ids.iter().copied()).collect();
    let n = all.len();
    all.sort_unstable();
    all.dedup();
    assert_eq!(n, all.len());
}

/// The udev rules that give a user access to the headsets, one line for each product.
const RULES: &str = r#"# Access to the hidraw nodes of SteelSeries Arctis headsets.
KERNEL=="hidraw*", ATTRS{idVendor}=="1038", ATTRS{idProduct}=="12e0", TAG+="uaccess"
KERNEL=="hidraw*", ATTRS{idVendor}=="1038", ATTRS{idProduct}=="12e5", TAG+="uaccess"
KERNEL=="hidraw*", ATTRS{idVendor}=="1038", ATTRS{idProduct}=="225d", TAG+="uaccess"
KERNEL=="hidraw*", ATTRS{idVendor}=="1038", ATTRS{idProduct}=="12cd", TAG+="uaccess"
KERNEL=="hidraw*", ATTRS{idVendor}=="1038", ATTRS{idProduct}=="12cb", TAG+="uaccess"
KERNEL=="hidraw*", ATTRS{idVendor}=="1038", ATTRS{idProduct}=="2202", TAG+="uaccess"
KERNEL=="hidraw*", ATTRS{idVendor}=="1038", ATTRS{idProduct}=="2206", TAG+="uaccess"
KERNEL=="hidraw*", ATTRS{idVendor}=="1038", ATTRS{idProduct}=="22a4", TAG+="uaccess"
KERNEL=="hidraw*", ATTRS{idVendor}=="1038", ATTRS{idProduct}=="223a", TAG+="uaccess"
KERNEL=="hidraw*", ATTRS{idVendor}=="1038", ATTRS{idProduct}=="227a", TAG+="uaccess"
KERNEL=="hidraw*", ATTRS{idVendor}=="1038", ATTRS{idProduct}=="22ab", TAG+="uaccess"
KERNEL=="hidraw*", ATTRS{idVendor}=="1038", ATTRS{idProduct}=="22a1", TAG+="uaccess"
KERNEL=="hidraw*", ATTRS{idVendor}=="1038", ATTRS{idProduct}=="227e", TAG+="uaccess"
KERNEL=="hidraw*", ATTRS{idVendor}=="1038", ATTRS{idProduct}=="2258", TAG+="uaccess"
KERNEL=="hidraw*", ATTRS{idVendor}=="1038", ATTRS{idProduct}=="229e", TAG+="uaccess"
KERNEL=="hidraw*", ATTRS{idVendor}=="1038", ATTRS{idProduct}=="22a9", TAG+="uaccess"
KERNEL=="hidraw*", ATTRS{idVendor}=="1038", ATTRS{idProduct}=="22a5", TAG+="uaccess"
KERNEL=="hidraw*", ATTRS{idVendor}=="1038", ATTRS{idProduct}=="220e", TAG+="uaccess"
KERNEL=="hidraw*", ATTRS{idVendor}=="1038", ATTRS{idProduct}=="2212", TAG+="uaccess"
KERNEL=="hidraw*", ATTRS{idVendor}=="1038", ATTRS{idProduct}=="2216", TAG+="uaccess"
KERNEL=="hidraw*", ATTRS{idVendor}=="1038", ATTRS{idProduct}=="2236", TAG+="uaccess"
KERNEL=="hidraw*", ATTRS{idVendor}=="1038", ATTRS{idProduct}=="2232", TAG+="uaccess"
KERNEL=="hidraw*", ATTRS{idVendor}=="1038", ATTRS{idProduct}=="2253", TAG+="uaccess"
KERNEL=="hidraw*", ATTRS{idVendor}=="1038", ATTRS{idProduct}=="2264", TAG+="uaccess"
KERNEL=="hidraw*", ATTRS{idVendor}=="1038", ATTRS{idProduct}=="2244", TAG+="uaccess"
"#;

#[test]
fn udev_rules_cover_all_product_ids() {
    let mut in_rules: Vec<u16> = RULES
        .lines()
        .filter(|l| !l.trim().is_empty() && !l.starts_with('#'))
        .map(|l| {
            let vendor = l
                .split("ATTRS{idVendor}==\"")
                .nth(1)
                .and_then(|s| s.split('"').next())
                .unwrap_or_else(|| panic!("no idVendor in rule line: {l}"));
            assert_eq!(
                u16::from_str_radix(vendor, 16).unwrap(),
                VENDOR_ID,
                "wrong vendor in rule line: {l}"
            );
            let product = l
                .split("ATTRS{idProduct}==\"")
                .nth(1)
                .and_then(|s| s.split('"').next())
                .unwrap_or_else(|| panic!("no idProduct in rule line: {l}"));
            u16::from_str_radix(product, 16).unwrap()
        })
        .collect();
    let mut in_specs: Vec<u16> =
        specs().iter().flat_map(|s| s.product_ids.iter().copied()).collect();
    in_rules.sort_unstable();
    in_specs.sort_unstable();
    assert_eq!(in_rules, in_specs, "the udev rules are out of sync with the catalog");
}

#[test]
fn frame_command_numbered() {
    let framed = frame_command(&[0x06, 0xb0], false);
    assert_eq!(framed.len(), REPORT_LEN);
    assert_eq!(&framed[..2], &[0x06, 0xb0]);
    assert!(framed[2..].iter().all(|&b| b == 0));
}

#[test]
fn frame_command_unnumbered_prepends_zero_report_id() {
    let framed = frame_command(&[0xb0], true);
    assert_eq!(framed.len(), REPORT_LEN + 1);
    assert_eq!(&framed[..2], &[0x00, 0xb0]);
    assert!(framed[2..].iter().all(|&b| b == 0));
}

#[test]
fn all_commands_fit_report() {
    for spec in specs() {
        for cmd in spec.init.iter().chain(spec.status_requests) {
            assert!(cmd.len() <= REPORT_LEN, "{}: command too long", spec.name);
        }
    }
}

/// Captured live: headset online, battery 7/8, ANC off, mic unmuted, 30 min auto-off,
/// range mode, paired and connected.
const NPW_STATUS: [u8; 16] = [
    0x06, 0xb0, 0x00, 0x00, 0x01, 0x00, 0x07, 0x08, 0x01, 0x00, 0x00, 0x0a, 0x05, 0x01, 0x08, 0x08,
];

#[test]
fn nova_pro_wireless_status_parses() {
    let spec = nova_pro_wireless();
    let f = parse_report(&spec, &NPW_STATUS);
    assert_eq!(f.get(Field::Power), Some(0x08));
    assert!(spec.is_online(0x08));
    assert!(!spec.is_charging(&f));
    assert_eq!(spec.battery_percent(f.get(Field::Battery).unwrap()), 87);
    assert_eq!(spec.battery_percent(f.get(Field::SlotBattery).unwrap()), 100);
    assert_eq!(f.get(Field::MicMuted), Some(0x00));
    let d = |f: &Collected, field: Field| spec.describe(f, field);
    assert_eq!(d(&f, Field::Power).as_deref(), Some("online"));
    assert_eq!(d(&f, Field::Anc).as_deref(), Some("off (transparency level 1/10)"));
    assert_eq!(d(&f, Field::WirelessMode).as_deref(), Some("range mode, connected"));
    assert_eq!(d(&f, Field::AutoOff).as_deref(), Some("30 minutes"));
    assert_eq!(d(&f, Field::BtConnection).as_deref(), Some("off"));
}

#[test]
fn nova_pro_wireless_wheel_parses() {
    let mut report = [0u8; REPORT_LEN];
    report[..4].copy_from_slice(&[0x07, 0x45, 60, 100]);
    let f = parse_report(&nova_pro_wireless(), &report);
    assert_eq!(f.get(Field::GameMix), Some(60));
    assert_eq!(f.get(Field::ChatMix), Some(100));
}

#[test]
fn nova_7_dial_and_status_parse() {
    let percent = nova_7_percent();
    let f = parse_report(&percent, &[0x45, 30, 80]);
    assert_eq!(f.get(Field::GameMix), Some(30));
    assert_eq!(f.get(Field::ChatMix), Some(80));

    let status = [0xb0, 0x03, 64, 0x01, 100, 100, 0x02, 0x00, 0x00, 0x01];
    let f = parse_report(&percent, &status);
    assert!(percent.is_online(f.get(Field::Power).unwrap()));
    assert_eq!(percent.battery_percent(64), 64);
    assert_eq!(percent.battery_percent(100), 100);
    assert_eq!(nova_7_discrete().battery_percent(2), 50);
    assert!(percent.is_charging(&f));
    assert_eq!(f.get(Field::MicMuted), Some(0x01));
    assert_eq!(f.get(Field::GameMix), Some(100));
}

#[test]
fn arctis_7_plus_status_parses() {
    let spec = arctis_7_plus();
    let f = parse_report(&spec, &[0xb0, 0x00, 3, 0x00, 40, 60]);
    assert!(spec.is_online(f.get(Field::Power).unwrap()));
    assert_eq!(spec.battery_percent(3), 75);
    assert!(!spec.is_charging(&f));
    assert_eq!(f.get(Field::GameMix), Some(40));
    assert_eq!(f.get(Field::ChatMix), Some(60));
    assert!(!spec.is_online(0x01));
}

#[test]
fn nova_5_has_no_chatmix() {
    let spec = nova_5();
    assert!(!spec.has_chatmix());
    let f = parse_report(&spec, &[0xb0, 0x03, 85, 0x03]);
    assert!(spec.is_online(0x03));
    assert_eq!(spec.battery_percent(85), 85);
    assert!(!spec.is_charging(&f));
    let f = parse_report(&spec, &[0x36, 0x01]);
    assert_eq!(spec.describe(&f, Field::WirelessMode).as_deref(), Some("speed"));
}

#[test]
fn nova_elite_multi_frame_status() {
    let spec = nova_elite();
    let mut all = Collected::default();
    all.merge(&parse_report(&spec, &[0x07, 0xb5, 0x00, 0x01, 0x08]));
    all.merge(&parse_report(&spec, &[0x07, 0xb7, 90, 100, 0x08]));
    all.merge(&parse_report(&spec, &[0x07, 0xbb, 0x01]));
    all.merge(&parse_report(&spec, &[0x07, 0x45, 25, 75]));
    assert!(spec.is_online(all.get(Field::Power).unwrap()));
    assert_eq!(spec.battery_percent(all.get(Field::Battery).unwrap()), 90);
    assert!(!spec.is_charging(&all));
    assert_eq!(all.get(Field::MicMuted), Some(0x01));
    assert_eq!(all.get(Field::GameMix), Some(25));
    assert_eq!(spec.describe(&all, Field::BtConnection).as_deref(), Some("connected"));
}

#[test]
fn unmatched_reports_yield_nothing() {
    assert!(parse_report(&nova_pro_wireless(), &[0x01, 0x02, 0x03]).is_empty());
    assert!(parse_report(&nova_7_percent(), &[]).is_empty());
    assert!(parse_report(&nova_elite(), &[0x07]).is_empty());
}

#[test]
fn a_long_command_is_cut_to_the_report() {
    let long = [7u8; 70];
    assert_eq!(frame_command(&long, false), vec![7u8; 64]);
    let unnumbered = frame_command(&long, true);
    assert_eq!(unnumbered.len(), 65);
    assert_eq!(unnumbered[0], 0);
    assert!(unnumbered[1..].iter().all(|&b| b == 7));
}

#[test]
fn collected_keeps_the_latest_value_of_a_field() {
    let mut c = Collected::default();
    assert!(c.is_empty());
    c.insert(Field::Battery, 3);
    c.insert(Field::Power, 8);
    c.insert(Field::Battery, 5);
    assert!(!c.is_empty());
    assert_eq!(c.get(Field::Battery), Some(5));
    assert_eq!(c.get(Field::Power), Some(8));
    assert_eq!(c.get(Field::Anc), None);
}

#[test]
fn short_reports_yield_the_fields_that_fit() {
    let f = parse_report(&nova_pro_wireless(), &[0x07, 0x45, 60]);
    assert_eq!(f.get(Field::GameMix), Some(60));
    assert_eq!(f.get(Field::ChatMix), None);
}

#[test]
fn battery_percent_is_capped_and_zero_without_a_battery() {
    assert_eq!(nova_pro_wireless().battery_percent(200), 100);
    assert_eq!(nova_pro_wireless().battery_percent(0), 0);
    assert_eq!(nova_pro_wired().battery_percent(5), 0);
}

#[test]
fn charging_is_read_from_power_where_there_is_no_charging_field() {
    let spec = nova_pro_wireless();
    let mut c = Collected::default();
    assert!(!spec.is_charging(&c));
    c.insert(Field::Power, 0x02);
    assert!(spec.is_charging(&c));
    let elite = nova_elite();
    c.insert(Field::Charging, 0x01);
    assert!(!elite.is_charging(&c));
    c.insert(Field::Charging, 0x02);
    assert!(elite.is_charging(&c));
}

#[test]
fn unknown_values_are_described_in_hexadecimal() {
    let mut c = Collected::default();
    c.insert(Field::Power, 0x2b);
    assert_eq!(nova_elite().describe(&c, Field::Power).as_deref(), Some("unknown (0x2b)"));
    assert_eq!(nova_elite().describe(&c, Field::Anc), None);
    assert_eq!(nova_elite().describe(&c, Field::Gain), None);
}

#[test]
fn every_device_but_the_nova_5_has_chatmix_and_all_have_status() {
    for spec in specs() {
        assert_eq!(spec.has_chatmix(), spec.name != "Arctis Nova 5", "{}", spec.name);
        assert!(spec.has_status());
    }
}

#[test]
fn wired_settings_are_described() {
    let spec = nova_pro_wired();
    let mut report = [0u8; 64];
    report[0] = 0x06;
    report[1] = 0x20;
    report[4] = 0x02;
    report[16] = 7;
    report[17] = 3;
    report[18] = 1;
    let f = parse_report(&spec, &report);
    assert_eq!(spec.describe(&f, Field::Gain).as_deref(), Some("high"));
    assert_eq!(spec.describe(&f, Field::MicVolume).as_deref(), Some("7/10"));
    assert_eq!(spec.describe(&f, Field::SideTone).as_deref(), Some("high"));
    assert_eq!(spec.describe(&f, Field::LineOut).as_deref(), Some("speaker"));
}

#[test]
fn bluetooth_of_the_nova_pro_wireless_depends_on_its_power() {
    let spec = nova_pro_wireless();
    let mut c = Collected::default();
    c.insert(Field::BtConnection, 0x01);
    assert_eq!(spec.describe(&c, Field::BtConnection).as_deref(), Some("off"));
    c.insert(Field::BtPower, 0x00);
    assert_eq!(spec.describe(&c, Field::BtConnection).as_deref(), Some("on, connected"));
    c.insert(Field::WirelessMode, 0x00);
    assert_eq!(spec.describe(&c, Field::WirelessMode).as_deref(), Some("speed mode"));
}

#[test]
fn the_two_framings_differ_by_the_report_id() {
    for spec in specs() {
        for cmd in spec.init.iter().chain(spec.status_requests) {
            let numbered = frame_command(cmd, false);
            let unnumbered = frame_command(cmd, true);
            assert_eq!(unnumbered[0], 0);
            assert_eq!(unnumbered[1..], numbered[..]);
            assert_eq!(numbered[..cmd.len()], **cmd);
            assert!(numbered[cmd.len()..].iter().all(|b| *b == 0));
        }
    }
}

#[test]
fn the_charge_grows_with_the_raw_value() {
    for spec in specs() {
        let all: Vec<u32> = (0..=255).map(|raw| spec.battery_percent(raw)).collect();
        assert_eq!(all[0], 0);
        assert!(all.windows(2).all(|w| w[0] <= w[1]));
        assert_eq!(all[255], if spec.battery_max == 0 { 0 } else { 100 });
    }
}

#[test]
fn every_value_stands_in_the_report() {
    let mut report = [0u8; REPORT_LEN];
    for (i, byte) in report.iter_mut().enumerate() {
        *byte = i as u8;
    }
    for spec in specs() {
        for frame in spec.frames {
            let mut report = report;
            report[..frame.prefix.len()].copy_from_slice(frame.prefix);
            let values = parse_report(&spec, &report);
            for (field, offset) in frame.fields {
                assert_eq!(values.get(*field), Some(report[*offset]));
            }
        }
    }
}

#[test]
fn the_halves_of_the_mix_come_in_one_frame() {
    for spec in specs() {
        for frame in spec.frames {
            let has = |field| frame.fields.iter().any(|(f, _)| *f == field);
            assert_eq!(has(Field::GameMix), has(Field::ChatMix));
        }
    }
}
