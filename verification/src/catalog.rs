//! The supported headsets.
use vstd::prelude::*;

use crate::devices::{carries, DeviceSpec, Field, Frame, REPORT_LEN};
use crate::labels::Labels;
use crate::text::starts_with;

verus! {

/// The bytes of a list of commands.
pub open spec fn commands(list: Seq<&'static [u8]>) -> Seq<Seq<u8>> {
    list.map_values(|c: &'static [u8]| c@)
}

/// `frame` has this prefix and these fields.
pub open spec fn frame_is(frame: Frame, prefix: Seq<u8>, fields: Seq<(Field, usize)>) -> bool {
    frame.prefix@ =~= prefix && frame.fields@ =~= fields
}

/// Arctis Nova Pro Wireless. The commands `8d 01` and `49 01` enable Sonar mode and
/// ChatMix; without them the wheel button does not switch to ChatMix.
pub open spec fn is_nova_pro_wireless(s: DeviceSpec) -> bool {
    &&& s.name@ == "Arctis Nova Pro Wireless"@
    &&& s.product_ids@ =~= seq![0x12e0, 0x12e5, 0x225d]
    &&& s.command_interface == 4
    &&& s.extra_listen_interfaces@ =~= seq![]
    &&& s.unnumbered_reports == false
    &&& commands(s.init@) =~~= seq![
        seq![0x06, 0x20],
        seq![0x06, 0x10],
        seq![0x06, 0x3b],
        seq![0x06, 0x8d, 0x01],
        seq![0x06, 0x80],
        seq![0x06, 0x85, 0x0a],
        seq![0x06, 0xb2],
        seq![0x06, 0x47, 0x64, 0x00, 0x64],
        seq![0x06, 0x83, 0x01],
        seq![0x06, 0x89, 0x00],
        seq![0x06, 0xb3, 0x00],
        seq![0x06, 0x43, 0x01],
        seq![0x06, 0x69, 0x00],
        seq![0x06, 0x3b, 0x00],
        seq![0x06, 0x8d, 0x01],
        seq![0x06, 0x49, 0x01],
        seq![0x06, 0xb7, 0x00],
    ]
    &&& commands(s.status_requests@) =~~= seq![seq![0x06, 0xb0]]
    &&& s.status_poll_secs == 10
    &&& s.frames@.len() == 2
    &&& frame_is(s.frames@[0], seq![0x07, 0x45], seq![(Field::GameMix, 2), (Field::ChatMix, 3)])
    &&& frame_is(
        s.frames@[1],
        seq![0x06, 0xb0],
        seq![
            (Field::BtPower, 4),
            (Field::BtConnection, 5),
            (Field::Battery, 6),
            (Field::SlotBattery, 7),
            (Field::Transparency, 8),
            (Field::MicMuted, 9),
            (Field::Anc, 10),
            (Field::AutoOff, 12),
            (Field::WirelessMode, 13),
            (Field::Pairing, 14),
            (Field::Power, 15),
        ],
    )
    &&& s.battery_max == 8
    &&& s.power_online@ =~= seq![0x08]
    &&& s.power_charging@ =~= seq![0x02]
    &&& s.charging_on@ =~= seq![]
    &&& s.labels == Labels::NovaProWireless
}

/// Arctis Nova Pro Wireless. The commands `8d 01` and `49 01` enable Sonar mode and
/// ChatMix; without them the wheel button does not switch to ChatMix.
pub fn nova_pro_wireless() -> (s: DeviceSpec)
    ensures
        is_nova_pro_wireless(s),
{
    DeviceSpec {
        name: "Arctis Nova Pro Wireless",
        product_ids: &[0x12e0, 0x12e5, 0x225d],
        command_interface: 4,
        extra_listen_interfaces: &[],
        unnumbered_reports: false,
        init: &[
            &[0x06, 0x20],
            &[0x06, 0x10],
            &[0x06, 0x3b],
            &[0x06, 0x8d, 0x01],
            &[0x06, 0x80],
            &[0x06, 0x85, 0x0a],
            &[0x06, 0xb2],
            &[0x06, 0x47, 0x64, 0x00, 0x64],
            &[0x06, 0x83, 0x01],
            &[0x06, 0x89, 0x00],
            &[0x06, 0xb3, 0x00],
            &[0x06, 0x43, 0x01],
            &[0x06, 0x69, 0x00],
            &[0x06, 0x3b, 0x00],
            &[0x06, 0x8d, 0x01],
            &[0x06, 0x49, 0x01],
            &[0x06, 0xb7, 0x00],
        ],
        status_requests: &[&[0x06, 0xb0]],
        status_poll_secs: 10,
        frames: &[
            Frame { prefix: &[0x07, 0x45], fields: &[(Field::GameMix, 2), (Field::ChatMix, 3)] },
            Frame {
                prefix: &[0x06, 0xb0],
                fields: &[
                    (Field::BtPower, 4),
                    (Field::BtConnection, 5),
                    (Field::Battery, 6),
                    (Field::SlotBattery, 7),
                    (Field::Transparency, 8),
                    (Field::MicMuted, 9),
                    (Field::Anc, 10),
                    (Field::AutoOff, 12),
                    (Field::WirelessMode, 13),
                    (Field::Pairing, 14),
                    (Field::Power, 15),
                ],
            },
        ],
        battery_max: 8,
        power_online: &[0x08],
        power_charging: &[0x02],
        charging_on: &[],
        labels: Labels::NovaProWireless,
    }
}

/// Arctis Nova Pro with the wired GameDAC. The response `06 20` carries the current
/// settings; there is no battery.
pub open spec fn is_nova_pro_wired(s: DeviceSpec) -> bool {
    &&& s.name@ == "Arctis Nova Pro (wired GameDAC Gen 2)"@
    &&& s.product_ids@ =~= seq![0x12cd, 0x12cb]
    &&& s.command_interface == 4
    &&& s.extra_listen_interfaces@ =~= seq![]
    &&& s.unnumbered_reports == false
    &&& commands(s.init@) =~~= seq![
        seq![0x06, 0x10],
        seq![0x06, 0x20],
        seq![0x06, 0x80],
        seq![0x06, 0x18],
        seq![0x06, 0x49, 0x01],
        seq![0x06, 0x8d, 0x01],
    ]
    &&& commands(s.status_requests@) =~~= seq![seq![0x06, 0x20]]
    &&& s.status_poll_secs == 10
    &&& s.frames@.len() == 2
    &&& frame_is(s.frames@[0], seq![0x07, 0x45], seq![(Field::GameMix, 2), (Field::ChatMix, 3)])
    &&& frame_is(
        s.frames@[1],
        seq![0x06, 0x20],
        seq![
            (Field::Gain, 4),
            (Field::MicVolume, 16),
            (Field::SideTone, 17),
            (Field::LineOut, 18),
        ],
    )
    &&& s.battery_max == 0
    &&& s.power_online@ =~= seq![]
    &&& s.power_charging@ =~= seq![]
    &&& s.charging_on@ =~= seq![]
    &&& s.labels == Labels::NovaProWired
}

/// Arctis Nova Pro with the wired GameDAC. The response `06 20` carries the current
/// settings; there is no battery.
pub fn nova_pro_wired() -> (s: DeviceSpec)
    ensures
        is_nova_pro_wired(s),
{
    DeviceSpec {
        name: "Arctis Nova Pro (wired GameDAC Gen 2)",
        product_ids: &[0x12cd, 0x12cb],
        command_interface: 4,
        extra_listen_interfaces: &[],
        unnumbered_reports: false,
        init: &[
            &[0x06, 0x10],
            &[0x06, 0x20],
            &[0x06, 0x80],
            &[0x06, 0x18],
            &[0x06, 0x49, 0x01],
            &[0x06, 0x8d, 0x01],
        ],
        status_requests: &[&[0x06, 0x20]],
        status_poll_secs: 10,
        frames: &[
            Frame { prefix: &[0x07, 0x45], fields: &[(Field::GameMix, 2), (Field::ChatMix, 3)] },
            Frame {
                prefix: &[0x06, 0x20],
                fields: &[
                    (Field::Gain, 4),
                    (Field::MicVolume, 16),
                    (Field::SideTone, 17),
                    (Field::LineOut, 18),
                ],
            },
        ],
        battery_max: 0,
        power_online: &[],
        power_charging: &[],
        charging_on: &[],
        labels: Labels::NovaProWired,
    }
}

/// Arctis Nova 7 with the older firmware, which reports the battery in four steps.
pub open spec fn is_nova_7_discrete(s: DeviceSpec) -> bool {
    &&& s.name@ == "Arctis Nova 7 (discrete battery)"@
    &&& s.product_ids@ =~= seq![0x2202, 0x2206, 0x22a4, 0x223a, 0x227a, 0x22ab]
    &&& s.command_interface == 3
    &&& s.extra_listen_interfaces@ =~= seq![5]
    &&& s.unnumbered_reports == true
    &&& commands(s.init@) =~~= seq![seq![0x10], seq![0x09]]
    &&& commands(s.status_requests@) =~~= seq![seq![0xb0]]
    &&& s.status_poll_secs == 10
    &&& s.frames@.len() == 2
    &&& frame_is(s.frames@[0], seq![0x45], seq![(Field::GameMix, 1), (Field::ChatMix, 2)])
    &&& frame_is(
        s.frames@[1],
        seq![0xb0],
        seq![
            (Field::Power, 1),
            (Field::Battery, 2),
            (Field::Charging, 3),
            (Field::GameMix, 4),
            (Field::ChatMix, 5),
            (Field::BtConnection, 6),
            (Field::BtPower, 7),
            (Field::BtAutoMute, 8),
            (Field::MicMuted, 9),
        ],
    )
    &&& s.battery_max == 4
    &&& s.power_online@ =~= seq![0x03]
    &&& s.power_charging@ =~= seq![]
    &&& s.charging_on@ =~= seq![0x01]
    &&& s.labels == Labels::Nova7
}

/// Arctis Nova 7 with the older firmware, which reports the battery in four steps.
pub fn nova_7_discrete() -> (s: DeviceSpec)
    ensures
        is_nova_7_discrete(s),
{
    DeviceSpec {
        name: "Arctis Nova 7 (discrete battery)",
        product_ids: &[0x2202, 0x2206, 0x22a4, 0x223a, 0x227a, 0x22ab],
        command_interface: 3,
        extra_listen_interfaces: &[5],
        unnumbered_reports: true,
        init: &[&[0x10], &[0x09]],
        status_requests: &[&[0xb0]],
        status_poll_secs: 10,
        frames: &[
            Frame { prefix: &[0x45], fields: &[(Field::GameMix, 1), (Field::ChatMix, 2)] },
            Frame {
                prefix: &[0xb0],
                fields: &[
                    (Field::Power, 1),
                    (Field::Battery, 2),
                    (Field::Charging, 3),
                    (Field::GameMix, 4),
                    (Field::ChatMix, 5),
                    (Field::BtConnection, 6),
                    (Field::BtPower, 7),
                    (Field::BtAutoMute, 8),
                    (Field::MicMuted, 9),
                ],
            },
        ],
        battery_max: 4,
        power_online: &[0x03],
        power_charging: &[],
        charging_on: &[0x01],
        labels: Labels::Nova7,
    }
}

/// Arctis Nova 7 with the newer firmware, which reports the battery in percent.
pub open spec fn is_nova_7_percent(s: DeviceSpec) -> bool {
    &&& s.name@ == "Arctis Nova 7 (percent battery)"@
    &&& s.product_ids@ =~= seq![0x22a1, 0x227e, 0x2258, 0x229e, 0x22a9, 0x22a5]
    &&& s.command_interface == 3
    &&& s.extra_listen_interfaces@ =~= seq![5]
    &&& s.unnumbered_reports == true
    &&& commands(s.init@) =~~= seq![seq![0x10], seq![0x09]]
    &&& commands(s.status_requests@) =~~= seq![seq![0xb0]]
    &&& s.status_poll_secs == 10
    &&& s.frames@.len() == 2
    &&& frame_is(s.frames@[0], seq![0x45], seq![(Field::GameMix, 1), (Field::ChatMix, 2)])
    &&& frame_is(
        s.frames@[1],
        seq![0xb0],
        seq![
            (Field::Power, 1),
            (Field::Battery, 2),
            (Field::Charging, 3),
            (Field::GameMix, 4),
            (Field::ChatMix, 5),
            (Field::BtConnection, 6),
            (Field::BtPower, 7),
            (Field::BtAutoMute, 8),
            (Field::MicMuted, 9),
        ],
    )
    &&& s.battery_max == 100
    &&& s.power_online@ =~= seq![0x03]
    &&& s.power_charging@ =~= seq![]
    &&& s.charging_on@ =~= seq![0x01]
    &&& s.labels == Labels::Nova7
}

/// Arctis Nova 7 with the newer firmware, which reports the battery in percent.
pub fn nova_7_percent() -> (s: DeviceSpec)
    ensures
        is_nova_7_percent(s),
{
    DeviceSpec {
        name: "Arctis Nova 7 (percent battery)",
        product_ids: &[0x22a1, 0x227e, 0x2258, 0x229e, 0x22a9, 0x22a5],
        command_interface: 3,
        extra_listen_interfaces: &[5],
        unnumbered_reports: true,
        init: &[&[0x10], &[0x09]],
        status_requests: &[&[0xb0]],
        status_poll_secs: 10,
        frames: &[
            Frame { prefix: &[0x45], fields: &[(Field::GameMix, 1), (Field::ChatMix, 2)] },
            Frame {
                prefix: &[0xb0],
                fields: &[
                    (Field::Power, 1),
                    (Field::Battery, 2),
                    (Field::Charging, 3),
                    (Field::GameMix, 4),
                    (Field::ChatMix, 5),
                    (Field::BtConnection, 6),
                    (Field::BtPower, 7),
                    (Field::BtAutoMute, 8),
                    (Field::MicMuted, 9),
                ],
            },
        ],
        battery_max: 100,
        power_online: &[0x03],
        power_charging: &[],
        charging_on: &[0x01],
        labels: Labels::Nova7,
    }
}

/// Arctis 7+. The dial may be reported in the status frame alone, so the status is
/// polled often enough for the dial to feel responsive.
pub open spec fn is_arctis_7_plus(s: DeviceSpec) -> bool {
    &&& s.name@ == "Arctis 7+"@
    &&& s.product_ids@ =~= seq![0x220e, 0x2212, 0x2216, 0x2236]
    &&& s.command_interface == 3
    &&& s.extra_listen_interfaces@ =~= seq![5]
    &&& s.unnumbered_reports == true
    &&& commands(s.init@) =~~= seq![]
    &&& commands(s.status_requests@) =~~= seq![seq![0xb0]]
    &&& s.status_poll_secs == 2
    &&& s.frames@.len() == 2
    &&& frame_is(s.frames@[0], seq![0x45], seq![(Field::GameMix, 1), (Field::ChatMix, 2)])
    &&& frame_is(
        s.frames@[1],
        seq![0xb0],
        seq![
            (Field::Power, 1),
            (Field::Battery, 2),
            (Field::Charging, 3),
            (Field::GameMix, 4),
            (Field::ChatMix, 5),
        ],
    )
    &&& s.battery_max == 4
    &&& s.power_online@ =~= seq![0x00, 0x02, 0x03]
    &&& s.power_charging@ =~= seq![]
    &&& s.charging_on@ =~= seq![0x01]
    &&& s.labels == Labels::Arctis7Plus
}

/// Arctis 7+. The dial may be reported in the status frame alone, so the status is
/// polled often enough for the dial to feel responsive.
pub fn arctis_7_plus() -> (s: DeviceSpec)
    ensures
        is_arctis_7_plus(s),
{
    DeviceSpec {
        name: "Arctis 7+",
        product_ids: &[0x220e, 0x2212, 0x2216, 0x2236],
        command_interface: 3,
        extra_listen_interfaces: &[5],
        unnumbered_reports: true,
        init: &[],
        status_requests: &[&[0xb0]],
        status_poll_secs: 2,
        frames: &[
            Frame { prefix: &[0x45], fields: &[(Field::GameMix, 1), (Field::ChatMix, 2)] },
            Frame {
                prefix: &[0xb0],
                fields: &[
                    (Field::Power, 1),
                    (Field::Battery, 2),
                    (Field::Charging, 3),
                    (Field::GameMix, 4),
                    (Field::ChatMix, 5),
                ],
            },
        ],
        battery_max: 4,
        power_online: &[0x00, 0x02, 0x03],
        power_charging: &[],
        charging_on: &[0x01],
        labels: Labels::Arctis7Plus,
    }
}

/// Arctis Nova 5. No ChatMix report is known for this family.
pub open spec fn is_nova_5(s: DeviceSpec) -> bool {
    &&& s.name@ == "Arctis Nova 5"@
    &&& s.product_ids@ =~= seq![0x2232, 0x2253, 0x2264]
    &&& s.command_interface == 3
    &&& s.extra_listen_interfaces@ =~= seq![5]
    &&& s.unnumbered_reports == true
    &&& commands(s.init@) =~~= seq![seq![0x10], seq![0x36], seq![0x09]]
    &&& commands(s.status_requests@) =~~= seq![seq![0xb0], seq![0x36]]
    &&& s.status_poll_secs == 10
    &&& s.frames@.len() == 2
    &&& frame_is(
        s.frames@[0],
        seq![0xb0],
        seq![
            (Field::Power, 1),
            (Field::Battery, 2),
            (Field::Charging, 3),
        ],
    )
    &&& frame_is(s.frames@[1], seq![0x36], seq![(Field::WirelessMode, 1)])
    &&& s.battery_max == 100
    &&& s.power_online@ =~= seq![0x03]
    &&& s.power_charging@ =~= seq![]
    &&& s.charging_on@ =~= seq![0x01]
    &&& s.labels == Labels::Nova5
}

/// Arctis Nova 5. No ChatMix report is known for this family.
pub fn nova_5() -> (s: DeviceSpec)
    ensures
        is_nova_5(s),
{
    DeviceSpec {
        name: "Arctis Nova 5",
        product_ids: &[0x2232, 0x2253, 0x2264],
        command_interface: 3,
        extra_listen_interfaces: &[5],
        unnumbered_reports: true,
        init: &[&[0x10], &[0x36], &[0x09]],
        status_requests: &[&[0xb0], &[0x36]],
        status_poll_secs: 10,
        frames: &[
            Frame {
                prefix: &[0xb0],
                fields: &[
                    (Field::Power, 1),
                    (Field::Battery, 2),
                    (Field::Charging, 3),
                ],
            },
            Frame { prefix: &[0x36], fields: &[(Field::WirelessMode, 1)] },
        ],
        battery_max: 100,
        power_online: &[0x03],
        power_charging: &[],
        charging_on: &[0x01],
        labels: Labels::Nova5,
    }
}

/// Arctis Nova Elite. Commands have the report id 1, responses 7. The station
/// forgets the ChatMix enables on a power cycle; each connection sends them anew.
pub open spec fn is_nova_elite(s: DeviceSpec) -> bool {
    &&& s.name@ == "Arctis Nova Elite"@
    &&& s.product_ids@ =~= seq![0x2244]
    &&& s.command_interface == 3
    &&& s.extra_listen_interfaces@ =~= seq![]
    &&& s.unnumbered_reports == false
    &&& commands(s.init@) =~~= seq![
        seq![0x01, 0x10],
        seq![0x01, 0x8d, 0x01],
        seq![0x01, 0x49, 0x01],
    ]
    &&& commands(s.status_requests@) =~~= seq![seq![0x01, 0xb0]]
    &&& s.status_poll_secs == 10
    &&& s.frames@.len() == 7
    &&& frame_is(s.frames@[0], seq![0x07, 0x45], seq![(Field::GameMix, 2), (Field::ChatMix, 3)])
    &&& frame_is(
        s.frames@[1],
        seq![0x07, 0xb5],
        seq![
            (Field::BtConnection, 3),
            (Field::Power, 4),
        ],
    )
    &&& frame_is(
        s.frames@[2],
        seq![0x07, 0xb7],
        seq![
            (Field::Battery, 2),
            (Field::SlotBattery, 3),
            (Field::Charging, 4),
        ],
    )
    &&& frame_is(s.frames@[3], seq![0x07, 0xbb], seq![(Field::MicMuted, 2)])
    &&& frame_is(s.frames@[4], seq![0x07, 0xbd], seq![(Field::Anc, 2)])
    &&& frame_is(s.frames@[5], seq![0x07, 0xc1], seq![(Field::AutoOff, 2)])
    &&& frame_is(s.frames@[6], seq![0x07, 0xc3], seq![(Field::WirelessMode, 2)])
    &&& s.battery_max == 100
    &&& s.power_online@ =~= seq![0x08]
    &&& s.power_charging@ =~= seq![0x02]
    &&& s.charging_on@ =~= seq![0x02]
    &&& s.labels == Labels::NovaElite
}

/// Arctis Nova Elite. Commands have the report id 1, responses 7. The station
/// forgets the ChatMix enables on a power cycle; each connection sends them anew.
pub fn nova_elite() -> (s: DeviceSpec)
    ensures
        is_nova_elite(s),
{
    DeviceSpec {
        name: "Arctis Nova Elite",
        product_ids: &[0x2244],
        command_interface: 3,
        extra_listen_interfaces: &[],
        unnumbered_reports: false,
        init: &[&[0x01, 0x10], &[0x01, 0x8d, 0x01], &[0x01, 0x49, 0x01]],
        status_requests: &[&[0x01, 0xb0]],
        status_poll_secs: 10,
        frames: &[
            Frame { prefix: &[0x07, 0x45], fields: &[(Field::GameMix, 2), (Field::ChatMix, 3)] },
            Frame {
                prefix: &[0x07, 0xb5],
                fields: &[
                    (Field::BtConnection, 3),
                    (Field::Power, 4),
                ],
            },
            Frame {
                prefix: &[0x07, 0xb7],
                fields: &[
                    (Field::Battery, 2),
                    (Field::SlotBattery, 3),
                    (Field::Charging, 4),
                ],
            },
            Frame { prefix: &[0x07, 0xbb], fields: &[(Field::MicMuted, 2)] },
            Frame { prefix: &[0x07, 0xbd], fields: &[(Field::Anc, 2)] },
            Frame { prefix: &[0x07, 0xc1], fields: &[(Field::AutoOff, 2)] },
            Frame { prefix: &[0x07, 0xc3], fields: &[(Field::WirelessMode, 2)] },
        ],
        battery_max: 100,
        power_online: &[0x08],
        power_charging: &[0x02],
        charging_on: &[0x02],
        labels: Labels::NovaElite,
    }
}

// ---------------------------------------------------------------------------
// The catalog
// ---------------------------------------------------------------------------

/// Every supported headset, in the order in which they are tried.
pub open spec fn is_catalog(table: Seq<DeviceSpec>) -> bool {
    &&& table.len() == 7
    &&& is_nova_pro_wireless(table[0])
    &&& is_nova_pro_wired(table[1])
    &&& is_nova_7_discrete(table[2])
    &&& is_nova_7_percent(table[3])
    &&& is_arctis_7_plus(table[4])
    &&& is_nova_5(table[5])
    &&& is_nova_elite(table[6])
}

/// Every supported headset.
pub fn specs() -> (r: Vec<DeviceSpec>)
    ensures
        is_catalog(r@),
{
    vec![
        nova_pro_wireless(),
        nova_pro_wired(),
        nova_7_discrete(),
        nova_7_percent(),
        arctis_7_plus(),
        nova_5(),
        nova_elite(),
    ]
}

/// Where the catalog has a product id.
spec fn place(id: u16) -> (int, int) {
    match id {
        0x12e0 => (0, 0),
        0x12e5 => (0, 1),
        0x225d => (0, 2),
        0x12cd => (1, 0),
        0x12cb => (1, 1),
        0x2202 => (2, 0),
        0x2206 => (2, 1),
        0x22a4 => (2, 2),
        0x223a => (2, 3),
        0x227a => (2, 4),
        0x22ab => (2, 5),
        0x22a1 => (3, 0),
        0x227e => (3, 1),
        0x2258 => (3, 2),
        0x229e => (3, 3),
        0x22a9 => (3, 4),
        0x22a5 => (3, 5),
        0x220e => (4, 0),
        0x2212 => (4, 1),
        0x2216 => (4, 2),
        0x2236 => (4, 3),
        0x2232 => (5, 0),
        0x2253 => (5, 1),
        0x2264 => (5, 2),
        0x2244 => (6, 0),
        _ => (7, 0),
    }
}

/// No product id stands twice in the catalog.
pub proof fn product_ids_are_distinct(table: Seq<DeviceSpec>, i: int, a: int, j: int, b: int)
    requires
        is_catalog(table),
        0 <= i < table.len(),
        0 <= a < table[i].product_ids@.len(),
        0 <= j < table.len(),
        0 <= b < table[j].product_ids@.len(),
        table[i].product_ids@[a] == table[j].product_ids@[b],
    ensures
        i == j,
        a == b,
{
    assert forall|k: int, c: int|
        0 <= k < table.len() && 0 <= c < table[k].product_ids@.len() implies place(
        #[trigger] table[k].product_ids@[c],
    ) == (k, c) by {
        assert(k == 0 || k == 1 || k == 2 || k == 3 || k == 4 || k == 5 || k == 6);
        assert(c == 0 || c == 1 || c == 2 || c == 3 || c == 4 || c == 5);
    }
    assert(place(table[i].product_ids@[a]) == (i, a));
    assert(place(table[j].product_ids@[b]) == (j, b));
}

/// Every command of every device fits in a report.
pub proof fn commands_fit_a_report(table: Seq<DeviceSpec>, i: int)
    requires
        is_catalog(table),
        0 <= i < table.len(),
    ensures
        forall|k: int|
            0 <= k < table[i].init@.len() ==> (#[trigger] table[i].init@[k])@.len() <= REPORT_LEN,
        forall|k: int|
            0 <= k < table[i].status_requests@.len() ==> (
            #[trigger] table[i].status_requests@[k])@.len() <= REPORT_LEN,
{
    assert forall|k: int| 0 <= k < table[i].init@.len() implies (
    #[trigger] table[i].init@[k])@.len() <= REPORT_LEN by {
        assert(table[i].init@[k]@ == commands(table[i].init@)[k]);
    }
    assert forall|k: int| 0 <= k < table[i].status_requests@.len() implies (
    #[trigger] table[i].status_requests@[k])@.len() <= REPORT_LEN by {
        assert(table[i].status_requests@[k]@ == commands(table[i].status_requests@)[k]);
    }
}

/// The dial is reported by every device but the Nova 5.
pub proof fn only_the_nova_5_lacks_chatmix(table: Seq<DeviceSpec>, i: int)
    requires
        is_catalog(table),
        0 <= i < table.len(),
    ensures
        carries(table[i].frames@, Field::GameMix) <==> i != 5,
{
    if i != 5 {
        assert(table[i].frames@[0].fields@[0].0 == Field::GameMix);
    }
}

/// Wherever a device reports the one half of the mix, the same frame has the other.
pub proof fn mix_halves_come_together(table: Seq<DeviceSpec>, i: int, k: int)
    requires
        is_catalog(table),
        0 <= i < table.len(),
        0 <= k < table[i].frames@.len(),
    ensures
        carries(seq![table[i].frames@[k]], Field::GameMix) <==> carries(
            seq![table[i].frames@[k]],
            Field::ChatMix,
        ),
{
    let one = seq![table[i].frames@[k]];
    let fields = table[i].frames@[k].fields@;
    if carries(one, Field::GameMix) {
        let (z, m) = choose|z: int, m: int|
            0 <= z < one.len() && 0 <= m < one[z].fields@.len() && (
            #[trigger] one[z].fields@[m]).0 == Field::GameMix;
        assert(fields[m].0 == Field::GameMix);
        assert(one[0].fields@[m + 1].0 == Field::ChatMix);
    }
    if carries(one, Field::ChatMix) {
        let (z, m) = choose|z: int, m: int|
            0 <= z < one.len() && 0 <= m < one[z].fields@.len() && (
            #[trigger] one[z].fields@[m]).0 == Field::ChatMix;
        assert(fields[m].0 == Field::ChatMix);
        assert(one[0].fields@[m - 1].0 == Field::GameMix);
    }
}

/// No report fits two frames of one device, so the order of the frames decides
/// nothing.
pub proof fn a_report_fits_one_frame(
    table: Seq<DeviceSpec>,
    i: int,
    k: int,
    m: int,
    report: Seq<u8>,
)
    requires
        is_catalog(table),
        0 <= i < table.len(),
        0 <= k < table[i].frames@.len(),
        0 <= m < table[i].frames@.len(),
        starts_with(report, table[i].frames@[k].prefix@),
        starts_with(report, table[i].frames@[m].prefix@),
    ensures
        k == m,
{
    let a = table[i].frames@[k].prefix@;
    let b = table[i].frames@[m].prefix@;
    assert forall|n: int| 0 <= n < a.len() implies a[n] == report[n] by {
        assert(report.subrange(0, a.len() as int)[n] == report[n]);
    }
    assert forall|n: int| 0 <= n < b.len() implies b[n] == report[n] by {
        assert(report.subrange(0, b.len() as int)[n] == report[n]);
    }
    assert(a[0] == report[0] && b[0] == report[0]);
    assert(a.len() == b.len());
    if a.len() > 1 {
        assert(a[1] == report[1] && b[1] == report[1]);
    }
    assert(i == 0 || i == 1 || i == 2 || i == 3 || i == 4 || i == 5 || i == 6);
}

/// Every field lies within a report.
pub proof fn fields_lie_within_a_report(table: Seq<DeviceSpec>, i: int, k: int, n: int)
    requires
        is_catalog(table),
        0 <= i < table.len(),
        0 <= k < table[i].frames@.len(),
        0 <= n < table[i].frames@[k].fields@.len(),
    ensures
        table[i].frames@[k].fields@[n].1 < REPORT_LEN,
{
}

} // verus!
