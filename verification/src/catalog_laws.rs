//! What holds of every supported headset.
use vstd::prelude::*;

use crate::catalog::{commands, is_catalog};
use crate::device_laws::{begins_like, lemma_first_frame};
use crate::devices::{extracted, frame_for, parsed, DeviceSpec, Field};
use crate::labels::{described, named, unnamed};

verus! {

/// The Nova Pro family takes commands on USB interface 4, every other headset on interface 3.
pub proof fn the_nova_pro_family_is_on_interface_four(table: Seq<DeviceSpec>, i: int)
    requires
        is_catalog(table),
        0 <= i < table.len(),
    ensures
        table[i].command_interface == if i <= 1 {
            4u32
        } else {
            3
        },
{
}

/// Headsets that stream dial events apart from their status do so on interface 5; it is never
/// the command interface.
pub proof fn dial_events_may_come_on_interface_five(table: Seq<DeviceSpec>, i: int)
    requires
        is_catalog(table),
        0 <= i < table.len(),
    ensures
        table[i].unnumbered_reports ==> table[i].extra_listen_interfaces@ == seq![5u32],
        !table[i].unnumbered_reports ==> table[i].extra_listen_interfaces@ == Seq::<u32>::empty(),
        table[i].unnumbered_reports <==> 2 <= i <= 5,
{
}

/// The command is one of the handshake.
pub open spec fn is_sent(spec: DeviceSpec, cmd: Seq<u8>) -> bool {
    exists|k: int| 0 <= k < spec.init@.len() && (#[trigger] spec.init@[k])@ == cmd
}

proof fn lemma_is_sent(spec: DeviceSpec, k: int, cmd: Seq<u8>)
    requires
        0 <= k < commands(spec.init@).len(),
        commands(spec.init@)[k] =~= cmd,
    ensures
        is_sent(spec, cmd),
{
    assert(spec.init@[k]@ == cmd);
}

/// The handshake of the Nova Pro family and of the Nova Elite enables Sonar mode (`8d 01`) and
/// ChatMix (`49 01`), under the report id of its commands.
pub proof fn chatmix_is_enabled_where_it_has_to_be(table: Seq<DeviceSpec>, i: int)
    requires
        is_catalog(table),
        i == 0 || i == 1 || i == 6,
    ensures
        ({
            let id: u8 = if i == 6 {
                0x01
            } else {
                0x06
            };
            is_sent(table[i], seq![id, 0x8d, 0x01]) && is_sent(table[i], seq![id, 0x49, 0x01])
        }),
{
    if i == 0 {
        lemma_is_sent(table[0], 3, seq![0x06, 0x8d, 0x01]);
        lemma_is_sent(table[0], 15, seq![0x06, 0x49, 0x01]);
    } else if i == 1 {
        lemma_is_sent(table[1], 5, seq![0x06, 0x8d, 0x01]);
        lemma_is_sent(table[1], 4, seq![0x06, 0x49, 0x01]);
    } else {
        lemma_is_sent(table[6], 1, seq![0x01, 0x8d, 0x01]);
        lemma_is_sent(table[6], 2, seq![0x01, 0x49, 0x01]);
    }
}

/// Every headset is asked for its status. All but the Nova Elite, which spreads it over several
/// frames, answer a request with a frame that begins like it.
pub proof fn a_status_request_has_its_frame(table: Seq<DeviceSpec>, i: int, k: int)
    requires
        is_catalog(table),
        0 <= i < table.len(),
        0 <= k < table[i].status_requests@.len(),
    ensures
        i != 6 ==> exists|m: int|
            0 <= m < table[i].frames@.len() && (#[trigger] table[i].frames@[m]).prefix@
                == table[i].status_requests@[k]@,
        i == 6 ==> table[i].status_requests@[k]@ == seq![0x01u8, 0xb0u8],
{
    assert(table[i].status_requests@[k]@ == commands(table[i].status_requests@)[k]);
    if i != 6 {
        let m = if i == 5 {
            k
        } else {
            1
        };
        assert(table[i].frames@[m].prefix@ =~= table[i].status_requests@[k]@);
    } else {
        assert(table[i].status_requests@[k]@ =~= seq![0x01u8, 0xb0u8]);
    }
}

/// Every headset can be asked for its status, every ten seconds or, where the dial may be
/// reported with the status alone, every two.
pub proof fn every_headset_has_a_status(table: Seq<DeviceSpec>, i: int)
    requires
        is_catalog(table),
        0 <= i < table.len(),
    ensures
        table[i].status_requests@.len() > 0,
        table[i].status_poll_secs == if i == 4 {
            2u64
        } else {
            10
        },
{
    assert(commands(table[i].status_requests@).len() == table[i].status_requests@.len());
    if i == 5 {
        assert(commands(table[i].status_requests@).len() == 2);
    } else {
        assert(commands(table[i].status_requests@).len() == 1);
    }
}

/// The raw battery value of a full battery: the wired Nova Pro has none, the Nova Pro Wireless
/// counts eight steps, the older headsets four, the newer ones percent.
pub proof fn a_full_battery_has_its_raw_value(table: Seq<DeviceSpec>, i: int)
    requires
        is_catalog(table),
        0 <= i < table.len(),
    ensures
        table[i].battery_max == if i == 0 {
            8u8
        } else if i == 1 {
            0
        } else if i == 2 || i == 4 {
            4
        } else {
            100
        },
{
}

// ---------------------------------------------------------------------------
// Products
// ---------------------------------------------------------------------------

/// The number of the device that a product id belongs to.
pub open spec fn family_of(id: u16) -> Option<int> {
    match id {
        0x12e0 | 0x12e5 | 0x225d => Some(0),
        0x12cd | 0x12cb => Some(1),
        0x2202 | 0x2206 | 0x22a4 | 0x223a | 0x227a | 0x22ab => Some(2),
        0x22a1 | 0x227e | 0x2258 | 0x229e | 0x22a9 | 0x22a5 => Some(3),
        0x220e | 0x2212 | 0x2216 | 0x2236 => Some(4),
        0x2232 | 0x2253 | 0x2264 => Some(5),
        0x2244 => Some(6),
        _ => None,
    }
}

/// Every product is listed for its device, and for no other.
pub proof fn every_product_has_its_device(table: Seq<DeviceSpec>, i: int, id: u16)
    requires
        is_catalog(table),
        0 <= i < table.len(),
    ensures
        table[i].product_ids@.contains(id) <==> family_of(id) == Some(i),
{
    let ids = table[i].product_ids@;
    if ids.contains(id) {
        let k = choose|k: int| 0 <= k < ids.len() && ids[k] == id;
        assert(k == 0 || k == 1 || k == 2 || k == 3 || k == 4 || k == 5);
    }
    if family_of(id) == Some(i) {
        if i == 0 {
            assert(id == ids[0] || id == ids[1] || id == ids[2]);
        } else if i == 1 {
            assert(id == ids[0] || id == ids[1]);
        } else if i == 2 || i == 3 {
            assert(id == ids[0] || id == ids[1] || id == ids[2] || id == ids[3] || id == ids[4]
                || id == ids[5]);
        } else if i == 4 {
            assert(id == ids[0] || id == ids[1] || id == ids[2] || id == ids[3]);
        } else if i == 5 {
            assert(id == ids[0] || id == ids[1] || id == ids[2]);
        } else {
            assert(id == ids[0]);
        }
    }
}

// ---------------------------------------------------------------------------
// Power
// ---------------------------------------------------------------------------

/// A headset with a wording for its power state is online exactly where the wording says so,
/// and charges by cable exactly where the wording says that.
pub proof fn the_wording_of_power_agrees_with_its_meaning(
    table: Seq<DeviceSpec>,
    i: int,
    fields: Map<Field, u8>,
)
    requires
        is_catalog(table),
        0 <= i < table.len(),
        i != 1,
        fields.dom().contains(Field::Power),
    ensures
        ({
            let words = described(table[i].labels, fields, Field::Power);
            let v = fields[Field::Power];
            &&& words is Some
            &&& words->0 == "online"@ <==> table[i].power_online@.contains(v)
            &&& words->0 == "charging via cable"@ <==> table[i].power_charging@.contains(v)
        }),
{
    let v = fields[Field::Power];
    let online = table[i].power_online@;
    let charging = table[i].power_charging@;
    reveal_strlit("online");
    reveal_strlit("offline");
    reveal_strlit("standby");
    reveal_strlit("charging via cable");
    reveal_strlit("unknown (0x");
    reveal_with_fuel(named, 5);
    assert("online"@[1] == 'n' && "online"@[0] == 'o' && "offline"@[1] == 'f' && "standby"@[0] == 's'
        && "charging via cable"@[0] == 'c' && "unknown (0x"@[0] == 'u');
    assert(unnamed(v)[0] == 'u');
    assert(online.contains(v) <==> if i == 0 || i == 6 {
        v == 0x08
    } else if i == 4 {
        v == 0x00 || v == 0x02 || v == 0x03
    } else {
        v == 0x03
    }) by {
        assert(online.len() > 0);
        if i == 4 {
            assert(online[0] == 0x00 && online[1] == 0x02 && online[2] == 0x03);
        } else {
            assert(online[0] == if i == 0 || i == 6 {
                0x08u8
            } else {
                0x03u8
            });
        }
    }
    assert(charging.contains(v) <==> (i == 0 || i == 6) && v == 0x02) by {
        if i == 0 || i == 6 {
            assert(charging[0] == 0x02);
        }
    }
}

// ---------------------------------------------------------------------------
// Dial and status
// ---------------------------------------------------------------------------

/// The halves of the dial are the two bytes behind the code `45`, which stands behind the report
/// id `07` where reports are numbered. No other field comes with them.
pub proof fn a_dial_report_holds_the_two_halves(table: Seq<DeviceSpec>, i: int, report: Seq<u8>)
    requires
        is_catalog(table),
        0 <= i < table.len(),
        i != 5,
        ({
            let at: int = if table[i].unnumbered_reports {
                0
            } else {
                1
            };
            &&& report.len() >= at + 3
            &&& at == 1 ==> report[0] == 0x07
            &&& report[at] == 0x45
        }),
    ensures
        ({
            let at: int = if table[i].unnumbered_reports {
                0
            } else {
                1
            };
            parsed(table[i].frames@, report) == map![
                Field::GameMix => report[at + 1],
                Field::ChatMix => report[at + 2],
            ]
        }),
{
    let frame = table[i].frames@[0];
    let at: int = if table[i].unnumbered_reports {
        0
    } else {
        1
    };
    assert(report.subrange(0, at + 1) =~= frame.prefix@);
    assert(frame_for(table[i].frames@, report) == Some(frame));
    reveal_with_fuel(extracted, 3);
    assert(frame.fields@.drop_last().drop_last() =~= seq![]);
    assert(parsed(table[i].frames@, report) =~= map![
        Field::GameMix => report[at + 1],
        Field::ChatMix => report[at + 2],
    ]);
}

/// The status of the headsets without report ids: power, battery and charging follow the code
/// `b0`, and then, but for the Nova 5, the dial.
pub proof fn a_status_report_holds_power_and_battery(
    table: Seq<DeviceSpec>,
    i: int,
    report: Seq<u8>,
)
    requires
        is_catalog(table),
        2 <= i <= 5,
        report.len() >= 10,
        report[0] == 0xb0,
    ensures
        ({
            let fields = parsed(table[i].frames@, report);
            &&& fields.dom().contains(Field::Power) && fields[Field::Power] == report[1]
            &&& fields.dom().contains(Field::Battery) && fields[Field::Battery] == report[2]
            &&& fields.dom().contains(Field::Charging) && fields[Field::Charging] == report[3]
            &&& i != 5 ==> fields.dom().contains(Field::GameMix) && fields[Field::GameMix]
                == report[4] && fields.dom().contains(Field::ChatMix) && fields[Field::ChatMix]
                == report[5]
        }),
{
    let frames = table[i].frames@;
    let m: int = if i == 5 {
        0
    } else {
        1
    };
    let frame = frames[m];
    assert(report.subrange(0, 1) =~= frame.prefix@);
    if i != 5 {
        assert(report.subrange(0, 1)[0] != 0x45);
        assert(frames.drop_first()[0] == frame);
        assert(frame_for(frames.drop_first(), report) == Some(frame));
    }
    assert(frame_for(frames, report) == Some(frame));
    reveal_with_fuel(extracted, 10);
}

/// The field has this value.
pub open spec fn is_at(fields: Map<Field, u8>, field: Field, value: u8) -> bool {
    fields.dom().contains(field) && fields[field] == value
}

/// The status of the Nova Pro Wireless, behind `06 b0`.
pub proof fn the_status_of_the_nova_pro_wireless(table: Seq<DeviceSpec>, report: Seq<u8>)
    requires
        is_catalog(table),
        report.len() >= 16,
        report[0] == 0x06,
        report[1] == 0xb0,
    ensures
        ({
            let fields = parsed(table[0].frames@, report);
            &&& fields.dom().contains(Field::Power) && fields[Field::Power] == report[15]
            &&& fields.dom().contains(Field::Battery) && fields[Field::Battery] == report[6]
            &&& fields.dom().contains(Field::SlotBattery) && fields[Field::SlotBattery]
                == report[7]
            &&& fields.dom().contains(Field::MicMuted) && fields[Field::MicMuted] == report[9]
            &&& !fields.dom().contains(Field::GameMix)
            &&& is_at(fields, Field::BtPower, report[4])
            &&& is_at(fields, Field::BtConnection, report[5])
            &&& is_at(fields, Field::Transparency, report[8])
            &&& is_at(fields, Field::Anc, report[10])
            &&& is_at(fields, Field::AutoOff, report[12])
            &&& is_at(fields, Field::WirelessMode, report[13])
            &&& is_at(fields, Field::Pairing, report[14])
        }),
{
    let frames = table[0].frames@;
    let frame = frames[1];
    assert(report.subrange(0, 2) =~= frame.prefix@);
    assert(report.subrange(0, 2)[0] != 0x07);
    assert(frames.drop_first()[0] == frame);
    assert(frame_for(frames.drop_first(), report) == Some(frame));
    assert(frame_for(frames, report) == Some(frame));
    reveal_with_fuel(extracted, 12);
}

/// There are seven headsets, by these names.
pub proof fn each_headset_has_its_name(table: Seq<DeviceSpec>)
    requires
        is_catalog(table),
    ensures
        table.len() == 7,
        table[0].name@ == "Arctis Nova Pro Wireless"@,
        table[1].name@ == "Arctis Nova Pro (wired GameDAC Gen 2)"@,
        table[2].name@ == "Arctis Nova 7 (discrete battery)"@,
        table[3].name@ == "Arctis Nova 7 (percent battery)"@,
        table[4].name@ == "Arctis 7+"@,
        table[5].name@ == "Arctis Nova 5"@,
        table[6].name@ == "Arctis Nova Elite"@,
{
}

/// The charging field of the headsets without report ids says 1 while charging, that of the Nova
/// Elite 2; the Nova Pro family has none.
pub proof fn charging_has_its_value(table: Seq<DeviceSpec>, i: int, v: u8)
    requires
        is_catalog(table),
        0 <= i < table.len(),
    ensures
        table[i].charging_on@.contains(v) <==> 2 <= i <= 5 && v == 1 || i == 6 && v == 2,
{
    let on = table[i].charging_on@;
    if 2 <= i <= 5 {
        assert(on[0] == 1);
    } else if i == 6 {
        assert(on[0] == 2);
    }
}

/// Every command begins with the report id of its device's commands, and is a single code where
/// there are no report ids. So many make up the handshake.
pub proof fn every_command_begins_with_the_report_id(table: Seq<DeviceSpec>, i: int, k: int)
    requires
        is_catalog(table),
        0 <= i < table.len(),
        0 <= k < table[i].init@.len(),
    ensures
        2 <= i <= 5 ==> table[i].init@[k]@.len() == 1,
        i <= 1 ==> table[i].init@[k]@.len() > 1 && table[i].init@[k]@[0] == 0x06,
        i == 6 ==> table[i].init@[k]@.len() > 1 && table[i].init@[k]@[0] == 0x01,
        table[i].init@.len() == if i == 0 {
            17nat
        } else if i == 1 {
            6
        } else if i == 2 || i == 3 {
            2
        } else {
            3
        },
{
    let all = commands(table[i].init@);
    assert(all.len() == table[i].init@.len());
    assert(table[i].init@[k]@ == all[k]);
    if i == 0 {
        assert(all.len() == 17);
    } else if i == 1 {
        assert(all.len() == 6);
    } else if i == 2 || i == 3 {
        assert(all.len() == 2);
    } else if i == 4 {
        assert(all.len() == 0);
    } else {
        assert(all.len() == 3);
    }
}

/// The Nova 7 tells of Bluetooth and the microphone behind the dial.
pub proof fn the_status_of_the_nova_7(table: Seq<DeviceSpec>, i: int, report: Seq<u8>)
    requires
        is_catalog(table),
        i == 2 || i == 3,
        report.len() >= 10,
        report[0] == 0xb0,
    ensures
        ({
            let fields = parsed(table[i].frames@, report);
            &&& is_at(fields, Field::BtConnection, report[6])
            &&& is_at(fields, Field::BtPower, report[7])
            &&& is_at(fields, Field::BtAutoMute, report[8])
            &&& is_at(fields, Field::MicMuted, report[9])
        }),
{
    let frame = table[i].frames@[1];
    assert(report.subrange(0, 1) =~= frame.prefix@);
    assert(report.subrange(0, 1)[0] != 0x45);
    lemma_first_frame(table[i].frames@, report, 1);
    reveal_with_fuel(extracted, 10);
}

/// The wired Nova Pro tells its settings behind `06 20`, and the Nova 5 its wireless link behind
/// `36`.
pub proof fn settings_have_their_places(table: Seq<DeviceSpec>, report: Seq<u8>)
    requires
        is_catalog(table),
        report.len() >= 19,
    ensures
        report[0] == 0x06 && report[1] == 0x20 ==> ({
            let fields = parsed(table[1].frames@, report);
            &&& is_at(fields, Field::Gain, report[4])
            &&& is_at(fields, Field::MicVolume, report[16])
            &&& is_at(fields, Field::SideTone, report[17])
            &&& is_at(fields, Field::LineOut, report[18])
        }),
        report[0] == 0x36 ==> is_at(
            parsed(table[5].frames@, report),
            Field::WirelessMode,
            report[1],
        ),
{
    if report[0] == 0x06 && report[1] == 0x20 {
        assert(report.subrange(0, 2) =~= table[1].frames@[1].prefix@);
        assert(report.subrange(0, 2)[0] != 0x07);
        lemma_first_frame(table[1].frames@, report, 1);
        reveal_with_fuel(extracted, 5);
    }
    if report[0] == 0x36 {
        assert(report.subrange(0, 1) =~= table[5].frames@[1].prefix@);
        assert(report.subrange(0, 1)[0] != 0xb0);
        lemma_first_frame(table[5].frames@, report, 1);
        reveal_with_fuel(extracted, 2);
    }
}

/// The Nova Elite spreads its status over frames of their own, behind `07` and a code.
pub proof fn the_status_of_the_nova_elite(table: Seq<DeviceSpec>, report: Seq<u8>)
    requires
        is_catalog(table),
        report.len() >= 5,
        report[0] == 0x07,
    ensures
        ({
            let fields = parsed(table[6].frames@, report);
            &&& report[1] == 0xb5 ==> is_at(fields, Field::BtConnection, report[3]) && is_at(
                fields,
                Field::Power,
                report[4],
            )
            &&& report[1] == 0xb7 ==> is_at(fields, Field::Battery, report[2]) && is_at(
                fields,
                Field::SlotBattery,
                report[3],
            ) && is_at(fields, Field::Charging, report[4])
            &&& report[1] == 0xbb ==> is_at(fields, Field::MicMuted, report[2])
            &&& report[1] == 0xbd ==> is_at(fields, Field::Anc, report[2])
            &&& report[1] == 0xc1 ==> is_at(fields, Field::AutoOff, report[2])
            &&& report[1] == 0xc3 ==> is_at(fields, Field::WirelessMode, report[2])
        }),
{
    let frames = table[6].frames@;
    let code = report[1];
    let m: int = match code {
        0xb5 => 1,
        0xb7 => 2,
        0xbb => 3,
        0xbd => 4,
        0xc1 => 5,
        0xc3 => 6,
        _ => 0,
    };
    if m > 0 {
        assert(report.subrange(0, 2) =~= frames[m].prefix@);
        assert forall|j: int| 0 <= j < m implies !begins_like(report, #[trigger] frames[j]) by {
            assert(report.subrange(0, 2)[1] != frames[j].prefix@[1]);
        }
        lemma_first_frame(frames, report, m);
        reveal_with_fuel(extracted, 4);
    }
}

/// Each headset has the wording of its own family.
pub proof fn each_headset_has_its_wording(table: Seq<DeviceSpec>)
    requires
        is_catalog(table),
    ensures
        table[0].labels is NovaProWireless,
        table[1].labels is NovaProWired,
        table[2].labels is Nova7,
        table[3].labels is Nova7,
        table[4].labels is Arctis7Plus,
        table[5].labels is Nova5,
        table[6].labels is NovaElite,
{
}

} // verus!
