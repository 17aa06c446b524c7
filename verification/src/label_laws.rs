//! The words of every family, value by value.
use vstd::prelude::*;

use crate::devices::Field;
use crate::labels::{described, named, Labels};
use crate::text::{decimal, hex};

verus! {

/// A value that no word is known for.
pub open spec fn strange(v: u8) -> Seq<char> {
    "unknown (0x"@ + hex(v as nat, 2, false) + ")"@
}

/// The delay of the automatic switch-off, in minutes: none, or one of six.
pub open spec fn auto_off_words(v: u8) -> Seq<char> {
    match v {
        0 => "never"@,
        1 => "1 minute"@,
        2 => "5 minutes"@,
        3 => "10 minutes"@,
        4 => "15 minutes"@,
        5 => "30 minutes"@,
        6 => "60 minutes"@,
        _ => strange(v),
    }
}

/// Noise cancelling is off, lets sound through, or is on.
pub open spec fn anc_words(v: u8) -> Seq<char> {
    match v {
        0 => "off"@,
        1 => "transparent"@,
        2 => "on"@,
        _ => strange(v),
    }
}

/// The wireless link of a base station is made for speed or for range.
pub open spec fn wireless_words(v: u8) -> Seq<char> {
    match v {
        0 => "speed"@,
        1 => "range"@,
        _ => strange(v),
    }
}

/// The automatic switch-off of the base-station models is worded in minutes.
pub proof fn auto_off_is_worded_in_minutes(labels: Labels, fields: Map<Field, u8>)
    requires
        fields.dom().contains(Field::AutoOff),
    ensures
        labels is NovaProWireless || labels is NovaElite ==> described(
            labels,
            fields,
            Field::AutoOff,
        ) == Some(auto_off_words(fields[Field::AutoOff])),
        !(labels is NovaProWireless || labels is NovaElite) ==> described(
            labels,
            fields,
            Field::AutoOff,
        ) is None,
{
    reveal_with_fuel(named, 8);
}

/// Noise cancelling of the base-station models, with the transparency level where it is known.
pub proof fn noise_cancelling_is_worded(labels: Labels, fields: Map<Field, u8>)
    requires
        fields.dom().contains(Field::Anc),
    ensures
        labels is NovaElite ==> described(labels, fields, Field::Anc) == Some(
            anc_words(fields[Field::Anc]),
        ),
        labels is NovaProWireless && !fields.dom().contains(Field::Transparency) ==> described(
            labels,
            fields,
            Field::Anc,
        ) == Some(anc_words(fields[Field::Anc])),
        labels is NovaProWireless && fields.dom().contains(Field::Transparency) ==> described(
            labels,
            fields,
            Field::Anc,
        ) == Some(
            anc_words(fields[Field::Anc]) + " (transparency level "@ + decimal(
                fields[Field::Transparency] as nat,
            ) + "/10)"@,
        ),
{
    reveal_with_fuel(named, 4);
}

/// The wireless link: that of the Nova Pro Wireless comes with the state of its pairing; the
/// Nova 5 numbers the modes the other way round.
pub proof fn the_wireless_link_is_worded(labels: Labels, fields: Map<Field, u8>)
    requires
        fields.dom().contains(Field::WirelessMode),
    ensures
        ({
            let v = fields[Field::WirelessMode];
            let words = described(labels, fields, Field::WirelessMode);
            &&& labels is NovaElite ==> words == Some(wireless_words(v))
            &&& labels is Nova5 ==> words == Some(
                if v == 0 {
                    "range"@
                } else if v == 1 {
                    "speed"@
                } else {
                    strange(v)
                },
            )
            &&& labels is NovaProWireless && !fields.dom().contains(Field::Pairing) ==> words
                == Some(wireless_words(v) + " mode"@)
            &&& labels is NovaProWireless && fields.dom().contains(Field::Pairing) ==> words
                == Some(
                wireless_words(v) + " mode, "@ + (match fields[Field::Pairing] {
                    1 => "not paired"@,
                    4 => "paired (offline)"@,
                    8 => "connected"@,
                    _ => strange(fields[Field::Pairing]),
                }),
            )
            &&& labels is NovaProWired || labels is Nova7 || labels is Arctis7Plus ==> words is None
        }),
{
    reveal_with_fuel(named, 4);
}

/// Bluetooth: on the Nova Pro Wireless its connection means something only while it has power,
/// which the value 0 says.
pub proof fn bluetooth_is_worded(labels: Labels, fields: Map<Field, u8>)
    requires
        fields.dom().contains(Field::BtConnection),
    ensures
        ({
            let v = fields[Field::BtConnection];
            let words = described(labels, fields, Field::BtConnection);
            let powered = fields.dom().contains(Field::BtPower) && fields[Field::BtPower] == 0;
            &&& labels is NovaProWireless && !powered ==> words == Some("off"@)
            &&& labels is NovaProWireless && powered ==> words == Some(
                match v {
                    1 => "on, connected"@,
                    2 => "on, disconnected"@,
                    _ => strange(v),
                },
            )
            &&& labels is Nova7 ==> words == Some(
                match v {
                    0 => "off"@,
                    2 => "connected"@,
                    3 => "disconnected"@,
                    _ => strange(v),
                },
            )
            &&& labels is NovaElite ==> words == Some(
                match v {
                    0 => "off"@,
                    1 => "connected"@,
                    2 => "disconnected"@,
                    4 => "active"@,
                    _ => strange(v),
                },
            )
            &&& labels is NovaProWired || labels is Arctis7Plus || labels is Nova5 ==> words is None
        }),
{
    reveal_with_fuel(named, 5);
}

/// The muting of the Nova 7 by bluetooth calls.
pub proof fn bluetooth_muting_is_worded(labels: Labels, fields: Map<Field, u8>)
    requires
        fields.dom().contains(Field::BtAutoMute),
    ensures
        labels is Nova7 ==> described(labels, fields, Field::BtAutoMute) == Some(
            match fields[Field::BtAutoMute] {
                0 => "off"@,
                1 => "-12db"@,
                2 => "on"@,
                _ => strange(fields[Field::BtAutoMute]),
            },
        ),
        !(labels is Nova7) ==> described(labels, fields, Field::BtAutoMute) is None,
{
    reveal_with_fuel(named, 4);
}

/// The settings of the wired Nova Pro, which no other family reports.
pub proof fn wired_settings_are_worded(labels: Labels, fields: Map<Field, u8>)
    ensures
        labels is NovaProWired ==> {
            &&& fields.dom().contains(Field::Gain) ==> described(labels, fields, Field::Gain)
                == Some(
                match fields[Field::Gain] {
                    1 => "low"@,
                    2 => "high"@,
                    _ => strange(fields[Field::Gain]),
                },
            )
            &&& fields.dom().contains(Field::SideTone) ==> described(
                labels,
                fields,
                Field::SideTone,
            ) == Some(
                match fields[Field::SideTone] {
                    0 => "off"@,
                    1 => "low"@,
                    2 => "medium"@,
                    3 => "high"@,
                    _ => strange(fields[Field::SideTone]),
                },
            )
            &&& fields.dom().contains(Field::MicVolume) ==> described(
                labels,
                fields,
                Field::MicVolume,
            ) == Some(decimal(fields[Field::MicVolume] as nat) + "/10"@)
            &&& fields.dom().contains(Field::LineOut) ==> described(labels, fields, Field::LineOut)
                == Some(
                match fields[Field::LineOut] {
                    1 => "speaker"@,
                    2 => "stream"@,
                    _ => strange(fields[Field::LineOut]),
                },
            )
        },
        !(labels is NovaProWired) ==> described(labels, fields, Field::Gain) is None && described(
            labels,
            fields,
            Field::SideTone,
        ) is None && described(labels, fields, Field::MicVolume) is None && described(
            labels,
            fields,
            Field::LineOut,
        ) is None,
{
    reveal_with_fuel(named, 5);
}

/// The power state, for each family that reports one.
pub proof fn the_power_state_is_worded(labels: Labels, fields: Map<Field, u8>)
    requires
        fields.dom().contains(Field::Power),
    ensures
        ({
            let v = fields[Field::Power];
            let words = described(labels, fields, Field::Power);
            &&& labels is NovaProWireless ==> words == Some(
                match v {
                    1 => "offline"@,
                    2 => "charging via cable"@,
                    8 => "online"@,
                    _ => strange(v),
                },
            )
            &&& labels is NovaElite ==> words == Some(
                match v {
                    1 => "offline"@,
                    2 => "charging via cable"@,
                    4 => "standby"@,
                    8 => "online"@,
                    _ => strange(v),
                },
            )
            &&& labels is Nova7 || labels is Nova5 ==> words == Some(
                match v {
                    2 => "offline"@,
                    3 => "online"@,
                    _ => strange(v),
                },
            )
            &&& labels is Arctis7Plus ==> words == Some(
                match v {
                    0 => "online"@,
                    1 => "offline"@,
                    2 => "online"@,
                    3 => "online"@,
                    _ => strange(v),
                },
            )
        }),
{
    reveal_with_fuel(named, 5);
}

} // verus!
