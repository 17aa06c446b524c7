//! The wording of raw field values, for each headset family.
use vstd::prelude::*;

use crate::devices::{Collected, Field};
use crate::text::{decimal, decimal_of, hex, hex_of, opt_text};

verus! {

/// Whose wording a device has.
#[derive(Clone, Copy, PartialEq, Eq, Debug, Structural)]
pub enum Labels {
    NovaProWireless,
    NovaProWired,
    Nova7,
    Arctis7Plus,
    Nova5,
    NovaElite,
}

// ---------------------------------------------------------------------------
// Names of values
// ---------------------------------------------------------------------------

/// The wording for a value that has no name.
pub open spec fn unnamed(v: u8) -> Seq<char> {
    "unknown (0x"@ + hex(v as nat, 2, false) + ")"@
}

/// The first name that `names` gives to `v`.
pub open spec fn named(v: u8, names: Seq<(u8, &str)>) -> Seq<char>
    decreases names.len(),
{
    if names.len() == 0 {
        unnamed(v)
    } else if names[0].0 == v {
        names[0].1@
    } else {
        named(v, names.drop_first())
    }
}

/// The name that `names` gives to `v`.
fn name(v: u8, names: &[(u8, &str)]) -> (r: String)
    ensures
        r@ == named(v, names@),
{
    let mut i: usize = 0;
    assert(names@.skip(0) =~= names@);
    while i < names.len()
        invariant
            i <= names@.len(),
            named(v, names@) == named(v, names@.skip(i as int)),
        decreases names@.len() - i,
    {
        let (key, text) = names[i];
        assert(names@.skip(i as int)[0] == (key, text));
        assert(names@.skip(i as int).drop_first() =~= names@.skip(i + 1));
        if key == v {
            return text.to_owned();
        }
        i += 1;
    }
    let mut r = "unknown (0x".to_owned();
    r.append(hex_of(v as u32, 2, false).as_str());
    r.append(")");
    r
}

pub open spec fn auto_off_names() -> Seq<(u8, &'static str)> {
    seq![
        (0x00u8, "never"),
        (0x01u8, "1 minute"),
        (0x02u8, "5 minutes"),
        (0x03u8, "10 minutes"),
        (0x04u8, "15 minutes"),
        (0x05u8, "30 minutes"),
        (0x06u8, "60 minutes"),
    ]
}

/// The name of an auto-off delay.
fn auto_off(v: u8) -> (r: String)
    ensures
        r@ == named(v, auto_off_names()),
{
    let names = [
        (0x00u8, "never"),
        (0x01u8, "1 minute"),
        (0x02u8, "5 minutes"),
        (0x03u8, "10 minutes"),
        (0x04u8, "15 minutes"),
        (0x05u8, "30 minutes"),
        (0x06u8, "60 minutes"),
    ];
    assert(names@ =~= auto_off_names());
    name(v, &names)
}

pub open spec fn anc_names() -> Seq<(u8, &'static str)> {
    seq![(0x00u8, "off"), (0x01u8, "transparent"), (0x02u8, "on")]
}

/// The name of a noise-cancelling mode.
fn anc(v: u8) -> (r: String)
    ensures
        r@ == named(v, anc_names()),
{
    let names = [(0x00u8, "off"), (0x01u8, "transparent"), (0x02u8, "on")];
    assert(names@ =~= anc_names());
    name(v, &names)
}

pub open spec fn wireless_names() -> Seq<(u8, &'static str)> {
    seq![(0x00u8, "speed"), (0x01u8, "range")]
}

/// The name of a wireless mode of the base-station models.
fn wireless(v: u8) -> (r: String)
    ensures
        r@ == named(v, wireless_names()),
{
    let names = [(0x00u8, "speed"), (0x01u8, "range")];
    assert(names@ =~= wireless_names());
    name(v, &names)
}

pub open spec fn on_off_line_names() -> Seq<(u8, &'static str)> {
    seq![(0x02u8, "offline"), (0x03u8, "online")]
}

/// The name of a power state of the models without a base station.
fn on_off_line(v: u8) -> (r: String)
    ensures
        r@ == named(v, on_off_line_names()),
{
    let names = [(0x02u8, "offline"), (0x03u8, "online")];
    assert(names@ =~= on_off_line_names());
    name(v, &names)
}

// ---------------------------------------------------------------------------
// Nova Pro Wireless
// ---------------------------------------------------------------------------

pub open spec fn nova_pro_wireless_label(
    fields: Map<Field, u8>,
    field: Field,
    v: u8,
) -> Option<Seq<char>> {
    match field {
        Field::Power => Some(
            named(v, seq![(0x01u8, "offline"), (0x02u8, "charging via cable"), (0x08u8, "online")]),
        ),
        Field::Anc => Some(
            if fields.dom().contains(Field::Transparency) {
                named(v, anc_names()) + " (transparency level "@ + decimal(
                    fields[Field::Transparency] as nat,
                ) + "/10)"@
            } else {
                named(v, anc_names())
            },
        ),
        Field::WirelessMode => Some(
            if fields.dom().contains(Field::Pairing) {
                named(v, wireless_names()) + " mode, "@ + named(
                    fields[Field::Pairing],
                    seq![
                        (0x01u8, "not paired"),
                        (0x04u8, "paired (offline)"),
                        (0x08u8, "connected"),
                    ],
                )
            } else {
                named(v, wireless_names()) + " mode"@
            },
        ),
        Field::BtConnection => Some(
            if fields.dom().contains(Field::BtPower) && fields[Field::BtPower] == 0x00 {
                named(v, seq![(0x01u8, "on, connected"), (0x02u8, "on, disconnected")])
            } else {
                "off"@
            },
        ),
        Field::AutoOff => Some(named(v, auto_off_names())),
        _ => None,
    }
}

pub fn describe_nova_pro_wireless(fields: &Collected, field: Field) -> (r: Option<String>)
    ensures
        opt_text(r) == described(Labels::NovaProWireless, fields@, field),
{
    let v = match fields.get(field) {
        Some(v) => v,
        None => return None,
    };
    match field {
        Field::Power => {
            let names = [(0x01u8, "offline"), (0x02u8, "charging via cable"), (0x08u8, "online")];
            assert(names@ =~= seq![
                (0x01u8, "offline"),
                (0x02u8, "charging via cable"),
                (0x08u8, "online"),
            ]);
            Some(name(v, &names))
        },
        Field::Anc => {
            let mut r = anc(v);
            if let Some(level) = fields.get(Field::Transparency) {
                r.append(" (transparency level ");
                r.append(decimal_of(level as u32).as_str());
                r.append("/10)");
            }
            Some(r)
        },
        Field::WirelessMode => {
            let mut r = wireless(v);
            match fields.get(Field::Pairing) {
                Some(pairing) => {
                    let names = [
                        (0x01u8, "not paired"),
                        (0x04u8, "paired (offline)"),
                        (0x08u8, "connected"),
                    ];
                    assert(names@ =~= seq![
                        (0x01u8, "not paired"),
                        (0x04u8, "paired (offline)"),
                        (0x08u8, "connected"),
                    ]);
                    r.append(" mode, ");
                    r.append(name(pairing, &names).as_str());
                },
                None => r.append(" mode"),
            }
            Some(r)
        },
        Field::BtConnection => {
            match fields.get(Field::BtPower) {
                Some(0x00) => {
                    let names = [(0x01u8, "on, connected"), (0x02u8, "on, disconnected")];
                    assert(names@ =~= seq![(0x01u8, "on, connected"), (0x02u8, "on, disconnected")]);
                    Some(name(v, &names))
                },
                _ => Some("off".to_owned()),
            }
        },
        Field::AutoOff => Some(auto_off(v)),
        _ => None,
    }
}

// ---------------------------------------------------------------------------
// Nova Pro, wired
// ---------------------------------------------------------------------------

pub open spec fn nova_pro_wired_label(field: Field, v: u8) -> Option<Seq<char>> {
    match field {
        Field::Gain => Some(named(v, seq![(0x01u8, "low"), (0x02u8, "high")])),
        Field::SideTone => Some(
            named(
                v,
                seq![(0x00u8, "off"), (0x01u8, "low"), (0x02u8, "medium"), (0x03u8, "high")],
            ),
        ),
        Field::MicVolume => Some(decimal(v as nat) + "/10"@),
        Field::LineOut => Some(named(v, seq![(0x01u8, "speaker"), (0x02u8, "stream")])),
        _ => None,
    }
}

pub fn describe_nova_pro_wired(fields: &Collected, field: Field) -> (r: Option<String>)
    ensures
        opt_text(r) == described(Labels::NovaProWired, fields@, field),
{
    let v = match fields.get(field) {
        Some(v) => v,
        None => return None,
    };
    match field {
        Field::Gain => {
            let names = [(0x01u8, "low"), (0x02u8, "high")];
            assert(names@ =~= seq![(0x01u8, "low"), (0x02u8, "high")]);
            Some(name(v, &names))
        },
        Field::SideTone => {
            let names = [(0x00u8, "off"), (0x01u8, "low"), (0x02u8, "medium"), (0x03u8, "high")];
            assert(names@ =~= seq![
                (0x00u8, "off"),
                (0x01u8, "low"),
                (0x02u8, "medium"),
                (0x03u8, "high"),
            ]);
            Some(name(v, &names))
        },
        Field::MicVolume => {
            let mut r = decimal_of(v as u32);
            r.append("/10");
            Some(r)
        },
        Field::LineOut => {
            let names = [(0x01u8, "speaker"), (0x02u8, "stream")];
            assert(names@ =~= seq![(0x01u8, "speaker"), (0x02u8, "stream")]);
            Some(name(v, &names))
        },
        _ => None,
    }
}

// ---------------------------------------------------------------------------
// Nova 7
// ---------------------------------------------------------------------------

pub open spec fn nova_7_label(field: Field, v: u8) -> Option<Seq<char>> {
    match field {
        Field::Power => Some(named(v, on_off_line_names())),
        Field::BtConnection => Some(
            named(v, seq![(0x00u8, "off"), (0x02u8, "connected"), (0x03u8, "disconnected")]),
        ),
        Field::BtAutoMute => Some(
            named(v, seq![(0x00u8, "off"), (0x01u8, "-12db"), (0x02u8, "on")]),
        ),
        _ => None,
    }
}

pub fn describe_nova_7(fields: &Collected, field: Field) -> (r: Option<String>)
    ensures
        opt_text(r) == described(Labels::Nova7, fields@, field),
{
    let v = match fields.get(field) {
        Some(v) => v,
        None => return None,
    };
    match field {
        Field::Power => Some(on_off_line(v)),
        Field::BtConnection => {
            let names = [(0x00u8, "off"), (0x02u8, "connected"), (0x03u8, "disconnected")];
            assert(names@ =~= seq![
                (0x00u8, "off"),
                (0x02u8, "connected"),
                (0x03u8, "disconnected"),
            ]);
            Some(name(v, &names))
        },
        Field::BtAutoMute => {
            let names = [(0x00u8, "off"), (0x01u8, "-12db"), (0x02u8, "on")];
            assert(names@ =~= seq![(0x00u8, "off"), (0x01u8, "-12db"), (0x02u8, "on")]);
            Some(name(v, &names))
        },
        _ => None,
    }
}

// ---------------------------------------------------------------------------
// Arctis 7+
// ---------------------------------------------------------------------------

pub open spec fn arctis_7_plus_label(field: Field, v: u8) -> Option<Seq<char>> {
    match field {
        Field::Power => Some(
            named(
                v,
                seq![
                    (0x00u8, "online"),
                    (0x01u8, "offline"),
                    (0x02u8, "online"),
                    (0x03u8, "online"),
                ],
            ),
        ),
        _ => None,
    }
}

pub fn describe_arctis_7_plus(fields: &Collected, field: Field) -> (r: Option<String>)
    ensures
        opt_text(r) == described(Labels::Arctis7Plus, fields@, field),
{
    let v = match fields.get(field) {
        Some(v) => v,
        None => return None,
    };
    match field {
        Field::Power => {
            let names = [
                (0x00u8, "online"),
                (0x01u8, "offline"),
                (0x02u8, "online"),
                (0x03u8, "online"),
            ];
            assert(names@ =~= seq![
                (0x00u8, "online"),
                (0x01u8, "offline"),
                (0x02u8, "online"),
                (0x03u8, "online"),
            ]);
            Some(name(v, &names))
        },
        _ => None,
    }
}

// ---------------------------------------------------------------------------
// Nova 5
// ---------------------------------------------------------------------------

pub open spec fn nova_5_label(field: Field, v: u8) -> Option<Seq<char>> {
    match field {
        Field::Power => Some(named(v, on_off_line_names())),
        Field::WirelessMode => Some(named(v, seq![(0x00u8, "range"), (0x01u8, "speed")])),
        _ => None,
    }
}

pub fn describe_nova_5(fields: &Collected, field: Field) -> (r: Option<String>)
    ensures
        opt_text(r) == described(Labels::Nova5, fields@, field),
{
    let v = match fields.get(field) {
        Some(v) => v,
        None => return None,
    };
    match field {
        Field::Power => Some(on_off_line(v)),
        Field::WirelessMode => {
            let names = [(0x00u8, "range"), (0x01u8, "speed")];
            assert(names@ =~= seq![(0x00u8, "range"), (0x01u8, "speed")]);
            Some(name(v, &names))
        },
        _ => None,
    }
}

// ---------------------------------------------------------------------------
// Nova Elite
// ---------------------------------------------------------------------------

pub open spec fn nova_elite_label(field: Field, v: u8) -> Option<Seq<char>> {
    match field {
        Field::Power => Some(
            named(
                v,
                seq![
                    (0x01u8, "offline"),
                    (0x02u8, "charging via cable"),
                    (0x04u8, "standby"),
                    (0x08u8, "online"),
                ],
            ),
        ),
        Field::Anc => Some(named(v, anc_names())),
        Field::WirelessMode => Some(named(v, wireless_names())),
        Field::BtConnection => Some(
            named(
                v,
                seq![
                    (0x00u8, "off"),
                    (0x01u8, "connected"),
                    (0x02u8, "disconnected"),
                    (0x04u8, "active"),
                ],
            ),
        ),
        Field::AutoOff => Some(named(v, auto_off_names())),
        _ => None,
    }
}

pub fn describe_nova_elite(fields: &Collected, field: Field) -> (r: Option<String>)
    ensures
        opt_text(r) == described(Labels::NovaElite, fields@, field),
{
    let v = match fields.get(field) {
        Some(v) => v,
        None => return None,
    };
    match field {
        Field::Power => {
            let names = [
                (0x01u8, "offline"),
                (0x02u8, "charging via cable"),
                (0x04u8, "standby"),
                (0x08u8, "online"),
            ];
            assert(names@ =~= seq![
                (0x01u8, "offline"),
                (0x02u8, "charging via cable"),
                (0x04u8, "standby"),
                (0x08u8, "online"),
            ]);
            Some(name(v, &names))
        },
        Field::Anc => Some(anc(v)),
        Field::WirelessMode => Some(wireless(v)),
        Field::BtConnection => {
            let names = [
                (0x00u8, "off"),
                (0x01u8, "connected"),
                (0x02u8, "disconnected"),
                (0x04u8, "active"),
            ];
            assert(names@ =~= seq![
                (0x00u8, "off"),
                (0x01u8, "connected"),
                (0x02u8, "disconnected"),
                (0x04u8, "active"),
            ]);
            Some(name(v, &names))
        },
        Field::AutoOff => Some(auto_off(v)),
        _ => None,
    }
}

// ---------------------------------------------------------------------------
// Any family
// ---------------------------------------------------------------------------

/// The wording for the collected value of `field`: none where there is no value
/// or the family has no words for the field. It may take in sibling fields.
pub open spec fn described(labels: Labels, fields: Map<Field, u8>, field: Field) -> Option<
    Seq<char>,
> {
    if fields.dom().contains(field) {
        let v = fields[field];
        match labels {
            Labels::NovaProWireless => nova_pro_wireless_label(fields, field, v),
            Labels::NovaProWired => nova_pro_wired_label(field, v),
            Labels::Nova7 => nova_7_label(field, v),
            Labels::Arctis7Plus => arctis_7_plus_label(field, v),
            Labels::Nova5 => nova_5_label(field, v),
            Labels::NovaElite => nova_elite_label(field, v),
        }
    } else {
        None
    }
}

impl Labels {
    /// The wording for the collected value of `field`.
    pub fn describe(&self, fields: &Collected, field: Field) -> (r: Option<String>)
        ensures
            opt_text(r) == described(*self, fields@, field),
    {
        match self {
            Labels::NovaProWireless => describe_nova_pro_wireless(fields, field),
            Labels::NovaProWired => describe_nova_pro_wired(fields, field),
            Labels::Nova7 => describe_nova_7(fields, field),
            Labels::Arctis7Plus => describe_arctis_7_plus(fields, field),
            Labels::Nova5 => describe_nova_5(fields, field),
            Labels::NovaElite => describe_nova_elite(fields, field),
        }
    }
}

} // verus!
