//! What the server's list of sinks and its events come to.
use vstd::prelude::*;

use crate::audio::{
    bytes, has_sink, headset_sink, is_change, is_headset, listed_sinks, sink_of, snapshot_of,
    tells_change, unfinished, usb_id, SinkModel, LINE_FEED,
};
use crate::devices::DeviceSpec;
use crate::json::Json;
use crate::text::{contains, hex, lemma_find_at, occurs_at};

verus! {

// ---------------------------------------------------------------------------
// The list of sinks
// ---------------------------------------------------------------------------

/// The text that a JSON table holds under a key; empty where it holds none.
pub open spec fn text_under(table: Map<Seq<char>, Json>, key: Seq<char>) -> Seq<char> {
    if table.dom().contains(key) && table[key] is Text {
        table[key]->Text_0
    } else {
        seq![]
    }
}

/// A sink is known by its name, and by the vendor and product ids among its properties.
pub proof fn a_sink_is_known_by_its_name_and_ids(
    table: Map<Seq<char>, Json>,
    properties: Map<Seq<char>, Json>,
)
    ensures
        sink_of(Json::Table(table)).name == text_under(table, "name"@),
        table.dom().contains("properties"@) && table["properties"@] == Json::Table(properties)
            ==> sink_of(Json::Table(table)).vendor == text_under(properties, "device.vendor.id"@)
            && sink_of(Json::Table(table)).product == text_under(
            properties,
            "device.product.id"@,
        ),
        !table.dom().contains("properties"@) ==> sink_of(Json::Table(table)).vendor
            == Seq::<char>::empty() && sink_of(Json::Table(table)).product == Seq::<char>::empty(),
{
}

/// Every item of the server's list is a sink, in order; a document that is no list has none.
pub proof fn every_item_is_a_sink(items: Seq<Json>)
    ensures
        listed_sinks(Some(Json::List(items))) matches Some(sinks) && sinks.len() == items.len()
            && forall|i: int| 0 <= i < items.len() ==> #[trigger] sinks[i] == sink_of(items[i]),
        listed_sinks(None) is None,
        forall|document: Json|
            !(document is List) ==> #[trigger] listed_sinks(Some(document)) is None,
{
}

/// The sink has the vendor id 1038 and the id of one of the device's products, each written as
/// `0x` and four lower-case hexadecimal digits.
pub open spec fn has_ids_of(spec: DeviceSpec, sink: SinkModel) -> bool {
    sink.vendor == "0x1038"@ && exists|id: u16| #[trigger]
        spec.product_ids@.contains(id) && sink.product == "0x"@ + hex(id as nat, 4, false)
}

proof fn lemma_has_ids(spec: DeviceSpec, sink: SinkModel)
    ensures
        is_headset(spec, sink) <==> has_ids_of(spec, sink),
{
    reveal_strlit("0x");
    reveal_strlit("0x1038");
    reveal_with_fuel(hex, 5);
    assert(hex(0x1038, 4, false) =~= seq!['1', '0', '3', '8']);
    assert(usb_id(0x1038) =~= "0x1038"@);
    if is_headset(spec, sink) {
        let i = choose|i: int|
            0 <= i < spec.product_ids@.len() && sink.product == usb_id(
                #[trigger] spec.product_ids@[i],
            );
        assert(spec.product_ids@.contains(spec.product_ids@[i]));
    }
    if has_ids_of(spec, sink) {
        let id = choose|id: u16| #[trigger]
            spec.product_ids@.contains(id) && sink.product == "0x"@ + hex(id as nat, 4, false);
        let i = choose|i: int| 0 <= i < spec.product_ids@.len() && spec.product_ids@[i] == id;
        assert(sink.product == usb_id(spec.product_ids@[i]));
    }
}

proof fn lemma_last_headset(spec: DeviceSpec, sinks: Seq<SinkModel>)
    ensures
        headset_sink(spec, sinks) is None <==> forall|n: int|
            0 <= n < sinks.len() ==> !has_ids_of(spec, #[trigger] sinks[n]),
        headset_sink(spec, sinks) matches Some(name) ==> exists|n: int|
            0 <= n < sinks.len() && has_ids_of(spec, #[trigger] sinks[n]) && sinks[n].name == name
                && forall|m: int|
                n < m < sinks.len() ==> !has_ids_of(spec, #[trigger] sinks[m]),
    decreases sinks.len(),
{
    if sinks.len() > 0 {
        let rest = sinks.drop_last();
        let last = sinks.len() - 1;
        lemma_last_headset(spec, rest);
        lemma_has_ids(spec, sinks[last]);
        if has_ids_of(spec, sinks[last]) {
            assert(headset_sink(spec, sinks) == Some(sinks[last].name));
        } else if let Some(name) = headset_sink(spec, rest) {
            let n = choose|n: int|
                0 <= n < rest.len() && has_ids_of(spec, #[trigger] rest[n]) && rest[n].name == name
                    && forall|m: int|
                    n < m < rest.len() ==> !has_ids_of(spec, #[trigger] rest[m]);
            assert(sinks[n] == rest[n]);
            assert forall|m: int| n < m < sinks.len() implies !has_ids_of(
                spec,
                #[trigger] sinks[m],
            ) by {
                if m < last {
                    assert(rest[m] == sinks[m]);
                }
            }
        } else {
            assert forall|n: int| 0 <= n < sinks.len() implies !has_ids_of(
                spec,
                #[trigger] sinks[n],
            ) by {
                if n < last {
                    assert(rest[n] == sinks[n]);
                }
            }
        }
    }
}

/// A listed sink with the vendor id and any product id of the device makes the real sink known:
/// it is the last such sink.
pub proof fn a_sink_of_the_headset_is_the_real_sink(
    spec: DeviceSpec,
    sinks: Seq<SinkModel>,
    n: int,
    id: u16,
)
    requires
        0 <= n < sinks.len(),
        spec.product_ids@.contains(id),
        sinks[n].vendor == "0x1038"@,
        sinks[n].product == "0x"@ + hex(id as nat, 4, false),
    ensures
        snapshot_of(spec, sinks).target is Some,
        (forall|m: int| n < m < sinks.len() ==> !has_ids_of(spec, #[trigger] sinks[m]))
            ==> snapshot_of(spec, sinks).target == Some(sinks[n].name),
{
    assert(has_ids_of(spec, sinks[n]));
    lemma_last_headset(spec, sinks);
    let name = headset_sink(spec, sinks)->0;
    let k = choose|k: int|
        0 <= k < sinks.len() && has_ids_of(spec, #[trigger] sinks[k]) && sinks[k].name == name
            && forall|m: int|
            k < m < sinks.len() ==> !has_ids_of(spec, #[trigger] sinks[m]);
    if forall|m: int| n < m < sinks.len() ==> !has_ids_of(spec, #[trigger] sinks[m]) {
        assert(k == n);
    }
}

/// A snapshot shows our two sinks where sinks of their names are listed, and a real sink only
/// where one with the ids of the device is.
pub proof fn a_snapshot_shows_what_is_listed(spec: DeviceSpec, sinks: Seq<SinkModel>)
    ensures
        snapshot_of(spec, sinks).game <==> exists|n: int|
            0 <= n < sinks.len() && (#[trigger] sinks[n]).name == "Arctis Game"@,
        snapshot_of(spec, sinks).chat <==> exists|n: int|
            0 <= n < sinks.len() && (#[trigger] sinks[n]).name == "Arctis Chat"@,
        snapshot_of(spec, sinks).target matches Some(name) ==> exists|n: int|
            0 <= n < sinks.len() && has_ids_of(spec, #[trigger] sinks[n]) && sinks[n].name == name,
{
    lemma_last_headset(spec, sinks);
    assert(has_sink(sinks, "Arctis Game"@) <==> exists|n: int|
        0 <= n < sinks.len() && (#[trigger] sinks[n]).name == "Arctis Game"@);
    if let Some(name) = snapshot_of(spec, sinks).target {
        let n = choose|n: int|
            0 <= n < sinks.len() && has_ids_of(spec, #[trigger] sinks[n]) && sinks[n].name == name
                && forall|m: int|
                n < m < sinks.len() ==> !has_ids_of(spec, #[trigger] sinks[m]);
        assert(has_ids_of(spec, sinks[n]) && sinks[n].name == name);
    }
}

// ---------------------------------------------------------------------------
// Events
// ---------------------------------------------------------------------------

/// The line has the ASCII text at this position.
pub open spec fn has_text_at(line: Seq<u8>, text: Seq<char>, i: int) -> bool {
    0 <= i && i + text.len() <= line.len() && forall|k: int|
        0 <= k < text.len() ==> line[i + k] == #[trigger] text[k] as u8
}

/// The line has the ASCII text somewhere.
pub open spec fn mentions_text(line: Seq<u8>, text: Seq<char>) -> bool {
    exists|i: int| has_text_at(line, text, i)
}

proof fn lemma_mentions(line: Seq<u8>, text: Seq<char>)
    ensures
        contains(line, bytes(text)) <==> mentions_text(line, text),
{
    let p = bytes(text);
    if contains(line, p) {
        let i = choose|i: int| occurs_at(line, p, i);
        assert forall|k: int| 0 <= k < text.len() implies line[i + k] == #[trigger] text[k] as u8 by {
            assert(line.subrange(i, i + p.len())[k] == p[k]);
        }
        assert(has_text_at(line, text, i));
    }
    if mentions_text(line, text) {
        let i = choose|i: int| has_text_at(line, text, i);
        assert forall|k: int| 0 <= k < p.len() implies #[trigger] line.subrange(
            i,
            i + p.len(),
        )[k] == p[k] by {
            assert(p[k] == text[k] as u8);
        }
        assert(line.subrange(i, i + p.len()) =~= p);
        assert(occurs_at(line, p, i));
    }
}

/// A line counts as a change where a sink or a module, of that very name, is new or removed.
pub proof fn new_and_removed_sinks_and_modules_count(line: Seq<u8>)
    ensures
        is_change(line) <==> (mentions_text(line, "Event 'new'"@) || mentions_text(
            line,
            "Event 'remove'"@,
        )) && (mentions_text(line, "on sink #"@) || mentions_text(line, "on module #"@)),
{
    lemma_mentions(line, "Event 'new'"@);
    lemma_mentions(line, "Event 'remove'"@);
    lemma_mentions(line, "on sink #"@);
    lemma_mentions(line, "on module #"@);
}

/// A stream tells a change with its first whole line or with what follows that; nothing of a
/// whole line is kept, and all of an unfinished one.
pub proof fn a_stream_is_read_line_by_line(line: Seq<u8>, rest: Seq<u8>)
    requires
        forall|i: int| 0 <= i < line.len() ==> #[trigger] line[i] != 10,
    ensures
        tells_change(line + seq![10u8] + rest) <==> is_change(line + seq![10u8]) || tells_change(
            rest,
        ),
        unfinished(line + seq![10u8] + rest) == unfinished(rest),
        !tells_change(line),
        unfinished(line) == line,
{
    let all = line + seq![10u8] + rest;
    lemma_find_at(all, LINE_FEED, line.len() as int);
    assert(all.take(line.len() as int + 1) =~= line + seq![10u8]);
    assert(all.skip(line.len() as int + 1) =~= rest);
    lemma_find_at(line, LINE_FEED, line.len() as int);
}

} // verus!
