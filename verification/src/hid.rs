//! Which hidraw node belongs to which headset, and how a command is written to
//! it.
//!
//! The kernel describes a node by the lines of its uevent file: `HID_ID=` gives
//! bus, vendor and product, `HID_PHYS=` ends in `/input` and the number of the
//! USB interface.
use vstd::prelude::*;

use crate::catalog::{is_catalog, product_ids_are_distinct, specs};
use crate::devices::{frame_command, framed, DeviceSpec, VENDOR_ID};
use crate::text::{
    before_last, begins, chars_of, cut_at_last, decimal, decimal_of, ends, ends_with, hex, hex_of,
    lemma_hex_injective, lemma_hex_len, lines, lines_of, opt_text, pow16, same, same_text,
    string_of, strip_prefix, texts,
};

verus! {

// ---------------------------------------------------------------------------
// Uevents
// ---------------------------------------------------------------------------

/// The `HID_ID` of a headset: the USB bus, the vendor and the product.
pub open spec fn hid_id(product: u16) -> Seq<char> {
    "0003:"@ + hex(VENDOR_ID as nat, 8, true) + ":"@ + hex(product as nat, 8, true)
}

/// The `HID_ID`s of a device.
pub open spec fn ids_of(spec: DeviceSpec) -> Seq<Seq<char>> {
    spec.product_ids@.map_values(|p: u16| hid_id(p))
}

/// What follows `key` in the last line that begins with it.
pub open spec fn last_value(lines: Seq<Seq<char>>, key: Seq<char>) -> Option<Seq<char>>
    decreases lines.len(),
{
    if lines.len() == 0 {
        None
    } else {
        match strip_prefix(lines.last(), key) {
            Some(v) => Some(v),
            None => last_value(lines.drop_last(), key),
        }
    }
}

/// What follows `key` in the first line that begins with it.
pub open spec fn first_value(lines: Seq<Seq<char>>, key: Seq<char>) -> Option<Seq<char>>
    decreases lines.len(),
{
    if lines.len() == 0 {
        None
    } else {
        match strip_prefix(lines[0], key) {
            Some(v) => Some(v),
            None => first_value(lines.drop_first(), key),
        }
    }
}

/// The uevent `content` has one of the `ids` and a physical path that ends in
/// `phys_suffix`.
pub open spec fn matched(content: Seq<char>, ids: Seq<Seq<char>>, phys_suffix: Seq<char>) -> bool {
    &&& last_value(lines(content), "HID_ID="@) is Some
    &&& ids.contains(last_value(lines(content), "HID_ID="@)->0)
    &&& last_value(lines(content), "HID_PHYS="@) is Some
    &&& ends_with(last_value(lines(content), "HID_PHYS="@)->0, phys_suffix)
}

/// The `HID_ID`s of a device.
pub fn hid_ids(spec: &DeviceSpec) -> (r: Vec<String>)
    ensures
        texts(r@) == ids_of(*spec),
{
    let mut r: Vec<String> = Vec::new();
    let mut i: usize = 0;
    while i < spec.product_ids.len()
        invariant
            i <= spec.product_ids@.len(),
            texts(r@) == ids_of(*spec).take(i as int),
        decreases spec.product_ids@.len() - i,
    {
        let mut id = "0003:".to_owned();
        id.append(hex_of(VENDOR_ID as u32, 8, true).as_str());
        id.append(":");
        id.append(hex_of(spec.product_ids[i] as u32, 8, true).as_str());
        assert(id@ == ids_of(*spec)[i as int]);
        let ghost before = texts(r@);
        let ghost text = id@;
        r.push(id);
        i += 1;
        assert(texts(r@) =~= before.push(text));
        assert(before.push(text) =~= ids_of(*spec).take(i as int));
    }
    assert(texts(r@) =~= ids_of(*spec));
    r
}

/// `ids` holds `id`.
fn has_id(ids: &[String], id: &[char]) -> (r: bool)
    ensures
        r == texts(ids@).contains(id@),
{
    let mut i: usize = 0;
    while i < ids.len()
        invariant
            i <= ids@.len(),
            forall|j: int| 0 <= j < i ==> (#[trigger] texts(ids@)[j]) != id@,
        decreases ids@.len() - i,
    {
        if same(chars_of(ids[i].as_str()).as_slice(), id) {
            assert(texts(ids@)[i as int] == id@);
            return true;
        }
        i += 1;
    }
    false
}

/// A line does not begin with both keys.
proof fn lemma_keys_differ(line: Seq<char>)
    ensures
        strip_prefix(line, "HID_ID="@) is None || strip_prefix(line, "HID_PHYS="@) is None,
{
    reveal_strlit("HID_ID=");
    reveal_strlit("HID_PHYS=");
    if strip_prefix(line, "HID_ID="@) is Some && strip_prefix(line, "HID_PHYS="@) is Some {
        assert(line.subrange(0, "HID_ID="@.len() as int)[4] == 'I');
        assert(line.subrange(0, "HID_PHYS="@.len() as int)[4] == 'P');
    }
}

/// Matches a uevent against the ids of a device and the end of a physical path.
pub fn uevent_matches(content: &str, ids: &[String], phys_suffix: &str) -> (r: bool)
    ensures
        r == matched(content@, texts(ids@), phys_suffix@),
{
    let chars = chars_of(content);
    let all = lines_of(chars.as_slice());
    let ghost model = lines(content@);
    let mut id_match = false;
    let mut phys_match = false;
    let mut i: usize = 0;
    while i < all.len()
        invariant
            i <= all@.len(),
            all@.map_values(|l: &[char]| l@) == model,
            id_match == {
                let v = last_value(model.take(i as int), "HID_ID="@);
                v is Some && texts(ids@).contains(v->0)
            },
            phys_match == {
                let v = last_value(model.take(i as int), "HID_PHYS="@);
                v is Some && ends_with(v->0, phys_suffix@)
            },
        decreases all@.len() - i,
    {
        let line = all[i];
        assert(line@ == model[i as int]);
        assert(model.take(i + 1).drop_last() =~= model.take(i as int));
        proof {
            reveal_strlit("HID_ID=");
            reveal_strlit("HID_PHYS=");
            lemma_keys_differ(line@);
        }
        if begins(line, "HID_ID=") {
            let v = &line[7..line.len()];
            assert(v@ =~= line@.skip(7));
            id_match = has_id(ids, v);
        } else if begins(line, "HID_PHYS=") {
            let v = &line[9..line.len()];
            assert(v@ =~= line@.skip(9));
            phys_match = ends(v, phys_suffix);
        }
        i += 1;
    }
    assert(model.take(i as int) =~= model);
    id_match && phys_match
}

// ---------------------------------------------------------------------------
// Discovery
// ---------------------------------------------------------------------------

/// A discovered device: the node that commands are written to, and the further
/// nodes that reports may arrive on.
pub struct FoundDevice {
    pub spec: DeviceSpec,
    pub command: String,
    pub extra_listen: Vec<String>,
}

/// The names and uevents of the hidraw nodes.
pub open spec fn nodes(entries: Seq<(String, String)>) -> Seq<(Seq<char>, Seq<char>)> {
    entries.map_values(|e: (String, String)| (e.0@, e.1@))
}

/// How the physical path of a USB interface ends.
pub open spec fn interface_suffix(interface: u32) -> Seq<char> {
    "/input"@ + decimal(interface as nat)
}

/// The uevent is that of the command interface of `spec`.
pub open spec fn takes_commands(spec: DeviceSpec, content: Seq<char>) -> bool {
    matched(content, ids_of(spec), interface_suffix(spec.command_interface))
}

/// The first device of `table` whose command interface the uevent is.
pub open spec fn device_for(table: Seq<DeviceSpec>, content: Seq<char>) -> Option<DeviceSpec>
    decreases table.len(),
{
    if table.len() == 0 {
        None
    } else if takes_commands(table[0], content) {
        Some(table[0])
    } else {
        device_for(table.drop_first(), content)
    }
}

/// The physical path of the device itself: that of the interface up to its last
/// `/input`.
pub open spec fn physical_base(content: Seq<char>) -> Seq<char> {
    match first_value(lines(content), "HID_PHYS="@) {
        Some(path) => match before_last(path, "/input"@) {
            Some(base) => base,
            None => seq![],
        },
        None => seq![],
    }
}

/// The first node, other than `own`, with one of the `ids` and this end of its
/// physical path.
pub open spec fn listen_node(
    nodes: Seq<(Seq<char>, Seq<char>)>,
    own: Seq<char>,
    ids: Seq<Seq<char>>,
    suffix: Seq<char>,
) -> Option<Seq<char>>
    decreases nodes.len(),
{
    if nodes.len() == 0 {
        None
    } else if nodes[0].0 != own && matched(nodes[0].1, ids, suffix) {
        Some(nodes[0].0)
    } else {
        listen_node(nodes.drop_first(), own, ids, suffix)
    }
}

/// The nodes of the further interfaces of the device at the physical path `base`,
/// as far as they exist.
pub open spec fn listen_nodes(
    interfaces: Seq<u32>,
    nodes: Seq<(Seq<char>, Seq<char>)>,
    own: Seq<char>,
    ids: Seq<Seq<char>>,
    base: Seq<char>,
) -> Seq<Seq<char>>
    decreases interfaces.len(),
{
    if interfaces.len() == 0 {
        seq![]
    } else {
        let before = listen_nodes(interfaces.drop_last(), nodes, own, ids, base);
        match listen_node(nodes, own, ids, base + interface_suffix(interfaces.last())) {
            Some(name) => before.push(name),
            None => before,
        }
    }
}

/// The device whose command node `node` is: the device, the name of the node, and
/// the names of the nodes to listen on as well.
pub open spec fn found_at(
    spec: DeviceSpec,
    all: Seq<(Seq<char>, Seq<char>)>,
    node: (Seq<char>, Seq<char>),
) -> (DeviceSpec, Seq<char>, Seq<Seq<char>>) {
    (
        spec,
        node.0,
        listen_nodes(
            spec.extra_listen_interfaces@,
            all,
            node.0,
            ids_of(spec),
            physical_base(node.1),
        ),
    )
}

/// The device whose command node comes first in `rest`.
pub open spec fn found_in(
    table: Seq<DeviceSpec>,
    all: Seq<(Seq<char>, Seq<char>)>,
    rest: Seq<(Seq<char>, Seq<char>)>,
) -> Option<(DeviceSpec, Seq<char>, Seq<Seq<char>>)>
    decreases rest.len(),
{
    if rest.len() == 0 {
        None
    } else {
        match device_for(table, rest[0].1) {
            Some(spec) => Some(found_at(spec, all, rest[0])),
            None => found_in(table, all, rest.drop_first()),
        }
    }
}

impl View for FoundDevice {
    type V = (DeviceSpec, Seq<char>, Seq<Seq<char>>);

    open spec fn view(&self) -> (DeviceSpec, Seq<char>, Seq<Seq<char>>) {
        (self.spec, self.command@, texts(self.extra_listen@))
    }
}

/// What a search for a device came to.
pub open spec fn opt_found(found: Option<FoundDevice>) -> Option<
    (DeviceSpec, Seq<char>, Seq<Seq<char>>),
> {
    match found {
        Some(f) => Some(f@),
        None => None,
    }
}

/// How the physical path of a USB interface ends.
fn suffix_of(interface: u32) -> (r: String)
    ensures
        r@ == interface_suffix(interface),
{
    let mut r = "/input".to_owned();
    r.append(decimal_of(interface).as_str());
    r
}

/// The physical path of the device itself.
pub fn phys_base(content: &str) -> (r: String)
    ensures
        r@ == physical_base(content@),
{
    let chars = chars_of(content);
    let all = lines_of(chars.as_slice());
    let ghost model = lines(content@);
    let mut i: usize = 0;
    assert(model.skip(0) =~= model);
    while i < all.len()
        invariant
            i <= all@.len(),
            model == lines(content@),
            all@.map_values(|l: &[char]| l@) == model,
            first_value(model, "HID_PHYS="@) == first_value(model.skip(i as int), "HID_PHYS="@),
        decreases all@.len() - i,
    {
        let line = all[i];
        assert(line@ == model.skip(i as int)[0]);
        assert(model.skip(i as int).drop_first() =~= model.skip(i + 1));
        if begins(line, "HID_PHYS=") {
            proof {
                reveal_strlit("HID_PHYS=");
            }
            let path = &line[9..line.len()];
            assert(path@ =~= line@.skip(9));
            return match cut_at_last(path, "/input") {
                Some(base) => string_of(base),
                None => String::new(),
            };
        }
        i += 1;
    }
    String::new()
}

/// The first node, other than `own`, with one of the `ids` and this end of its
/// physical path.
fn find_listen_node(
    entries: &Vec<(String, String)>,
    own: &str,
    ids: &[String],
    suffix: &str,
) -> (r: Option<String>)
    ensures
        opt_text(r) == listen_node(nodes(entries@), own@, texts(ids@), suffix@),
{
    let ghost all = nodes(entries@);
    let mut i: usize = 0;
    assert(all.skip(0) =~= all);
    while i < entries.len()
        invariant
            i <= entries@.len(),
            all == nodes(entries@),
            listen_node(all, own@, texts(ids@), suffix@) == listen_node(
                all.skip(i as int),
                own@,
                texts(ids@),
                suffix@,
            ),
        decreases entries@.len() - i,
    {
        let entry = &entries[i];
        assert(all.skip(i as int)[0] == (entry.0@, entry.1@));
        assert(all.skip(i as int).drop_first() =~= all.skip(i + 1));
        if !same_text(entry.0.as_str(), own) && uevent_matches(entry.1.as_str(), ids, suffix) {
            return Some(entry.0.clone());
        }
        i += 1;
    }
    None
}

/// The nodes of the further interfaces of a device.
fn find_listen_nodes(
    entries: &Vec<(String, String)>,
    spec: &DeviceSpec,
    own: &str,
    ids: &[String],
    base: &str,
) -> (r: Vec<String>)
    ensures
        texts(r@) == listen_nodes(
            spec.extra_listen_interfaces@,
            nodes(entries@),
            own@,
            texts(ids@),
            base@,
        ),
{
    let ghost all = nodes(entries@);
    let interfaces = spec.extra_listen_interfaces;
    let mut r: Vec<String> = Vec::new();
    let mut i: usize = 0;
    assert(interfaces@.take(0) =~= seq![]);
    assert(texts(r@) =~= seq![]);
    while i < interfaces.len()
        invariant
            i <= interfaces@.len(),
            all == nodes(entries@),
            texts(r@) == listen_nodes(interfaces@.take(i as int), all, own@, texts(ids@), base@),
        decreases interfaces@.len() - i,
    {
        assert(interfaces@.take(i + 1).drop_last() =~= interfaces@.take(i as int));
        let mut suffix = base.to_owned();
        suffix.append(suffix_of(interfaces[i]).as_str());
        if let Some(name) = find_listen_node(entries, own, ids, suffix.as_str()) {
            let ghost before = texts(r@);
            let ghost text = name@;
            r.push(name);
            assert(texts(r@) =~= before.push(text));
        }
        i += 1;
    }
    assert(interfaces@.take(i as int) =~= interfaces@);
    r
}

/// Finds the first node that is the command interface of a device of `table`.
pub fn find_device(table: &Vec<DeviceSpec>, entries: &Vec<(String, String)>) -> (r: Option<
    FoundDevice,
>)
    ensures
        opt_found(r) == found_in(table@, nodes(entries@), nodes(entries@)),
{
    let ghost all = nodes(entries@);
    let mut i: usize = 0;
    assert(all.skip(0) =~= all);
    while i < entries.len()
        invariant
            i <= entries@.len(),
            all == nodes(entries@),
            found_in(table@, all, all) == found_in(table@, all, all.skip(i as int)),
        decreases entries@.len() - i,
    {
        let entry = &entries[i];
        assert(all.skip(i as int)[0] == (entry.0@, entry.1@));
        assert(all.skip(i as int).drop_first() =~= all.skip(i + 1));
        let mut k: usize = 0;
        assert(table@.skip(0) =~= table@);
        while k < table.len()
            invariant
                k <= table@.len(),
                i < entries@.len(),
                *entry == entries@[i as int],
                all == nodes(entries@),
                all.skip(i as int)[0] == (entry.0@, entry.1@),
                all.skip(i as int).len() > 0,
                found_in(table@, all, all) == found_in(table@, all, all.skip(i as int)),
                device_for(table@, entry.1@) == device_for(table@.skip(k as int), entry.1@),
            decreases table@.len() - k,
        {
            let spec = table[k];
            assert(table@.skip(k as int)[0] == spec);
            assert(table@.skip(k as int).drop_first() =~= table@.skip(k + 1));
            let ids = hid_ids(&spec);
            if uevent_matches(
                entry.1.as_str(),
                ids.as_slice(),
                suffix_of(spec.command_interface).as_str(),
            ) {
                let base = phys_base(entry.1.as_str());
                let extra_listen = find_listen_nodes(
                    entries,
                    &spec,
                    entry.0.as_str(),
                    ids.as_slice(),
                    base.as_str(),
                );
                return Some(FoundDevice { spec, command: entry.0.clone(), extra_listen });
            }
            k += 1;
        }
        i += 1;
    }
    None
}

/// Finds a supported device among the hidraw nodes, each given by its name and the
/// text of its uevent.
pub fn find_hidraw(entries: &Vec<(String, String)>) -> (r: Option<FoundDevice>)
    ensures
        exists|table: Seq<DeviceSpec>| #[trigger]
            is_catalog(table) && opt_found(r) == found_in(table, nodes(entries@), nodes(entries@)),
{
    let table = specs();
    let r = find_device(&table, entries);
    assert(is_catalog(table@));
    r
}

// ---------------------------------------------------------------------------
// What discovery keeps
// ---------------------------------------------------------------------------

/// Different products have different `HID_ID`s.
pub proof fn hid_ids_tell_products_apart(p: u16, q: u16)
    requires
        hid_id(p) == hid_id(q),
    ensures
        p == q,
{
    let head = "0003:"@ + hex(VENDOR_ID as nat, 8, true) + ":"@;
    lemma_hex_len(p as nat, 8, true);
    lemma_hex_len(q as nat, 8, true);
    assert(hid_id(p).skip(head.len() as int) =~= hex(p as nat, 8, true));
    assert(hid_id(q).skip(head.len() as int) =~= hex(q as nat, 8, true));
    reveal_with_fuel(pow16, 9);
    lemma_hex_injective(p as nat, q as nat, 8, true);
}

/// A uevent matches one device of the catalog at most, whatever the interface.
pub proof fn a_uevent_is_of_one_device(
    table: Seq<DeviceSpec>,
    i: int,
    j: int,
    content: Seq<char>,
    suffix: Seq<char>,
    other_suffix: Seq<char>,
)
    requires
        is_catalog(table),
        0 <= i < table.len(),
        0 <= j < table.len(),
        matched(content, ids_of(table[i]), suffix),
        matched(content, ids_of(table[j]), other_suffix),
    ensures
        i == j,
{
    let id = last_value(lines(content), "HID_ID="@)->0;
    let a = choose|a: int| 0 <= a < ids_of(table[i]).len() && ids_of(table[i])[a] == id;
    let b = choose|b: int| 0 <= b < ids_of(table[j]).len() && ids_of(table[j])[b] == id;
    hid_ids_tell_products_apart(table[i].product_ids@[a], table[j].product_ids@[b]);
    product_ids_are_distinct(table, i, a, j, b);
}

/// `name` is that of a node, other than `own`, with one of the `ids` and this end of
/// its physical path.
pub open spec fn is_listen_node(
    nodes: Seq<(Seq<char>, Seq<char>)>,
    own: Seq<char>,
    ids: Seq<Seq<char>>,
    suffix: Seq<char>,
    name: Seq<char>,
) -> bool {
    name != own && exists|n: int|
        0 <= n < nodes.len() && (#[trigger] nodes[n]).0 == name && matched(nodes[n].1, ids, suffix)
}

proof fn lemma_listen_node(
    nodes: Seq<(Seq<char>, Seq<char>)>,
    own: Seq<char>,
    ids: Seq<Seq<char>>,
    suffix: Seq<char>,
)
    ensures
        listen_node(nodes, own, ids, suffix) matches Some(name) ==> is_listen_node(
            nodes,
            own,
            ids,
            suffix,
            name,
        ),
        (exists|n: int|
            0 <= n < nodes.len() && (#[trigger] nodes[n]).0 != own && matched(
                nodes[n].1,
                ids,
                suffix,
            )) ==> listen_node(nodes, own, ids, suffix) is Some,
    decreases nodes.len(),
{
    if nodes.len() > 0 {
        let rest = nodes.drop_first();
        lemma_listen_node(rest, own, ids, suffix);
        if nodes[0].0 != own && matched(nodes[0].1, ids, suffix) {
            assert(nodes[0].0 == listen_node(nodes, own, ids, suffix)->0);
        } else {
            if let Some(name) = listen_node(rest, own, ids, suffix) {
                let n = choose|n: int|
                    0 <= n < rest.len() && (#[trigger] rest[n]).0 == name && matched(
                        rest[n].1,
                        ids,
                        suffix,
                    );
                assert(nodes[n + 1].0 == name);
            }
            if exists|n: int|
                0 <= n < nodes.len() && (#[trigger] nodes[n]).0 != own && matched(
                    nodes[n].1,
                    ids,
                    suffix,
                ) {
                let n = choose|n: int|
                    0 <= n < nodes.len() && (#[trigger] nodes[n]).0 != own && matched(
                        nodes[n].1,
                        ids,
                        suffix,
                    );
                assert(rest[n - 1].0 != own);
            }
        }
    }
}

/// Every node that is listened on as well belongs to the same physical device, is one
/// of its further interfaces and is not the command node.
pub proof fn listen_nodes_belong_to_the_device(
    interfaces: Seq<u32>,
    nodes: Seq<(Seq<char>, Seq<char>)>,
    own: Seq<char>,
    ids: Seq<Seq<char>>,
    base: Seq<char>,
    k: int,
)
    requires
        0 <= k < listen_nodes(interfaces, nodes, own, ids, base).len(),
    ensures
        exists|m: int|
            0 <= m < interfaces.len() && is_listen_node(
                nodes,
                own,
                ids,
                base + interface_suffix(#[trigger] interfaces[m]),
                listen_nodes(interfaces, nodes, own, ids, base)[k],
            ),
    decreases interfaces.len(),
{
    let last = interfaces.len() - 1;
    let before = listen_nodes(interfaces.drop_last(), nodes, own, ids, base);
    lemma_listen_node(nodes, own, ids, base + interface_suffix(interfaces[last]));
    if k < before.len() {
        listen_nodes_belong_to_the_device(interfaces.drop_last(), nodes, own, ids, base, k);
        let m = choose|m: int|
            0 <= m < interfaces.drop_last().len() && is_listen_node(
                nodes,
                own,
                ids,
                base + interface_suffix(#[trigger] interfaces.drop_last()[m]),
                before[k],
            );
        assert(interfaces.drop_last()[m] == interfaces[m]);
    } else {
        assert(interfaces[last] == interfaces.last());
    }
}

/// A device is found where, and only where, some node is the command interface of one;
/// what is found is such a node with such a device.
pub proof fn a_device_is_found_where_there_is_one(
    table: Seq<DeviceSpec>,
    all: Seq<(Seq<char>, Seq<char>)>,
    rest: Seq<(Seq<char>, Seq<char>)>,
)
    ensures
        found_in(table, all, rest) is None <==> (forall|n: int, i: int|
            0 <= n < rest.len() && 0 <= i < table.len() ==> !takes_commands(
                #[trigger] table[i],
                (#[trigger] rest[n]).1,
            )),
        found_in(table, all, rest) matches Some(f) ==> exists|n: int, i: int|
            0 <= n < rest.len() && 0 <= i < table.len() && takes_commands(
                #[trigger] table[i],
                (#[trigger] rest[n]).1,
            ) && f == found_at(table[i], all, rest[n]),
    decreases rest.len(),
{
    if rest.len() > 0 {
        lemma_device_for(table, rest[0].1);
        if let Some(spec) = device_for(table, rest[0].1) {
            let i = choose|i: int|
                0 <= i < table.len() && #[trigger] table[i] == spec && takes_commands(
                    table[i],
                    rest[0].1,
                );
            assert(takes_commands(table[i], rest[0].1));
        } else {
            let tail = rest.drop_first();
            a_device_is_found_where_there_is_one(table, all, tail);
            if found_in(table, all, tail) is Some {
                let f = found_in(table, all, tail)->0;
                let (n, i) = choose|n: int, i: int|
                    0 <= n < tail.len() && 0 <= i < table.len() && takes_commands(
                        #[trigger] table[i],
                        (#[trigger] tail[n]).1,
                    ) && f == found_at(table[i], all, tail[n]);
                assert(rest[n + 1] == tail[n]);
            } else {
                assert forall|n: int, i: int|
                    0 <= n < rest.len() && 0 <= i < table.len() implies !takes_commands(
                    #[trigger] table[i],
                    (#[trigger] rest[n]).1,
                ) by {
                    if n > 0 {
                        assert(tail[n - 1] == rest[n]);
                    }
                }
            }
        }
    }
}

proof fn lemma_device_for(table: Seq<DeviceSpec>, content: Seq<char>)
    ensures
        device_for(table, content) is None <==> (forall|i: int|
            0 <= i < table.len() ==> !takes_commands(#[trigger] table[i], content)),
        device_for(table, content) matches Some(spec) ==> exists|i: int|
            0 <= i < table.len() && #[trigger] table[i] == spec && takes_commands(
                table[i],
                content,
            ),
    decreases table.len(),
{
    if table.len() > 0 {
        let tail = table.drop_first();
        lemma_device_for(tail, content);
        if takes_commands(table[0], content) {
            assert(table[0] == device_for(table, content)->0);
        } else if device_for(tail, content) is Some {
            let i = choose|i: int|
                0 <= i < tail.len() && #[trigger] tail[i] == device_for(tail, content)->0
                    && takes_commands(tail[i], content);
            assert(table[i + 1] == tail[i]);
        } else {
            assert forall|i: int| 0 <= i < table.len() implies !takes_commands(
                #[trigger] table[i],
                content,
            ) by {
                if i > 0 {
                    assert(tail[i - 1] == table[i]);
                }
            }
        }
    }
}

// ---------------------------------------------------------------------------
// Writing
// ---------------------------------------------------------------------------

/// What became of one write to a hidraw node.
pub enum WriteOutcome {
    Written,
    /// The kernel rejected the layout of the report.
    Rejected(String),
    /// Any other error.
    Failed(String),
}

/// What follows one write.
pub enum WriteStep {
    /// The command is written.
    Done,
    /// Write the command once more, in the other framing.
    Again,
    /// The command cannot be written.
    Failed(String),
}

/// The framing that commands are written in. The framing of some devices is a guess:
/// where the kernel rejects the layout of a report, the command is tried once more in
/// the other framing, which then stays in use.
#[derive(Clone, Copy, PartialEq, Eq, Debug, Structural)]
pub struct Writer {
    /// Reports are unnumbered.
    pub unnumbered: bool,
    /// The command at hand was rejected once.
    pub retried: bool,
}

/// The framing in words.
pub open spec fn framing_name(unnumbered: bool) -> Seq<char> {
    if unnumbered {
        "unnumbered"@
    } else {
        "numbered"@
    }
}

/// What is logged when the framing changes.
pub open spec fn switch_message(unnumbered: bool) -> Seq<char> {
    "hidraw rejected write, switching to "@ + framing_name(unnumbered) + " report framing"@
}

impl Writer {
    /// The framing of a device.
    pub fn new(spec: &DeviceSpec) -> (r: Writer)
        ensures
            r == (Writer { unnumbered: spec.unnumbered_reports, retried: false }),
    {
        Writer { unnumbered: spec.unnumbered_reports, retried: false }
    }

    /// The bytes to write for a command.
    pub fn frame(&self, cmd: &[u8]) -> (r: Vec<u8>)
        ensures
            r@ == framed(cmd@, self.unnumbered),
    {
        frame_command(cmd, self.unnumbered)
    }

    /// The writer after a write came to `outcome`.
    pub open spec fn after(self, outcome: WriteOutcome) -> Writer {
        if outcome is Rejected && !self.retried {
            Writer { unnumbered: !self.unnumbered, retried: true }
        } else {
            Writer { unnumbered: self.unnumbered, retried: false }
        }
    }

    /// Goes on after a write of the command at hand.
    pub fn write_command(&mut self, outcome: WriteOutcome) -> (r: WriteStep)
        ensures
            *final(self) == old(self).after(outcome),
            r is Done <==> outcome is Written,
            r is Again <==> outcome is Rejected && !old(self).retried,
            r matches WriteStep::Failed(e) ==> outcome == WriteOutcome::Failed(e) || outcome
                == WriteOutcome::Rejected(e),
    {
        match outcome {
            WriteOutcome::Written => {
                self.retried = false;
                WriteStep::Done
            },
            WriteOutcome::Rejected(e) => if self.retried {
                self.retried = false;
                WriteStep::Failed(e)
            } else {
                self.unnumbered = !self.unnumbered;
                self.retried = true;
                WriteStep::Again
            },
            WriteOutcome::Failed(e) => {
                self.retried = false;
                WriteStep::Failed(e)
            },
        }
    }

    /// What is logged when the framing has changed.
    pub fn switched(&self) -> (r: String)
        ensures
            r@ == switch_message(self.unnumbered),
    {
        let mut r = "hidraw rejected write, switching to ".to_owned();
        r.append(
            if self.unnumbered {
                "unnumbered"
            } else {
                "numbered"
            },
        );
        r.append(" report framing");
        r
    }
}

/// A command is written twice at most: after the second write it is done or failed,
/// whatever came of it. What the kernel accepted stays in use.
pub proof fn a_command_is_tried_twice_at_most(
    writer: Writer,
    first: WriteOutcome,
    second: WriteOutcome,
)
    requires
        !writer.retried,
    ensures
        first is Rejected <==> writer.after(first).retried,
        !writer.after(first).after(second).retried || !writer.after(first).retried,
        first is Rejected ==> writer.after(first).after(second).unnumbered == !writer.unnumbered,
        first !is Rejected ==> writer.after(first) == writer,
{
}

} // verus!
