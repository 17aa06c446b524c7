//! What discovery finds, in terms of the lines that the kernel gives for each node.
use vstd::prelude::*;

use crate::catalog::is_catalog;
use crate::devices::DeviceSpec;
use crate::hid::{
    a_uevent_is_of_one_device, device_for, first_value, found_at, found_in, hid_id, ids_of,
    interface_suffix, last_value, listen_node, listen_nodes, matched, physical_base,
    takes_commands,
};
use crate::text::{before_last, decimal, ends_with, hex, lines, starts_with, strip_prefix};
use crate::text_laws::{
    a_decimal_is_read_back, a_prefix_is_stripped, a_suffix_is_stripped,
    the_last_occurrence_is_found, what_is_stripped_was_there,
};

verus! {

// ---------------------------------------------------------------------------
// What a uevent says
// ---------------------------------------------------------------------------

/// The line is `key` and something behind it.
pub open spec fn is_of(line: Seq<char>, key: Seq<char>) -> bool {
    key.len() <= line.len() && line.take(key.len() as int) == key
}

/// Among the lines, the last of this key gives it this value.
pub open spec fn lines_say(all: Seq<Seq<char>>, key: Seq<char>, value: Seq<char>) -> bool {
    exists|i: int|
        0 <= i < all.len() && #[trigger] all[i] == key + value && forall|j: int|
            i < j < all.len() ==> !is_of(#[trigger] all[j], key)
}

/// The uevent gives the key this value.
pub open spec fn says(content: Seq<char>, key: Seq<char>, value: Seq<char>) -> bool {
    lines_say(lines(content), key, value)
}

/// The uevent gives the key this value, and has no other line of this key.
pub open spec fn says_only(content: Seq<char>, key: Seq<char>, value: Seq<char>) -> bool {
    exists|i: int|
        0 <= i < lines(content).len() && #[trigger] lines(content)[i] == key + value
            && forall|j: int|
            0 <= j < lines(content).len() && j != i ==> !is_of(#[trigger] lines(content)[j], key)
}

proof fn lemma_is_of(line: Seq<char>, key: Seq<char>)
    ensures
        is_of(line, key) <==> strip_prefix(line, key) is Some,
        strip_prefix(line, key) matches Some(v) ==> line == key + v,
{
    what_is_stripped_was_there(line, key);
    if is_of(line, key) {
        assert(line.subrange(0, key.len() as int) =~= line.take(key.len() as int));
    }
    if starts_with(line, key) {
        assert(line.subrange(0, key.len() as int) =~= line.take(key.len() as int));
    }
}

proof fn lemma_last_value(all: Seq<Seq<char>>, key: Seq<char>)
    ensures
        last_value(all, key) matches Some(v) ==> lines_say(all, key, v),
        last_value(all, key) is None ==> forall|j: int|
            0 <= j < all.len() ==> !is_of(#[trigger] all[j], key),
        forall|v: Seq<char>| #[trigger] lines_say(all, key, v) ==> last_value(all, key) == Some(v),
    decreases all.len(),
{
    if all.len() > 0 {
        let rest = all.drop_last();
        let last = all.len() - 1;
        lemma_last_value(rest, key);
        lemma_is_of(all[last], key);
        if is_of(all[last], key) {
            let v = strip_prefix(all[last], key)->0;
            assert(all[last] == key + v);
            assert(lines_say(all, key, v));
            assert forall|w: Seq<char>| #[trigger] lines_say(all, key, w) implies w == v by {
                let i = choose|i: int|
                    0 <= i < all.len() && #[trigger] all[i] == key + w && forall|j: int|
                        i < j < all.len() ==> !is_of(#[trigger] all[j], key);
                assert(i == last);
                assert(w =~= (key + w).skip(key.len() as int));
                assert(v =~= (key + v).skip(key.len() as int));
            }
        } else {
            if let Some(v) = last_value(rest, key) {
                let i = choose|i: int|
                    0 <= i < rest.len() && #[trigger] rest[i] == key + v && forall|j: int|
                        i < j < rest.len() ==> !is_of(#[trigger] rest[j], key);
                assert(all[i] == key + v);
                assert forall|j: int| i < j < all.len() implies !is_of(#[trigger] all[j], key) by {
                    if j < last {
                        assert(rest[j] == all[j]);
                    }
                }
            } else {
                assert forall|j: int| 0 <= j < all.len() implies !is_of(
                    #[trigger] all[j],
                    key,
                ) by {
                    if j < last {
                        assert(rest[j] == all[j]);
                    }
                }
            }
            assert forall|w: Seq<char>| #[trigger] lines_say(all, key, w) implies last_value(
                all,
                key,
            ) == Some(w) by {
                let i = choose|i: int|
                    0 <= i < all.len() && #[trigger] all[i] == key + w && forall|j: int|
                        i < j < all.len() ==> !is_of(#[trigger] all[j], key);
                assert((key + w).take(key.len() as int) =~= key);
                assert(i != last);
                assert(rest[i] == key + w);
                assert forall|j: int| i < j < rest.len() implies !is_of(
                    #[trigger] rest[j],
                    key,
                ) by {
                    assert(rest[j] == all[j]);
                }
                assert(lines_say(rest, key, w));
            }
        }
    }
}

proof fn lemma_first_value(all: Seq<Seq<char>>, key: Seq<char>, value: Seq<char>, i: int)
    requires
        0 <= i < all.len(),
        all[i] == key + value,
        forall|j: int| 0 <= j < i ==> !is_of(#[trigger] all[j], key),
    ensures
        first_value(all, key) == Some(value),
    decreases i,
{
    lemma_is_of(all[0], key);
    if i == 0 {
        a_prefix_is_stripped(key, value);
    } else {
        assert(!is_of(all[0], key));
        let rest = all.drop_first();
        assert(rest[i - 1] == all[i]);
        assert forall|j: int| 0 <= j < i - 1 implies !is_of(#[trigger] rest[j], key) by {
            assert(rest[j] == all[j + 1]);
        }
        lemma_first_value(rest, key, value, i - 1);
    }
}

// ---------------------------------------------------------------------------
// The command node
// ---------------------------------------------------------------------------

/// The `HID_ID` of a product: bus 3, vendor 1038, and the product in upper-case hexadecimal.
pub open spec fn usb_hid_id(product: u16) -> Seq<char> {
    "0003:00001038:"@ + hex(product as nat, 8, true)
}

/// The uevent has the `HID_ID` of one of the device's products.
pub open spec fn is_of_device(spec: DeviceSpec, content: Seq<char>) -> bool {
    exists|p: int|
        0 <= p < spec.product_ids@.len() && says(
            content,
            "HID_ID="@,
            usb_hid_id(#[trigger] spec.product_ids@[p]),
        )
}

/// The uevent's physical path is this and `/input` with the number of the interface.
pub open spec fn is_at_interface(content: Seq<char>, path: Seq<char>, interface: u32) -> bool {
    says(content, "HID_PHYS="@, path + "/input"@ + decimal(interface as nat))
}

/// The uevent is that of the device's own command interface.
pub open spec fn qualifies(spec: DeviceSpec, content: Seq<char>) -> bool {
    is_of_device(spec, content) && exists|path: Seq<char>| #[trigger]
        is_at_interface(content, path, spec.command_interface)
}

proof fn lemma_hid_id(product: u16)
    ensures
        hid_id(product) == usb_hid_id(product),
{
    reveal_strlit("0003:");
    reveal_strlit(":");
    reveal_strlit("0003:00001038:");
    reveal_with_fuel(hex, 9);
    assert(hex(0x1038, 8, true) =~= seq!['0', '0', '0', '0', '1', '0', '3', '8']);
    assert("0003:"@ + hex(0x1038, 8, true) + ":"@ =~= "0003:00001038:"@);
}

proof fn lemma_ids(spec: DeviceSpec, content: Seq<char>)
    ensures
        ({
            let v = last_value(lines(content), "HID_ID="@);
            is_of_device(spec, content) <==> v is Some && ids_of(spec).contains(v->0)
        }),
{
    let v = last_value(lines(content), "HID_ID="@);
    lemma_last_value(lines(content), "HID_ID="@);
    if is_of_device(spec, content) {
        let p = choose|p: int|
            0 <= p < spec.product_ids@.len() && says(
                content,
                "HID_ID="@,
                usb_hid_id(#[trigger] spec.product_ids@[p]),
            );
        lemma_hid_id(spec.product_ids@[p]);
        assert(ids_of(spec)[p] == v->0);
    }
    if v is Some && ids_of(spec).contains(v->0) {
        let p = choose|p: int| 0 <= p < ids_of(spec).len() && ids_of(spec)[p] == v->0;
        lemma_hid_id(spec.product_ids@[p]);
        assert(says(content, "HID_ID="@, usb_hid_id(spec.product_ids@[p])));
    }
}

proof fn lemma_path(content: Seq<char>, base: Seq<char>, interface: u32)
    ensures
        ({
            let v = last_value(lines(content), "HID_PHYS="@);
            (v is Some && ends_with(v->0, base + interface_suffix(interface))) <==> exists|
                head: Seq<char>,
            | #[trigger]
                is_at_interface(content, head + base, interface)
        }),
{
    let v = last_value(lines(content), "HID_PHYS="@);
    let suffix = base + interface_suffix(interface);
    lemma_last_value(lines(content), "HID_PHYS="@);
    if v is Some && ends_with(v->0, suffix) {
        what_is_stripped_was_there(v->0, suffix);
        let head = crate::text::strip_suffix(v->0, suffix)->0;
        assert(head + suffix =~= head + base + "/input"@ + decimal(interface as nat));
        assert(is_at_interface(content, head + base, interface));
    }
    if exists|head: Seq<char>| #[trigger] is_at_interface(content, head + base, interface) {
        let head = choose|head: Seq<char>| #[trigger]
            is_at_interface(content, head + base, interface);
        assert(head + suffix =~= head + base + "/input"@ + decimal(interface as nat));
        a_suffix_is_stripped(head, suffix);
    }
}

proof fn lemma_qualifies(spec: DeviceSpec, content: Seq<char>)
    ensures
        takes_commands(spec, content) <==> qualifies(spec, content),
{
    lemma_ids(spec, content);
    lemma_path(content, seq![], spec.command_interface);
    assert(seq![] + interface_suffix(spec.command_interface) =~= interface_suffix(
        spec.command_interface,
    ));
    if qualifies(spec, content) {
        let path = choose|path: Seq<char>| #[trigger]
            is_at_interface(content, path, spec.command_interface);
        assert(path + Seq::<char>::empty() =~= path);
        assert(is_at_interface(content, path + Seq::<char>::empty(), spec.command_interface));
    }
}

proof fn lemma_device_for(table: Seq<DeviceSpec>, content: Seq<char>)
    ensures
        device_for(table, content) is None <==> forall|j: int|
            0 <= j < table.len() ==> !qualifies(#[trigger] table[j], content),
        device_for(table, content) matches Some(spec) ==> exists|j: int|
            0 <= j < table.len() && #[trigger] table[j] == spec && qualifies(table[j], content),
    decreases table.len(),
{
    if table.len() > 0 {
        let rest = table.drop_first();
        lemma_device_for(rest, content);
        lemma_qualifies(table[0], content);
        if takes_commands(table[0], content) {
            assert(qualifies(table[0], content));
        } else if let Some(spec) = device_for(rest, content) {
            let j = choose|j: int|
                0 <= j < rest.len() && #[trigger] rest[j] == spec && qualifies(rest[j], content);
            assert(table[j + 1] == spec);
        } else {
            assert forall|j: int| 0 <= j < table.len() implies !qualifies(
                #[trigger] table[j],
                content,
            ) by {
                if j > 0 {
                    assert(rest[j - 1] == table[j]);
                }
            }
        }
    }
}

/// The node is the command node of no device.
pub open spec fn is_foreign(table: Seq<DeviceSpec>, node: (Seq<char>, Seq<char>)) -> bool {
    forall|j: int| 0 <= j < table.len() ==> !qualifies(#[trigger] table[j], node.1)
}

proof fn lemma_found(
    table: Seq<DeviceSpec>,
    all: Seq<(Seq<char>, Seq<char>)>,
    rest: Seq<(Seq<char>, Seq<char>)>,
    n: int,
)
    requires
        0 <= n <= rest.len(),
        forall|m: int| 0 <= m < n ==> is_foreign(table, #[trigger] rest[m]),
        n < rest.len() ==> !is_foreign(table, rest[n]),
    ensures
        n == rest.len() ==> found_in(table, all, rest) is None,
        n < rest.len() ==> device_for(table, rest[n].1) is Some && found_in(table, all, rest)
            == Some(found_at(device_for(table, rest[n].1)->0, all, rest[n])),
    decreases rest.len(),
{
    if rest.len() > 0 {
        lemma_device_for(table, rest[0].1);
        if n > 0 {
            assert(is_foreign(table, rest[0]));
            let tail = rest.drop_first();
            assert forall|m: int| 0 <= m < n - 1 implies is_foreign(table, #[trigger] tail[m]) by {
                assert(tail[m] == rest[m + 1]);
            }
            lemma_found(table, all, tail, n - 1);
        }
    }
}

/// The first node whose uevent gives the `HID_ID` of a device and a physical path that ends in
/// `/input` and that device's own command interface is found, as that device.
pub proof fn a_command_node_is_found(
    table: Seq<DeviceSpec>,
    nodes: Seq<(Seq<char>, Seq<char>)>,
    n: int,
    i: int,
    p: int,
    path: Seq<char>,
)
    requires
        is_catalog(table),
        0 <= n < nodes.len(),
        0 <= i < table.len(),
        0 <= p < table[i].product_ids@.len(),
        says(nodes[n].1, "HID_ID="@, usb_hid_id(table[i].product_ids@[p])),
        says(
            nodes[n].1,
            "HID_PHYS="@,
            path + "/input"@ + decimal(table[i].command_interface as nat),
        ),
        forall|m: int| 0 <= m < n ==> is_foreign(table, #[trigger] nodes[m]),
    ensures
        found_in(table, nodes, nodes) matches Some(found) && found.0 == table[i] && found.1
            == nodes[n].0 && found.2 == found_at(table[i], nodes, nodes[n]).2,
{
    let content = nodes[n].1;
    assert(is_at_interface(content, path, table[i].command_interface));
    assert(qualifies(table[i], content));
    assert(!is_foreign(table, nodes[n]));
    lemma_found(table, nodes, nodes, n);
    lemma_device_for(table, content);
    let spec = device_for(table, content)->0;
    let j = choose|j: int|
        0 <= j < table.len() && #[trigger] table[j] == spec && qualifies(table[j], content);
    lemma_qualifies(table[i], content);
    lemma_qualifies(table[j], content);
    a_uevent_is_of_one_device(
        table,
        i,
        j,
        content,
        interface_suffix(table[i].command_interface),
        interface_suffix(table[j].command_interface),
    );
}

/// What is found is the first node that is the command interface of a device, with such a
/// device; nothing is found only where there is no such node.
pub proof fn what_is_found_is_a_command_node(
    table: Seq<DeviceSpec>,
    nodes: Seq<(Seq<char>, Seq<char>)>,
)
    ensures
        found_in(table, nodes, nodes) is None <==> forall|m: int|
            0 <= m < nodes.len() ==> is_foreign(table, #[trigger] nodes[m]),
        found_in(table, nodes, nodes) matches Some(found) ==> exists|n: int, i: int|
            #![trigger nodes[n], table[i]]
            0 <= n < nodes.len() && 0 <= i < table.len() && found.0 == table[i] && found.1
                == nodes[n].0 && qualifies(table[i], nodes[n].1) && forall|m: int|
                0 <= m < n ==> is_foreign(table, #[trigger] nodes[m]),
{
    let n = lemma_first_found(table, nodes);
    lemma_found(table, nodes, nodes, n);
    if n < nodes.len() {
        lemma_device_for(table, nodes[n].1);
        let spec = device_for(table, nodes[n].1)->0;
        let i = choose|i: int|
            0 <= i < table.len() && #[trigger] table[i] == spec && qualifies(
                table[i],
                nodes[n].1,
            );
        let found = found_in(table, nodes, nodes)->0;
        assert(nodes[n].0 == found.1);
        assert(table[i] == spec);
    }
}

proof fn lemma_first_found(
    table: Seq<DeviceSpec>,
    nodes: Seq<(Seq<char>, Seq<char>)>,
) -> (n: int)
    ensures
        0 <= n <= nodes.len(),
        forall|m: int| 0 <= m < n ==> is_foreign(table, #[trigger] nodes[m]),
        n < nodes.len() ==> !is_foreign(table, nodes[n]),
    decreases nodes.len(),
{
    if nodes.len() == 0 || !is_foreign(table, nodes[0]) {
        0
    } else {
        let rest = nodes.drop_first();
        let n = lemma_first_found(table, rest);
        assert forall|m: int| 0 <= m < n + 1 implies is_foreign(table, #[trigger] nodes[m]) by {
            if m > 0 {
                assert(nodes[m] == rest[m - 1]);
            }
        }
        n + 1
    }
}

// ---------------------------------------------------------------------------
// Nodes to listen on
// ---------------------------------------------------------------------------

/// The node is another one than `own`, has the `HID_ID` of one of the device's products, and is
/// this interface at a physical path that ends in `base`.
pub open spec fn is_sibling(
    spec: DeviceSpec,
    own: Seq<char>,
    base: Seq<char>,
    interface: u32,
    node: (Seq<char>, Seq<char>),
) -> bool {
    node.0 != own && is_of_device(spec, node.1) && exists|head: Seq<char>| #[trigger]
        is_at_interface(node.1, head + base, interface)
}

proof fn lemma_sibling(
    spec: DeviceSpec,
    own: Seq<char>,
    base: Seq<char>,
    interface: u32,
    node: (Seq<char>, Seq<char>),
)
    ensures
        is_sibling(spec, own, base, interface, node) <==> node.0 != own && matched(
            node.1,
            ids_of(spec),
            base + interface_suffix(interface),
        ),
{
    lemma_ids(spec, node.1);
    lemma_path(node.1, base, interface);
}

proof fn lemma_listen_node(
    spec: DeviceSpec,
    nodes: Seq<(Seq<char>, Seq<char>)>,
    own: Seq<char>,
    base: Seq<char>,
    interface: u32,
)
    ensures
        ({
            let found = listen_node(nodes, own, ids_of(spec), base + interface_suffix(interface));
            &&& found is None <==> forall|m: int|
                0 <= m < nodes.len() ==> !is_sibling(
                    spec,
                    own,
                    base,
                    interface,
                    #[trigger] nodes[m],
                )
            &&& found matches Some(name) ==> exists|m: int|
                0 <= m < nodes.len() && is_sibling(spec, own, base, interface, #[trigger] nodes[m])
                    && nodes[m].0 == name
        }),
    decreases nodes.len(),
{
    if nodes.len() > 0 {
        let rest = nodes.drop_first();
        lemma_listen_node(spec, rest, own, base, interface);
        lemma_sibling(spec, own, base, interface, nodes[0]);
        let found = listen_node(rest, own, ids_of(spec), base + interface_suffix(interface));
        if is_sibling(spec, own, base, interface, nodes[0]) {
        } else if let Some(name) = found {
            let m = choose|m: int|
                0 <= m < rest.len() && is_sibling(spec, own, base, interface, #[trigger] rest[m])
                    && rest[m].0 == name;
            assert(nodes[m + 1] == rest[m]);
        } else {
            assert forall|m: int| 0 <= m < nodes.len() implies !is_sibling(
                spec,
                own,
                base,
                interface,
                #[trigger] nodes[m],
            ) by {
                if m > 0 {
                    assert(rest[m - 1] == nodes[m]);
                }
            }
        }
    }
}

/// Some name of the list is that of a sibling at this interface.
pub open spec fn lists_sibling(
    spec: DeviceSpec,
    nodes: Seq<(Seq<char>, Seq<char>)>,
    own: Seq<char>,
    base: Seq<char>,
    interface: u32,
    names: Seq<Seq<char>>,
) -> bool {
    exists|q: int, m: int|
        #![trigger names[q], nodes[m]]
        0 <= q < names.len() && 0 <= m < nodes.len() && names[q] == nodes[m].0 && is_sibling(
            spec,
            own,
            base,
            interface,
            nodes[m],
        )
}

proof fn lemma_listen_nodes(
    spec: DeviceSpec,
    interfaces: Seq<u32>,
    nodes: Seq<(Seq<char>, Seq<char>)>,
    own: Seq<char>,
    base: Seq<char>,
    k: int,
    m: int,
)
    requires
        0 <= k < interfaces.len(),
        0 <= m < nodes.len(),
        is_sibling(spec, own, base, interfaces[k], nodes[m]),
    ensures
        lists_sibling(
            spec,
            nodes,
            own,
            base,
            interfaces[k],
            listen_nodes(interfaces, nodes, own, ids_of(spec), base),
        ),
    decreases interfaces.len(),
{
    let names = listen_nodes(interfaces, nodes, own, ids_of(spec), base);
    let before = listen_nodes(interfaces.drop_last(), nodes, own, ids_of(spec), base);
    let last = interfaces.len() - 1;
    lemma_listen_node(spec, nodes, own, base, interfaces[last]);
    if k == last {
        let name = listen_node(
            nodes,
            own,
            ids_of(spec),
            base + interface_suffix(interfaces[last]),
        )->0;
        let at = choose|at: int|
            0 <= at < nodes.len() && is_sibling(
                spec,
                own,
                base,
                interfaces[last],
                #[trigger] nodes[at],
            ) && nodes[at].0 == name;
        assert(names[before.len() as int] == nodes[at].0);
    } else {
        lemma_listen_nodes(spec, interfaces.drop_last(), nodes, own, base, k, m);
        let (q, at) = choose|q: int, at: int|
            #![trigger before[q], nodes[at]]
            0 <= q < before.len() && 0 <= at < nodes.len() && before[q] == nodes[at].0
                && is_sibling(spec, own, base, interfaces[k], nodes[at]);
        assert(names[q] == nodes[at].0);
    }
}

proof fn lemma_base(content: Seq<char>, base: Seq<char>, interface: u32)
    requires
        says_only(
            content,
            "HID_PHYS="@,
            base + "/input"@ + decimal(interface as nat),
        ),
    ensures
        physical_base(content) == base,
{
    let key = "HID_PHYS="@;
    let number = decimal(interface as nat);
    let path = base + "/input"@ + number;
    let all = lines(content);
    let i = choose|i: int|
        0 <= i < all.len() && #[trigger] all[i] == key + path && forall|j: int|
            0 <= j < all.len() && j != i ==> !is_of(#[trigger] all[j], key);
    lemma_first_value(all, key, path, i);
    reveal_strlit("/input");
    let p = "/input"@;
    the_last_occurrence_is_found(path, p);
    a_decimal_is_read_back(interface as nat);
    assert(path.subrange(base.len() as int, (base.len() + p.len()) as int) =~= p);
    assert(before_last(path, p) is Some);
    let cut = before_last(path, p)->0;
    assert(path.take((cut.len() + p.len()) as int) == cut + p);
    let at = cut.len() as int;
    assert(path[at] == (cut + p)[at]);
    assert(path[at] == '/');
    if at > base.len() {
        let k = at - base.len();
        if k < p.len() {
            assert(path[at] == p[k]);
        } else {
            assert(path[at] == number[k - p.len()]);
        }
    }
    assert(at == base.len());
    assert(cut =~= (cut + p).take(at));
    assert(cut =~= path.take(at));
    assert(path.take(at) =~= base);
}

/// Every further interface of the device that exists at the same physical path is listened on:
/// where some node is such an interface, the list holds a node that is.
pub proof fn siblings_are_listened_on(
    spec: DeviceSpec,
    nodes: Seq<(Seq<char>, Seq<char>)>,
    command: (Seq<char>, Seq<char>),
    base: Seq<char>,
    k: int,
    m: int,
)
    requires
        says_only(
            command.1,
            "HID_PHYS="@,
            base + "/input"@ + decimal(spec.command_interface as nat),
        ),
        0 <= k < spec.extra_listen_interfaces@.len(),
        0 <= m < nodes.len(),
        is_sibling(spec, command.0, base, spec.extra_listen_interfaces@[k], nodes[m]),
    ensures
        lists_sibling(
            spec,
            nodes,
            command.0,
            base,
            spec.extra_listen_interfaces@[k],
            found_at(spec, nodes, command).2,
        ),
{
    lemma_base(command.1, base, spec.command_interface);
    lemma_listen_nodes(spec, spec.extra_listen_interfaces@, nodes, command.0, base, k, m);
}

proof fn lemma_only_siblings(
    spec: DeviceSpec,
    interfaces: Seq<u32>,
    nodes: Seq<(Seq<char>, Seq<char>)>,
    own: Seq<char>,
    base: Seq<char>,
    q: int,
)
    requires
        0 <= q < listen_nodes(interfaces, nodes, own, ids_of(spec), base).len(),
    ensures
        exists|k: int, m: int|
            #![trigger interfaces[k], nodes[m]]
            0 <= k < interfaces.len() && 0 <= m < nodes.len() && nodes[m].0 == listen_nodes(
                interfaces,
                nodes,
                own,
                ids_of(spec),
                base,
            )[q] && is_sibling(spec, own, base, interfaces[k], nodes[m]),
    decreases interfaces.len(),
{
    let before = listen_nodes(interfaces.drop_last(), nodes, own, ids_of(spec), base);
    let last = interfaces.len() - 1;
    lemma_listen_node(spec, nodes, own, base, interfaces[last]);
    if q < before.len() {
        lemma_only_siblings(spec, interfaces.drop_last(), nodes, own, base, q);
        let rest = interfaces.drop_last();
        let (k, m) = choose|k: int, m: int|
            #![trigger rest[k], nodes[m]]
            0 <= k < rest.len() && 0 <= m < nodes.len() && nodes[m].0 == before[q] && is_sibling(
                spec,
                own,
                base,
                rest[k],
                nodes[m],
            );
        assert(interfaces[k] == rest[k]);
    } else {
        let name = listen_nodes(interfaces, nodes, own, ids_of(spec), base)[q];
        let at = choose|at: int|
            0 <= at < nodes.len() && is_sibling(
                spec,
                own,
                base,
                interfaces[last],
                #[trigger] nodes[at],
            ) && nodes[at].0 == name;
        assert(nodes[at].0 == name);
        assert(interfaces[last] == interfaces.last());
    }
}

/// Nothing else is listened on.
pub proof fn only_siblings_are_listened_on(
    spec: DeviceSpec,
    nodes: Seq<(Seq<char>, Seq<char>)>,
    command: (Seq<char>, Seq<char>),
    base: Seq<char>,
    q: int,
)
    requires
        says_only(
            command.1,
            "HID_PHYS="@,
            base + "/input"@ + decimal(spec.command_interface as nat),
        ),
        0 <= q < found_at(spec, nodes, command).2.len(),
    ensures
        exists|k: int, m: int|
            #![trigger spec.extra_listen_interfaces@[k], nodes[m]]
            0 <= k < spec.extra_listen_interfaces@.len() && 0 <= m < nodes.len() && nodes[m].0
                == found_at(spec, nodes, command).2[q] && is_sibling(
                spec,
                command.0,
                base,
                spec.extra_listen_interfaces@[k],
                nodes[m],
            ),
{
    lemma_base(command.1, base, spec.command_interface);
    lemma_only_siblings(spec, spec.extra_listen_interfaces@, nodes, command.0, base, q);
}

// ---------------------------------------------------------------------------
// Single uevents
// ---------------------------------------------------------------------------

/// A uevent matches where its `HID_ID` is one of the ids and its physical path ends in the
/// suffix.
pub proof fn a_uevent_matches_by_its_two_lines(
    content: Seq<char>,
    ids: Seq<Seq<char>>,
    suffix: Seq<char>,
)
    ensures
        matched(content, ids, suffix) <==> (exists|i: int|
            0 <= i < ids.len() && says(content, "HID_ID="@, #[trigger] ids[i])) && exists|
            head: Seq<char>,
        |
            says(content, "HID_PHYS="@, #[trigger] (head + suffix)),
{
    lemma_last_value(lines(content), "HID_ID="@);
    lemma_last_value(lines(content), "HID_PHYS="@);
    let id = last_value(lines(content), "HID_ID="@);
    let path = last_value(lines(content), "HID_PHYS="@);
    if matched(content, ids, suffix) {
        let i = choose|i: int| 0 <= i < ids.len() && ids[i] == id->0;
        assert(says(content, "HID_ID="@, ids[i]));
        what_is_stripped_was_there(path->0, suffix);
        let head = crate::text::strip_suffix(path->0, suffix)->0;
        assert(says(content, "HID_PHYS="@, head + suffix));
    }
    if exists|i: int| 0 <= i < ids.len() && says(content, "HID_ID="@, #[trigger] ids[i]) {
        let i = choose|i: int| 0 <= i < ids.len() && says(content, "HID_ID="@, #[trigger] ids[i]);
        assert(id == Some(ids[i]));
        assert(ids.contains(ids[i]));
    }
    if exists|head: Seq<char>| says(content, "HID_PHYS="@, #[trigger] (head + suffix)) {
        let head = choose|head: Seq<char>|
            says(content, "HID_PHYS="@, #[trigger] (head + suffix));
        a_suffix_is_stripped(head, suffix);
    }
}

/// The `HID_ID`s of a device are those of its products, in order.
pub proof fn every_product_has_its_id(spec: DeviceSpec)
    ensures
        ids_of(spec).len() == spec.product_ids@.len(),
        forall|p: int|
            0 <= p < spec.product_ids@.len() ==> #[trigger] ids_of(spec)[p] == usb_hid_id(
                spec.product_ids@[p],
            ),
{
    assert forall|p: int| 0 <= p < spec.product_ids@.len() implies #[trigger] ids_of(spec)[p]
        == usb_hid_id(spec.product_ids@[p]) by {
        lemma_hid_id(spec.product_ids@[p]);
    }
}

/// The physical path of a device is that of its interface without `/input` and the number; a
/// uevent without such a path gives none.
pub proof fn the_path_of_a_device_ends_before_its_interface(
    content: Seq<char>,
    base: Seq<char>,
    interface: u32,
)
    requires
        says_only(content, "HID_PHYS="@, base + "/input"@ + decimal(interface as nat)),
    ensures
        physical_base(content) == base,
{
    lemma_base(content, base, interface);
}

} // verus!
