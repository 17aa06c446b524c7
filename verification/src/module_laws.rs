//! What module arguments are read as, which modules are ours, and what is asked of the server.
use vstd::prelude::*;

use crate::modules::{
    arg_tokens, command_result, default_sink_name, is_literal, key_values, lemma_scan_concat,
    lemma_scan_run, loaded, mix_commands, module_argument, module_line, notify_arguments,
    our_module, our_name, our_pair, scan_char, scan_from, scan_start, setup_commands,
    unload_commands, Scan,
};
use crate::text::{
    decimal, digits_only, is_digit, is_space, joined, lemma_find_at, parsed_u32, spaces_escaped,
    split, strip_suffix, trim,
};
use crate::text_laws::{
    a_decimal_is_read_back, a_suffix_is_stripped, is_blank, what_is_stripped_was_there,
    what_is_surrounded_by_blanks_is_kept,
};

verus! {

// ---------------------------------------------------------------------------
// Arguments
// ---------------------------------------------------------------------------

/// How a token is written.
pub enum Style {
    /// As it is.
    Plain,
    /// Between double quotes, with a backslash before each double quote and each backslash.
    Quoted,
    /// With a backslash before each character.
    Escaped,
}

/// `t` with a backslash before each double quote and each backslash.
pub open spec fn shielded(t: Seq<char>) -> Seq<char>
    decreases t.len(),
{
    if t.len() == 0 {
        seq![]
    } else if is_literal(t[0]) {
        seq![t[0]] + shielded(t.drop_first())
    } else {
        seq!['\\', t[0]] + shielded(t.drop_first())
    }
}

/// `t` with a backslash before each character.
pub open spec fn escaped(t: Seq<char>) -> Seq<char>
    decreases t.len(),
{
    if t.len() == 0 {
        seq![]
    } else {
        seq!['\\', t[0]] + escaped(t.drop_first())
    }
}

/// A token as it is written.
pub open spec fn written(t: Seq<char>, style: Style) -> Seq<char> {
    match style {
        Style::Plain => t,
        Style::Quoted => seq!['"'] + shielded(t) + seq!['"'],
        Style::Escaped => escaped(t),
    }
}

/// The token can be written so.
pub open spec fn can_be_written(t: Seq<char>, style: Style) -> bool {
    t.len() > 0 && (style is Plain ==> forall|i: int|
        0 <= i < t.len() ==> is_literal(#[trigger] t[i]) && !is_space(t[i]))
}

/// The tokens as they are written, each followed by the blank character.
pub open spec fn written_all(tokens: Seq<(Seq<char>, Style)>, blank: char) -> Seq<char>
    decreases tokens.len(),
{
    if tokens.len() == 0 {
        seq![]
    } else {
        written_all(tokens.drop_last(), blank) + written(tokens.last().0, tokens.last().1) + seq![
            blank,
        ]
    }
}

proof fn lemma_one(scan: Scan, c: char)
    ensures
        scan_from(scan, seq![c]) == scan_char(scan, c),
{
    reveal_with_fuel(scan_from, 2);
    assert(seq![c].drop_first() =~= seq![]);
}

proof fn lemma_two(scan: Scan, c: char)
    requires
        !scan.escaped,
    ensures
        scan_from(scan, seq!['\\', c]) == (Scan { token: scan.token.push(c), ..scan }),
{
    assert(seq!['\\', c] =~= seq!['\\'] + seq![c]);
    lemma_scan_concat(scan, seq!['\\'], seq![c]);
    lemma_one(scan, '\\');
    lemma_one(Scan { escaped: true, ..scan }, c);
}

proof fn lemma_shielded(scan: Scan, t: Seq<char>)
    requires
        !scan.escaped,
        scan.quoted,
    ensures
        scan_from(scan, shielded(t)) == (Scan { token: scan.token + t, ..scan }),
    decreases t.len(),
{
    if t.len() == 0 {
        assert(scan.token + t =~= scan.token);
    } else {
        let head = if is_literal(t[0]) {
            seq![t[0]]
        } else {
            seq!['\\', t[0]]
        };
        let next = Scan { token: scan.token.push(t[0]), ..scan };
        if is_literal(t[0]) {
            lemma_one(scan, t[0]);
        } else {
            lemma_two(scan, t[0]);
        }
        assert(scan_from(scan, head) == next);
        lemma_scan_concat(scan, head, shielded(t.drop_first()));
        lemma_shielded(next, t.drop_first());
        assert(scan.token.push(t[0]) + t.drop_first() =~= scan.token + t);
    }
}

proof fn lemma_escaped(scan: Scan, t: Seq<char>)
    requires
        !scan.escaped,
    ensures
        scan_from(scan, escaped(t)) == (Scan { token: scan.token + t, ..scan }),
    decreases t.len(),
{
    if t.len() == 0 {
        assert(scan.token + t =~= scan.token);
    } else {
        let next = Scan { token: scan.token.push(t[0]), ..scan };
        lemma_two(scan, t[0]);
        lemma_scan_concat(scan, seq!['\\', t[0]], escaped(t.drop_first()));
        lemma_escaped(next, t.drop_first());
        assert(scan.token.push(t[0]) + t.drop_first() =~= scan.token + t);
    }
}

proof fn lemma_written(scan: Scan, t: Seq<char>, style: Style)
    requires
        !scan.escaped,
        !scan.quoted,
        can_be_written(t, style),
    ensures
        scan_from(scan, written(t, style)) == (Scan { token: scan.token + t, ..scan }),
{
    match style {
        Style::Plain => {
            lemma_scan_run(scan, t);
        },
        Style::Quoted => {
            let open = Scan { quoted: true, ..scan };
            let full = Scan { token: scan.token + t, ..open };
            lemma_one(scan, '"');
            lemma_shielded(open, t);
            lemma_one(full, '"');
            lemma_scan_concat(scan, seq!['"'], shielded(t));
            lemma_scan_concat(scan, seq!['"'] + shielded(t), seq!['"']);
        },
        Style::Escaped => {
            lemma_escaped(scan, t);
        },
    }
}

/// The tokens alone.
pub open spec fn bare(tokens: Seq<(Seq<char>, Style)>) -> Seq<Seq<char>> {
    tokens.map_values(|t: (Seq<char>, Style)| t.0)
}

proof fn lemma_written_all(tokens: Seq<(Seq<char>, Style)>, blank: char)
    requires
        is_space(blank),
        forall|i: int|
            0 <= i < tokens.len() ==> can_be_written((#[trigger] tokens[i]).0, tokens[i].1),
    ensures
        scan_from(scan_start(), written_all(tokens, blank)) == (Scan {
            tokens: bare(tokens),
            token: seq![],
            quoted: false,
            escaped: false,
        }),
    decreases tokens.len(),
{
    if tokens.len() == 0 {
        assert(bare(tokens) =~= seq![]);
    } else {
        let rest = tokens.drop_last();
        let (t, style) = tokens.last();
        assert forall|i: int| 0 <= i < rest.len() implies can_be_written(
            (#[trigger] rest[i]).0,
            rest[i].1,
        ) by {
            assert(rest[i] == tokens[i]);
        }
        lemma_written_all(rest, blank);
        assert(can_be_written(tokens[tokens.len() - 1].0, tokens[tokens.len() - 1].1));
        let before = written_all(rest, blank);
        let s1 = Scan { tokens: bare(rest), token: seq![], quoted: false, escaped: false };
        let s2 = Scan { token: t, ..s1 };
        lemma_written(s1, t, style);
        assert(s1.token + t =~= t);
        lemma_scan_concat(scan_start(), before, written(t, style));
        lemma_scan_concat(scan_start(), before + written(t, style), seq![blank]);
        lemma_one(s2, blank);
        assert(bare(rest).push(t) =~= bare(tokens));
    }
}

/// Tokens are read back however they are written: plain, quoted or escaped, with any white space
/// between them.
pub proof fn tokens_are_read_back(tokens: Seq<(Seq<char>, Style)>, blank: char)
    requires
        is_space(blank),
        forall|i: int|
            0 <= i < tokens.len() ==> can_be_written((#[trigger] tokens[i]).0, tokens[i].1),
    ensures
        arg_tokens(written_all(tokens, blank)) == bare(tokens),
{
    lemma_written_all(tokens, blank);
}

/// A token is parted at its first equals sign; one without is no pair. Pairs keep their order.
pub proof fn a_token_is_parted_at_its_first_equals_sign(
    tokens: Seq<Seq<char>>,
    key: Seq<char>,
    value: Seq<char>,
    other: Seq<char>,
)
    requires
        !key.contains('='),
        !other.contains('='),
    ensures
        key_values(seq![]) == Seq::<(Seq<char>, Seq<char>)>::empty(),
        key_values(tokens.push(key + seq!['='] + value)) == key_values(tokens).push((key, value)),
        key_values(tokens.push(other)) == key_values(tokens),
{
    let t = key + seq!['='] + value;
    assert forall|j: int| 0 <= j < key.len() implies t[j] != '=' by {
        assert(key.contains(key[j]));
    }
    lemma_find_at(t, '=', key.len() as int);
    assert(t.take(key.len() as int) =~= key);
    assert(t.skip(key.len() as int + 1) =~= value);
    assert(tokens.push(t).drop_last() =~= tokens);
    assert forall|j: int| 0 <= j < other.len() implies other[j] != '=' by {
        assert(other.contains(other[j]));
    }
    lemma_find_at(other, '=', other.len() as int);
    assert(tokens.push(other).drop_last() =~= tokens);
}

// ---------------------------------------------------------------------------
// Our modules
// ---------------------------------------------------------------------------

/// The names of our sinks: those they have, and those they once had.
pub open spec fn is_sink_of_ours(name: Seq<char>) -> bool {
    name == "Arctis Game"@ || name == "Arctis Chat"@ || name == "arctis_game"@ || name
        == "arctis_chat"@
}

/// The pair names a sink of ours as the sink to create, or its monitor as the source.
pub open spec fn names_ours(pair: (Seq<char>, Seq<char>)) -> bool {
    ||| pair.0 == "sink_name"@ && is_sink_of_ours(pair.1)
    ||| pair.0 == "source"@ && exists|name: Seq<char>| #[trigger]
        is_sink_of_ours(name) && pair.1 == name + ".monitor"@
}

/// A module is ours exactly where its argument has a pair that creates one of the four sinks or
/// takes the monitor of one as its source.
pub proof fn what_makes_a_module_ours(arg: Seq<char>)
    ensures
        our_module(arg) <==> exists|i: int|
            0 <= i < key_values(arg_tokens(arg)).len() && names_ours(
                #[trigger] key_values(arg_tokens(arg))[i],
            ),
{
    let pairs = key_values(arg_tokens(arg));
    assert forall|i: int| 0 <= i < pairs.len() implies (our_pair(#[trigger] pairs[i])
        <==> names_ours(pairs[i])) by {
        let (key, value) = pairs[i];
        what_is_stripped_was_there(value, ".monitor"@);
        if key == "source"@ && strip_suffix(value, ".monitor"@) is Some {
            let name = strip_suffix(value, ".monitor"@)->0;
            assert(is_sink_of_ours(name) <==> our_name(name));
            assert(value == name + ".monitor"@);
        }
        if key == "source"@ && exists|name: Seq<char>| #[trigger]
            is_sink_of_ours(name) && value == name + ".monitor"@ {
            let name = choose|name: Seq<char>| #[trigger]
                is_sink_of_ours(name) && value == name + ".monitor"@;
            a_suffix_is_stripped(name, ".monitor"@);
        }
    }
    if our_module(arg) {
        let i = choose|i: int| 0 <= i < pairs.len() && our_pair(#[trigger] pairs[i]);
        assert(names_ours(pairs[i]));
    }
}

/// One more line of the list adds the command that unloads it, where it is a module of ours, and
/// nothing otherwise.
pub proof fn each_module_of_ours_is_unloaded_once(list: Seq<Seq<char>>, line: Seq<char>)
    ensures
        unload_commands(seq![]) == Seq::<Seq<Seq<char>>>::empty(),
        module_line(line) is None ==> unload_commands(list.push(line)) == unload_commands(list),
        module_line(line) matches Some((index, arg)) ==> unload_commands(list.push(line)) == if our_module(
            arg,
        ) {
            unload_commands(list).push(seq!["unload-module"@, index])
        } else {
            unload_commands(list)
        },
{
    assert(list.push(line).drop_last() =~= list);
}

/// A line is that of a module only with a second column, and an index of digits in the first.
pub proof fn a_module_line_has_an_index(column: Seq<char>, rest: Seq<char>)
    requires
        !column.contains('\t'),
    ensures
        module_line(column) is None,
        module_line(column + seq!['\t'] + rest) is Some <==> trim(column).len() > 0 && forall|i: int|
            0 <= i < trim(column).len() ==> '0' <= #[trigger] trim(column)[i] <= '9',
        module_line(column + seq!['\t'] + rest) matches Some((index, arg)) ==> index == trim(
            column,
        ),
{
    assert forall|j: int| 0 <= j < column.len() implies column[j] != '\t' by {
        assert(column.contains(column[j]));
    }
    lemma_find_at(column, '\t', column.len() as int);
    let line = column + seq!['\t'] + rest;
    lemma_find_at(line, '\t', column.len() as int);
    assert(line.take(column.len() as int) =~= column);
    assert(line.skip(column.len() as int + 1) =~= rest);
    crate::text_laws::pieces_make_up_the_text(rest, '\t');
    let columns = split(line, '\t');
    assert(columns == seq![column] + split(rest, '\t'));
    assert(columns[0] == column);
    assert(columns.len() >= 2);
    let index = trim(column);
    if digits_only(index) {
        assert forall|i: int| 0 <= i < index.len() implies '0' <= #[trigger] index[i] <= '9' by {
            assert(is_digit(index[i]));
        }
    } else {
        let i = choose|i: int| 0 <= i < index.len() && !is_digit(#[trigger] index[i]);
        assert(!('0' <= index[i] <= '9'));
    }
}

// ---------------------------------------------------------------------------
// What is asked of the server
// ---------------------------------------------------------------------------

/// The argument sets this key to this value.
pub open spec fn sets(arg: Seq<char>, key: Seq<char>, value: Seq<char>) -> bool {
    key_values(arg_tokens(arg)).contains((key, value))
}

proof fn lemma_pair(tokens: Seq<Seq<char>>, i: int, key: Seq<char>, value: Seq<char>)
    requires
        0 <= i < tokens.len(),
        tokens[i] == key + seq!['='] + value,
        !key.contains('='),
    ensures
        key_values(tokens).contains((key, value)),
    decreases tokens.len(),
{
    let rest = tokens.drop_last();
    assert(tokens =~= rest.push(tokens.last()));
    let before = key_values(rest);
    if i == rest.len() {
        a_token_is_parted_at_its_first_equals_sign(rest, key, value, seq![]);
        assert(key_values(tokens)[before.len() as int] == (key, value));
    } else {
        lemma_pair(rest, i, key, value);
        let k = choose|k: int| 0 <= k < before.len() && before[k] == (key, value);
        assert(key_values(tokens)[k] == (key, value));
    }
}

/// A token that begins plainly and ends in a quotation, and a blank behind it.
proof fn lemma_item(scan: Scan, head: Seq<char>, source: Seq<char>, value: Seq<char>)
    requires
        !scan.escaped,
        !scan.quoted,
        scan.token.len() == 0,
        head.len() > 0,
        forall|i: int|
            0 <= i < head.len() ==> is_literal(#[trigger] head[i]) && !is_space(head[i]),
        scan_from(Scan { token: head, quoted: true, ..scan }, source) == (Scan {
            token: head + value,
            quoted: true,
            ..scan
        }),
    ensures
        scan_from(scan, head + seq!['"'] + source + seq!['"']) == (Scan {
            token: head + value,
            ..scan
        }),
        scan_from(scan, head + seq!['"'] + source + seq!['"'] + seq![' ']) == (Scan {
            tokens: scan.tokens.push(head + value),
            token: seq![],
            ..scan
        }),
{
    let s1 = Scan { token: head, ..scan };
    let s2 = Scan { quoted: true, ..s1 };
    let s3 = Scan { token: head + value, ..s2 };
    let s4 = Scan { quoted: false, ..s3 };
    lemma_scan_run(scan, head);
    assert(scan.token + head =~= head);
    lemma_one(s1, '"');
    lemma_one(s3, '"');
    lemma_one(s4, ' ');
    lemma_scan_concat(scan, head, seq!['"']);
    lemma_scan_concat(scan, head + seq!['"'], source);
    lemma_scan_concat(scan, head + seq!['"'] + source, seq!['"']);
    lemma_scan_concat(scan, head + seq!['"'] + source + seq!['"'], seq![' ']);
    assert(s4.token.len() > 0);
}

/// A text whose spaces are escaped is read back within a quotation.
pub proof fn escaped_spaces_are_read_back(scan: Scan, name: Seq<char>)
    requires
        !scan.escaped,
        scan.quoted,
        forall|i: int| 0 <= i < name.len() ==> is_literal(#[trigger] name[i]),
    ensures
        scan_from(scan, spaces_escaped(name)) == (Scan { token: scan.token + name, ..scan }),
    decreases name.len(),
{
    if name.len() == 0 {
        assert(scan.token + name =~= scan.token);
    } else {
        let rest = name.drop_last();
        let c = name.last();
        assert forall|i: int| 0 <= i < rest.len() implies is_literal(#[trigger] rest[i]) by {
            assert(rest[i] == name[i]);
        }
        assert(is_literal(name[name.len() - 1]));
        escaped_spaces_are_read_back(scan, rest);
        let next = Scan { token: scan.token + rest, ..scan };
        let before = spaces_escaped(rest);
        if c == ' ' {
            assert(spaces_escaped(name) =~= before + seq!['\\', c]);
            lemma_scan_concat(scan, before, seq!['\\', c]);
            lemma_two(next, c);
        } else {
            assert(spaces_escaped(name) =~= before + seq![c]);
            lemma_scan_concat(scan, before, seq![c]);
            lemma_one(next, c);
        }
        assert((scan.token + rest).push(c) =~= scan.token + name);
    }
}

/// The names of our sinks hold letters and spaces only.
proof fn lemma_names(k: int)
    ensures
        forall|i: int| 0 <= i < sink_name(k).len() ==> is_literal(#[trigger] sink_name(k)[i]),
{
    reveal_strlit("Arctis Game");
    reveal_strlit("Arctis Chat");
    assert forall|i: int| 0 <= i < sink_name(k).len() implies is_literal(
        #[trigger] sink_name(k)[i],
    ) by {
        assert(i == 0 || i == 1 || i == 2 || i == 3 || i == 4 || i == 5 || i == 6 || i == 7 || i == 8
            || i == 9 || i == 10);
    }
}

/// The name of the sink for games, and of that for voice.
pub open spec fn sink_name(k: int) -> Seq<char> {
    if k == 0 {
        "Arctis Game"@
    } else {
        "Arctis Chat"@
    }
}

/// A text without white space, quotes and backslashes.
pub open spec fn is_plain(s: Seq<char>) -> bool {
    forall|i: int| 0 <= i < s.len() ==> is_literal(#[trigger] s[i]) && !is_space(s[i])
}

/// For each of the two sinks one module is loaded that creates it under its name, described and
/// displayed by that name, and then one that loops its monitor into the real sink without added
/// latency; the sink for games comes first, and nothing else is loaded.
pub proof fn each_sink_is_created_and_routed(target: Seq<char>, k: int)
    requires
        k == 0 || k == 1,
        is_plain(target),
    ensures
        setup_commands(target).len() == 4,
        ({
            let create = setup_commands(target)[2 * k];
            let route = setup_commands(target)[2 * k + 1];
            &&& create[0] == "load-module"@ && create[1] == "module-null-sink"@
            &&& route[0] == "load-module"@ && route[1] == "module-loopback"@
            &&& sets(module_argument(create), "sink_name"@, sink_name(k))
            &&& sets(
                module_argument(create),
                "sink_properties"@,
                "node.description="@ + sink_name(k),
            )
            &&& sets(module_argument(create), "node.nick"@, sink_name(k))
            &&& sets(module_argument(route), "source"@, sink_name(k) + ".monitor"@)
            &&& sets(module_argument(route), "sink"@, target)
            &&& sets(module_argument(route), "latency_msec"@, "0"@)
        }),
{
    lemma_names(k);
    lemma_created(setup_commands(target)[2 * k], sink_name(k));
    lemma_routed(setup_commands(target)[2 * k + 1], sink_name(k), target);
}

proof fn lemma_created(command: Seq<Seq<char>>, name: Seq<char>)
    requires
        command.len() == 4,
        command[2] == "sink_name=\""@ + name + "\""@,
        command[3] == "sink_properties=node.description=\""@ + spaces_escaped(name)
            + "\" node.nick=\""@ + spaces_escaped(name) + "\""@,
        forall|i: int| 0 <= i < name.len() ==> is_literal(#[trigger] name[i]),
    ensures
        sets(module_argument(command), "sink_name"@, name),
        sets(module_argument(command), "sink_properties"@, "node.description="@ + name),
        sets(module_argument(command), "node.nick"@, name),
{
    let parts = command.skip(2);
    let arg = module_argument(command);
    reveal_with_fuel(joined, 3);
    reveal_strlit("\"");
    reveal_strlit(" ");
    reveal_strlit("sink_name");
    reveal_strlit("sink_name=\"");
    reveal_strlit("sink_properties");
    reveal_strlit("node.description=");
    reveal_strlit("sink_properties=node.description=\"");
    reveal_strlit("node.nick");
    reveal_strlit("\" node.nick=\"");
    assert(parts.drop_last() =~= seq![command[2]]);
    let h1 = "sink_name"@ + seq!['='];
    let h2 = "sink_properties"@ + seq!['='] + "node.description="@;
    let h3 = "node.nick"@ + seq!['='];
    let esc = spaces_escaped(name);
    let a = h1 + seq!['"'] + name + seq!['"'] + seq![' '];
    let b = h2 + seq!['"'] + esc + seq!['"'] + seq![' '];
    let c = h3 + seq!['"'] + esc + seq!['"'];
    assert("sink_name=\""@ =~= h1 + seq!['"']);
    assert("sink_properties=node.description=\""@ =~= h2 + seq!['"']);
    assert("\" node.nick=\""@ =~= seq!['"'] + seq![' '] + h3 + seq!['"']);
    assert("\""@ =~= seq!['"']);
    assert(arg =~= a + b + c);
    let s0 = scan_start();
    lemma_scan_run(Scan { token: h1, quoted: true, ..s0 }, name);
    assert(is_plain(h1)) by {
        lemma_short_plain(h1);
    }
    lemma_item(s0, h1, name, name);
    let s1 = Scan { tokens: s0.tokens.push(h1 + name), ..s0 };
    escaped_spaces_are_read_back(Scan { token: h2, quoted: true, ..s1 }, name);
    assert(is_plain(h2)) by {
        lemma_short_plain(h2);
    }
    lemma_item(s1, h2, esc, name);
    let s2 = Scan { tokens: s1.tokens.push(h2 + name), ..s1 };
    escaped_spaces_are_read_back(Scan { token: h3, quoted: true, ..s2 }, name);
    assert(is_plain(h3)) by {
        lemma_short_plain(h3);
    }
    lemma_item(s2, h3, esc, name);
    lemma_scan_concat(s0, a, b);
    lemma_scan_concat(s0, a + b, c);
    let tokens = arg_tokens(arg);
    assert(tokens =~= seq![h1 + name, h2 + name, h3 + name]);
    assert(!"sink_name"@.contains('='));
    assert(!"sink_properties"@.contains('='));
    assert(!"node.nick"@.contains('='));
    lemma_pair(tokens, 0, "sink_name"@, name);
    assert(h2 + name =~= "sink_properties"@ + seq!['='] + ("node.description="@ + name));
    lemma_pair(tokens, 1, "sink_properties"@, "node.description="@ + name);
    lemma_pair(tokens, 2, "node.nick"@, name);
}

/// The characters of a key: letters, underscores, dots and equals signs.
spec fn is_key_char(c: char) -> bool {
    'a' <= c <= 'z' || c == '_' || c == '.' || c == '='
}

proof fn lemma_short_plain(s: Seq<char>)
    requires
        forall|i: int| 0 <= i < s.len() ==> is_key_char(#[trigger] s[i]),
    ensures
        is_plain(s),
{
    assert forall|i: int| 0 <= i < s.len() implies is_literal(#[trigger] s[i]) && !is_space(
        s[i],
    ) by {
        assert(is_key_char(s[i]));
    }
}

proof fn lemma_routed(command: Seq<Seq<char>>, name: Seq<char>, target: Seq<char>)
    requires
        command.len() == 5,
        command[2] == "source=\""@ + name + ".monitor\""@,
        command[3] == "sink="@ + target,
        command[4] == "latency_msec=0"@,
        forall|i: int| 0 <= i < name.len() ==> is_literal(#[trigger] name[i]),
        is_plain(target),
    ensures
        sets(module_argument(command), "source"@, name + ".monitor"@),
        sets(module_argument(command), "sink"@, target),
        sets(module_argument(command), "latency_msec"@, "0"@),
{
    let parts = command.skip(2);
    let arg = module_argument(command);
    reveal_with_fuel(joined, 4);
    reveal_strlit(" ");
    reveal_strlit("source");
    reveal_strlit("source=\"");
    reveal_strlit(".monitor");
    reveal_strlit(".monitor\"");
    reveal_strlit("sink");
    reveal_strlit("sink=");
    reveal_strlit("latency_msec");
    reveal_strlit("0");
    reveal_strlit("latency_msec=0");
    assert(parts.drop_last().drop_last() =~= seq![command[2]]);
    assert(parts.drop_last().last() == command[3]);
    let h1 = "source"@ + seq!['='];
    let value = name + ".monitor"@;
    let b = "sink"@ + seq!['='] + target;
    let c = "latency_msec"@ + seq!['='] + "0"@;
    let a = h1 + seq!['"'] + value + seq!['"'] + seq![' '];
    assert("source=\""@ =~= h1 + seq!['"']);
    assert(".monitor\""@ =~= ".monitor"@ + seq!['"']);
    assert("sink="@ =~= "sink"@ + seq!['=']);
    assert("latency_msec=0"@ =~= c);
    assert(arg =~= a + b + seq![' '] + c);
    let s0 = scan_start();
    assert forall|i: int| 0 <= i < value.len() implies is_literal(#[trigger] value[i]) by {
        if i < name.len() {
            assert(is_literal(name[i]));
        } else {
            assert(value[i] == ".monitor"@[i - name.len()]);
        }
    }
    lemma_scan_run(Scan { token: h1, quoted: true, ..s0 }, value);
    assert(is_plain(h1)) by {
        lemma_short_plain(h1);
    }
    lemma_item(s0, h1, value, value);
    let s1 = Scan { tokens: s0.tokens.push(h1 + value), ..s0 };
    assert forall|i: int| 0 <= i < b.len() implies is_literal(#[trigger] b[i]) && !is_space(
        b[i],
    ) by {
        if i >= 5 {
            assert(is_literal(target[i - 5]));
            assert(b[i] == target[i - 5]);
        }
    }
    lemma_scan_run(s1, b);
    assert(s1.token + b =~= b);
    let s2 = Scan { token: b, ..s1 };
    lemma_one(s2, ' ');
    let s3 = Scan { tokens: s1.tokens.push(b), ..s1 };
    assert(s2.token.len() > 0);
    lemma_scan_run(s3, c);
    assert(s3.token + c =~= c);
    lemma_scan_concat(s0, a, b);
    lemma_scan_concat(s0, a + b, seq![' ']);
    lemma_scan_concat(s0, a + b + seq![' '], c);
    let tokens = arg_tokens(arg);
    assert(tokens =~= seq![h1 + value, b, c]);
    assert(!"source"@.contains('='));
    assert(!"sink"@.contains('='));
    assert(!"latency_msec"@.contains('='));
    lemma_pair(tokens, 0, "source"@, value);
    lemma_pair(tokens, 1, "sink"@, target);
    lemma_pair(tokens, 2, "latency_msec"@, "0"@);
}

/// The two halves of the dial are set as the volumes of the two sinks, game and chat, in
/// percent and at most a hundred.
pub proof fn the_dial_sets_the_two_volumes(game: u8, chat: u8)
    ensures
        mix_commands(game, chat).len() == 2,
        mix_commands(game, chat)[0] == seq![
            "set-sink-volume"@,
            "Arctis Game"@,
            decimal(
                if game <= 100 {
                    game as nat
                } else {
                    100
                },
            ) + "%"@,
        ],
        mix_commands(game, chat)[1] == seq![
            "set-sink-volume"@,
            "Arctis Chat"@,
            decimal(
                if chat <= 100 {
                    chat as nat
                } else {
                    100
                },
            ) + "%"@,
        ],
{
}

/// The notification says how much charge is left.
pub proof fn the_notification_says_what_is_left(pct: u32)
    ensures
        notify_arguments(pct).last() == decimal(pct as nat) + "% remaining"@,
        notify_arguments(pct).contains("Arctis headset battery low"@),
        notify_arguments(pct)[0] == "-u"@ && notify_arguments(pct)[1] == "critical"@,
{
    assert(notify_arguments(pct)[4] == "Arctis headset battery low"@);
}

/// The index that the server prints for a loaded module is read back, whatever white space
/// surrounds it; anything else is an error that quotes the output, and a failed command keeps
/// its error.
pub proof fn a_printed_index_is_read_back(a: Seq<char>, n: u32, b: Seq<char>, out: Seq<char>)
    requires
        is_blank(a),
        is_blank(b),
    ensures
        loaded(Ok(a + decimal(n as nat) + b)) == Ok::<u32, Seq<char>>(n),
        loaded(Err(out)) == Err::<u32, Seq<char>>(out),
        loaded(Ok(out)) matches Err(e) ==> e == "unexpected pactl load-module output: "@ + out,
        loaded(Ok(out)) is Ok <==> parsed_u32(trim(out)) is Some,
{
    a_decimal_is_read_back(n as nat);
    let s = decimal(n as nat);
    assert('0' <= s[0] <= '9');
    assert('0' <= s[s.len() - 1] <= '9');
    what_is_surrounded_by_blanks_is_kept(a, s, b);
}

/// The default sink is read back without the white space around it; a blank answer names none.
pub proof fn a_printed_default_is_read_back(a: Seq<char>, name: Seq<char>, b: Seq<char>)
    requires
        is_blank(a),
        is_blank(b),
        name.len() > 0,
        !is_space(name[0]),
        !is_space(name.last()),
    ensures
        default_sink_name(a + name + b) == Some(name),
        default_sink_name(a + b) is None,
{
    what_is_surrounded_by_blanks_is_kept(a, name, b);
    what_is_surrounded_by_blanks_is_kept(a, seq![], b);
    assert(a + Seq::<char>::empty() + b =~= a + b);
}

/// A command that succeeds gives its output, untouched; one that fails gives a message that
/// begins with the command and ends with the trimmed complaint.
pub proof fn a_failed_command_is_named(
    args: Seq<Seq<char>>,
    output: Seq<char>,
    complaint: Seq<char>,
)
    ensures
        command_result(args, true, output, complaint) == Ok::<Seq<char>, Seq<char>>(output),
        command_result(args, false, output, complaint) == Err::<Seq<char>, Seq<char>>(
            "pactl "@ + joined(args, " "@) + " failed: "@ + trim(complaint),
        ),
{
}

} // verus!
