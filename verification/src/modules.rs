//! The sound-server modules behind the two virtual sinks: what to load, and which of
//! the loaded modules are ours.
use vstd::prelude::*;

use crate::text::{
    all_digits, chars_of, decimal, decimal_of, digits_only, ends, err_text, escape_spaces, is_digit,
    is_space, join, joined, lemma_find, lemma_find_at, lines, lines_of, opt_text, parse_u32,
    parsed_u32, position, same_text, space, spaces_escaped, split, split_once, string_of,
    strip_suffix, texts, trim, trim_range, trimmed,
};

verus! {

/// The sink for everything but voice. The name is also what is displayed: some pickers
/// show the raw name of a sink without a card.
pub const GAME_SINK: &'static str = "Arctis Game";

/// The sink for voice.
pub const CHAT_SINK: &'static str = "Arctis Chat";

/// The names that the sinks once had, still ours when it comes to cleaning up.
pub const OLD_GAME_SINK: &'static str = "arctis_game";

pub const OLD_CHAT_SINK: &'static str = "arctis_chat";

// ---------------------------------------------------------------------------
// The list of modules
// ---------------------------------------------------------------------------

/// The index and the argument in a line `index <tab> name <tab> argument`. The argument
/// column may be missing.
pub open spec fn module_line(line: Seq<char>) -> Option<(Seq<char>, Seq<char>)> {
    let columns = split(line, '\t');
    let index = trim(columns[0]);
    if columns.len() < 2 || index.len() == 0 || !digits_only(index) {
        None
    } else {
        Some(
            (
                index,
                if columns.len() > 2 {
                    columns[2]
                } else {
                    seq![]
                },
            ),
        )
    }
}

/// The texts of a pair that may be absent.
pub open spec fn opt_pair(pair: Option<(&str, &str)>) -> Option<(Seq<char>, Seq<char>)> {
    match pair {
        Some((a, b)) => Some((a@, b@)),
        None => None,
    }
}

/// Parses one line of the short list of modules into the index and the argument.
pub fn parse_module_line<'a>(line: &'a str) -> (r: Option<(&'a str, &'a str)>)
    ensures
        opt_pair(r) == module_line(line@),
{
    let chars = chars_of(line);
    let first = position(chars.as_slice(), '\t');
    let column = &chars.as_slice()[0..first];
    assert(column@ =~= line@.take(first as int));
    let (from, to) = trim_range(column);
    if first == chars.len() {
        return None;
    }
    let rest = &chars.as_slice()[first + 1..chars.len()];
    assert(rest@ =~= line@.skip(first + 1));
    let second = position(rest, '\t');
    assert(split(line@, '\t') == seq![column@] + split(rest@, '\t'));
    assert(split(rest@, '\t').len() >= 1);
    let index = line.substring_char(from, to);
    assert(index@ =~= trim(column@));
    if from == to || !all_digits(&column[from..to]) {
        return None;
    }
    if second == rest.len() {
        proof {
            reveal_strlit("");
            assert(""@ =~= seq![]);
            assert(split(rest@, '\t') == seq![rest@]);
        }
        return Some((index, ""));
    }
    let start: usize = first + 1 + second + 1;
    let tail = &chars.as_slice()[start..chars.len()];
    assert(tail@ =~= rest@.skip(second + 1));
    let third = position(tail, '\t');
    let argument = line.substring_char(start, start + third);
    assert(argument@ =~= tail@.take(third as int));
    assert(third == tail@.len() ==> argument@ =~= tail@);
    assert(split(tail@, '\t')[0] == argument@);
    assert(split(rest@, '\t') == seq![rest@.take(second as int)] + split(tail@, '\t'));
    assert(split(rest@, '\t')[1] == argument@);
    Some((index, argument))
}

// ---------------------------------------------------------------------------
// Module arguments
// ---------------------------------------------------------------------------

/// A scan of an argument text: the tokens so far, the token at hand, and whether a
/// quotation or an escape is open.
pub struct Scan {
    pub tokens: Seq<Seq<char>>,
    pub token: Seq<char>,
    pub quoted: bool,
    pub escaped: bool,
}

/// The scan before the first character.
pub open spec fn scan_start() -> Scan {
    Scan { tokens: seq![], token: seq![], quoted: false, escaped: false }
}

/// The tokens, with the one at hand unless it is empty.
pub open spec fn tokens_of(scan: Scan) -> Seq<Seq<char>> {
    if scan.token.len() > 0 {
        scan.tokens.push(scan.token)
    } else {
        scan.tokens
    }
}

/// The scan one character on. A backslash makes the next character literal, double
/// quotes open and close a quotation, white space outside of one ends a token.
pub open spec fn scan_char(scan: Scan, c: char) -> Scan {
    if scan.escaped {
        Scan { token: scan.token.push(c), escaped: false, ..scan }
    } else if c == '\\' {
        Scan { escaped: true, ..scan }
    } else if c == '"' {
        Scan { quoted: !scan.quoted, ..scan }
    } else if is_space(c) && !scan.quoted {
        Scan { tokens: tokens_of(scan), token: seq![], ..scan }
    } else {
        Scan { token: scan.token.push(c), ..scan }
    }
}

/// The scan after all of `s`.
pub open spec fn scan_from(scan: Scan, s: Seq<char>) -> Scan
    decreases s.len(),
{
    if s.len() == 0 {
        scan
    } else {
        scan_from(scan_char(scan, s[0]), s.drop_first())
    }
}

/// The tokens of an argument text.
pub open spec fn arg_tokens(arg: Seq<char>) -> Seq<Seq<char>> {
    tokens_of(scan_from(scan_start(), arg))
}

/// The tokens with an equals sign, each parted at its first one.
pub open spec fn key_values(tokens: Seq<Seq<char>>) -> Seq<(Seq<char>, Seq<char>)>
    decreases tokens.len(),
{
    if tokens.len() == 0 {
        seq![]
    } else {
        match split_once(tokens.last(), '=') {
            Some(pair) => key_values(tokens.drop_last()).push(pair),
            None => key_values(tokens.drop_last()),
        }
    }
}

/// The keys and values of a list of pairs.
pub open spec fn pairs(list: Seq<(String, String)>) -> Seq<(Seq<char>, Seq<char>)> {
    list.map_values(|p: (String, String)| (p.0@, p.1@))
}

/// Splits a module argument into `key=value` pairs, honouring double quotes and
/// backslash escapes.
pub fn module_args(arg: &str) -> (r: Vec<(String, String)>)
    ensures
        pairs(r@) == key_values(arg_tokens(arg@)),
{
    let chars = chars_of(arg);
    let mut tokens: Vec<String> = Vec::new();
    let mut token = String::new();
    let mut quoted = false;
    let mut escaped = false;
    let mut i: usize = 0;
    let ghost mut scan = scan_start();
    assert(arg@.skip(0) =~= arg@);
    assert(texts(tokens@) =~= scan.tokens);
    while i < chars.len()
        invariant
            i <= chars@.len(),
            chars@ == arg@,
            scan == (Scan {
                tokens: texts(tokens@),
                token: token@,
                quoted: quoted,
                escaped: escaped,
            }),
            scan_from(scan_start(), arg@) == scan_from(scan, arg@.skip(i as int)),
        decreases chars@.len() - i,
    {
        let c = chars[i];
        assert(arg@.skip(i as int)[0] == c);
        assert(arg@.skip(i as int).drop_first() =~= arg@.skip(i + 1));
        if escaped {
            token.push(c);
            escaped = false;
        } else if c == '\\' {
            escaped = true;
        } else if c == '"' {
            quoted = !quoted;
        } else if space(c) && !quoted {
            if !token.as_str().is_empty() {
                let ghost before = texts(tokens@);
                let ghost text = token@;
                tokens.push(token);
                token = String::new();
                assert(texts(tokens@) =~= before.push(text));
            }
            assert(token@ =~= seq![]);
        } else {
            token.push(c);
        }
        proof {
            scan = scan_char(scan, c);
        }
        i += 1;
    }
    assert(arg@.skip(i as int) =~= seq![]);
    if !token.as_str().is_empty() {
        let ghost before = texts(tokens@);
        let ghost text = token@;
        tokens.push(token);
        assert(texts(tokens@) =~= before.push(text));
    }
    let mut r: Vec<(String, String)> = Vec::new();
    let ghost all = arg_tokens(arg@);
    let mut k: usize = 0;
    assert(pairs(r@) =~= seq![]);
    assert(all.take(0) =~= seq![]);
    while k < tokens.len()
        invariant
            k <= tokens@.len(),
            texts(tokens@) == all,
            pairs(r@) == key_values(all.take(k as int)),
        decreases tokens@.len() - k,
    {
        let t = chars_of(tokens[k].as_str());
        assert(t@ == all[k as int]);
        assert(all.take(k + 1).drop_last() =~= all.take(k as int));
        let sign = position(t.as_slice(), '=');
        if sign < t.len() {
            let key = &t.as_slice()[0..sign];
            let value = &t.as_slice()[sign + 1..t.len()];
            assert(key@ =~= t@.take(sign as int));
            assert(value@ =~= t@.skip(sign + 1));
            let ghost before = pairs(r@);
            r.push((string_of(key), string_of(value)));
            assert(pairs(r@) =~= before.push((key@, value@)));
        }
        k += 1;
    }
    assert(all.take(k as int) =~= all);
    r
}

/// A sink of ours, under its present or its old name.
pub open spec fn our_name(name: Seq<char>) -> bool {
    name == GAME_SINK@ || name == CHAT_SINK@ || name == OLD_GAME_SINK@ || name == OLD_CHAT_SINK@
}

/// The pair says that a module creates a sink of ours, or loops the monitor of one.
pub open spec fn our_pair(pair: (Seq<char>, Seq<char>)) -> bool {
    ||| pair.0 == "sink_name"@ && our_name(pair.1)
    ||| pair.0 == "source"@ && strip_suffix(pair.1, ".monitor"@) is Some && our_name(
        strip_suffix(pair.1, ".monitor"@)->0,
    )
}

/// A module with this argument is ours.
pub open spec fn our_module(arg: Seq<char>) -> bool {
    exists|i: int|
        0 <= i < key_values(arg_tokens(arg)).len() && our_pair(
            #[trigger] key_values(arg_tokens(arg))[i],
        )
}

/// A sink of ours, under its present or its old name.
fn is_our_name(name: &str) -> (r: bool)
    ensures
        r == our_name(name@),
{
    same_text(name, GAME_SINK) || same_text(name, CHAT_SINK) || same_text(name, OLD_GAME_SINK)
        || same_text(name, OLD_CHAT_SINK)
}

/// A module is ours if it creates a sink of ours or loops the monitor of one. A module
/// that routes into our sinks or merely mentions them is not.
pub fn module_is_ours(arg: &str) -> (r: bool)
    ensures
        r == our_module(arg@),
{
    let args = module_args(arg);
    let ghost all = key_values(arg_tokens(arg@));
    let mut i: usize = 0;
    while i < args.len()
        invariant
            i <= args@.len(),
            all == key_values(arg_tokens(arg@)),
            pairs(args@) == all,
            forall|j: int| 0 <= j < i ==> !our_pair(#[trigger] all[j]),
        decreases args@.len() - i,
    {
        let (key, value) = &args[i];
        assert(all[i as int] == (key@, value@));
        if same_text(key.as_str(), "sink_name") && is_our_name(value.as_str()) {
            assert(our_pair(all[i as int]));
            return true;
        }
        if same_text(key.as_str(), "source") {
            let chars = chars_of(value.as_str());
            let count = chars_of(".monitor").len();
            if ends(chars.as_slice(), ".monitor") {
                let name = &chars.as_slice()[0..chars.len() - count];
                assert(name@ =~= value@.take(value@.len() - count));
                if is_our_name(string_of(name).as_str()) {
                    assert(our_pair(all[i as int]));
                    return true;
                }
            }
        }
        assert(!our_pair(all[i as int]));
        i += 1;
    }
    false
}

// ---------------------------------------------------------------------------
// Commands to the sound server
// ---------------------------------------------------------------------------

/// The texts of a list of argument lists.
pub open spec fn arg_lists(lists: Seq<Vec<String>>) -> Seq<Seq<Seq<char>>> {
    lists.map_values(|l: Vec<String>| texts(l@))
}

/// The commands that unload our modules among those listed, a line each.
pub open spec fn unload_commands(list: Seq<Seq<char>>) -> Seq<Seq<Seq<char>>>
    decreases list.len(),
{
    if list.len() == 0 {
        seq![]
    } else {
        let before = unload_commands(list.drop_last());
        match module_line(list.last()) {
            Some((index, arg)) => if our_module(arg) {
                before.push(seq!["unload-module"@, index])
            } else {
                before
            },
            None => before,
        }
    }
}

/// The commands that unload our modules, those of an earlier run included, given the
/// short list of the loaded modules.
pub fn unload_our_modules(listing: &str) -> (r: Vec<Vec<String>>)
    ensures
        arg_lists(r@) == unload_commands(lines(listing@)),
{
    let chars = chars_of(listing);
    let all = lines_of(chars.as_slice());
    let ghost model = lines(listing@);
    let mut r: Vec<Vec<String>> = Vec::new();
    let mut i: usize = 0;
    assert(arg_lists(r@) =~= seq![]);
    assert(model.take(0) =~= seq![]);
    while i < all.len()
        invariant
            i <= all@.len(),
            all@.map_values(|l: &[char]| l@) == model,
            arg_lists(r@) == unload_commands(model.take(i as int)),
        decreases all@.len() - i,
    {
        assert(all@[i as int]@ == model[i as int]);
        assert(model.take(i + 1).drop_last() =~= model.take(i as int));
        let line = string_of(all[i]);
        if let Some((index, arg)) = parse_module_line(line.as_str()) {
            if module_is_ours(arg) {
                let command = vec!["unload-module".to_owned(), index.to_owned()];
                assert(texts(command@) =~= seq!["unload-module"@, index@]);
                let ghost before = arg_lists(r@);
                r.push(command);
                assert(arg_lists(r@) =~= before.push(seq!["unload-module"@, index@]));
            }
        }
        i += 1;
    }
    assert(model.take(i as int) =~= model);
    r
}

/// The command that creates a sink. Its name may hold spaces, so it is quoted.
pub open spec fn null_sink_command(name: Seq<char>) -> Seq<Seq<char>> {
    seq![
        "load-module"@,
        "module-null-sink"@,
        "sink_name=\""@ + name + "\""@,
        "sink_properties=node.description=\""@ + spaces_escaped(name) + "\" node.nick=\""@
            + spaces_escaped(name) + "\""@,
    ]
}

/// The command that routes a sink into the real one.
pub open spec fn loopback_command(name: Seq<char>, target: Seq<char>) -> Seq<Seq<char>> {
    seq![
        "load-module"@,
        "module-loopback"@,
        "source=\""@ + name + ".monitor\""@,
        "sink="@ + target,
        "latency_msec=0"@,
    ]
}

/// The commands that create the two sinks and route them into `target`, in order.
pub open spec fn setup_commands(target: Seq<char>) -> Seq<Seq<Seq<char>>> {
    seq![
        null_sink_command(GAME_SINK@),
        loopback_command(GAME_SINK@, target),
        null_sink_command(CHAT_SINK@),
        loopback_command(CHAT_SINK@, target),
    ]
}

/// The command that creates a sink.
fn null_sink(name: &str) -> (r: Vec<String>)
    ensures
        texts(r@) == null_sink_command(name@),
{
    let escaped = escape_spaces(name);
    let mut quoted = "sink_name=\"".to_owned();
    quoted.append(name);
    quoted.append("\"");
    let mut properties = "sink_properties=node.description=\"".to_owned();
    properties.append(escaped.as_str());
    properties.append("\" node.nick=\"");
    properties.append(escaped.as_str());
    properties.append("\"");
    let r = vec!["load-module".to_owned(), "module-null-sink".to_owned(), quoted, properties];
    assert(texts(r@) =~= null_sink_command(name@));
    r
}

/// The command that routes a sink into the real one.
fn loopback(name: &str, real_sink: &str) -> (r: Vec<String>)
    ensures
        texts(r@) == loopback_command(name@, real_sink@),
{
    let mut source = "source=\"".to_owned();
    source.append(name);
    source.append(".monitor\"");
    let mut sink = "sink=".to_owned();
    sink.append(real_sink);
    let r = vec![
        "load-module".to_owned(),
        "module-loopback".to_owned(),
        source,
        sink,
        "latency_msec=0".to_owned(),
    ];
    assert(texts(r@) =~= loopback_command(name@, real_sink@));
    r
}

/// The commands that create the two sinks and route them into the real one. They are
/// run in order, after ours among the loaded modules are unloaded, up to the first that
/// fails.
pub fn setup_sinks(real_sink: &str) -> (r: Vec<Vec<String>>)
    ensures
        arg_lists(r@) == setup_commands(real_sink@),
{
    let r = vec![
        null_sink(GAME_SINK),
        loopback(GAME_SINK, real_sink),
        null_sink(CHAT_SINK),
        loopback(CHAT_SINK, real_sink),
    ];
    assert(arg_lists(r@) =~= setup_commands(real_sink@));
    r
}

/// What loading a module came to: the index that the server prints, or an error.
pub open spec fn loaded(output: Result<Seq<char>, Seq<char>>) -> Result<u32, Seq<char>> {
    match output {
        Ok(out) => match parsed_u32(trim(out)) {
            Some(index) => Ok(index),
            None => Err("unexpected pactl load-module output: "@ + out),
        },
        Err(e) => Err(e),
    }
}

/// A result with both its texts.
pub open spec fn both_texts(r: Result<String, String>) -> Result<Seq<char>, Seq<char>> {
    match r {
        Ok(s) => Ok(s@),
        Err(e) => Err(e@),
    }
}

/// Reads the index of a loaded module from what the load command came to.
pub fn load_module(output: Result<String, String>) -> (r: Result<u32, String>)
    ensures
        err_text(r) == loaded(both_texts(output)),
{
    match output {
        Err(e) => Err(e),
        Ok(out) => {
            let chars = chars_of(out.as_str());
            match parse_u32(trimmed(chars.as_slice())) {
                Some(index) => Ok(index),
                None => {
                    let mut message = "unexpected pactl load-module output: ".to_owned();
                    message.append(out.as_str());
                    Err(message)
                },
            }
        },
    }
}

/// What a run of the sound server's command line tool came to: its output, or a message
/// with its arguments and its trimmed complaint.
pub open spec fn command_result(
    args: Seq<Seq<char>>,
    success: bool,
    output: Seq<char>,
    complaint: Seq<char>,
) -> Result<Seq<char>, Seq<char>> {
    if success {
        Ok(output)
    } else {
        Err("pactl "@ + joined(args, " "@) + " failed: "@ + trim(complaint))
    }
}

/// The result of a finished run of the command line tool.
pub fn pactl_result(args: &Vec<String>, success: bool, output: String, complaint: &str) -> (r:
    Result<String, String>)
    ensures
        both_texts(r) == command_result(texts(args@), success, output@, complaint@),
{
    if success {
        return Ok(output);
    }
    let mut message = "pactl ".to_owned();
    message.append(join(args, " ").as_str());
    message.append(" failed: ");
    let chars = chars_of(complaint);
    message.append(string_of(trimmed(chars.as_slice())).as_str());
    Err(message)
}

/// The sink that the server names as its default; an empty answer names none.
pub open spec fn default_sink_name(output: Seq<char>) -> Option<Seq<char>> {
    if trim(output).len() > 0 {
        Some(trim(output))
    } else {
        None
    }
}

/// Reads the default sink from the server's answer.
pub fn get_default_sink(output: &str) -> (r: Option<String>)
    ensures
        opt_text(r) == default_sink_name(output@),
{
    let chars = chars_of(output);
    let name = trimmed(chars.as_slice());
    if name.len() == 0 {
        None
    } else {
        Some(string_of(name))
    }
}

/// `volume`, at most 100, in percent.
pub open spec fn volume_text(volume: u8) -> Seq<char> {
    decimal(
        if volume < 100 {
            volume as nat
        } else {
            100
        },
    ) + "%"@
}

/// The commands that set the volumes of the two sinks.
pub open spec fn mix_commands(game: u8, chat: u8) -> Seq<Seq<Seq<char>>> {
    seq![
        seq!["set-sink-volume"@, GAME_SINK@, volume_text(game)],
        seq!["set-sink-volume"@, CHAT_SINK@, volume_text(chat)],
    ]
}

/// `volume`, at most 100, in percent.
pub fn volume_of(volume: u8) -> (r: String)
    ensures
        r@ == volume_text(volume),
{
    let mut r = decimal_of(
        if volume < 100 {
            volume as u32
        } else {
            100
        },
    );
    r.append("%");
    r
}

/// The command that sets the volume of a sink.
fn volume_command(sink: &str, volume: u8) -> (r: Vec<String>)
    ensures
        texts(r@) == seq!["set-sink-volume"@, sink@, volume_text(volume)],
{
    let r = vec!["set-sink-volume".to_owned(), sink.to_owned(), volume_of(volume)];
    assert(texts(r@) =~= seq!["set-sink-volume"@, sink@, volume_text(volume)]);
    r
}

/// The commands that set the volumes of the two sinks.
pub fn set_mix(game: u8, chat: u8) -> (r: Vec<Vec<String>>)
    ensures
        arg_lists(r@) == mix_commands(game, chat),
{
    let r = vec![volume_command(GAME_SINK, game), volume_command(CHAT_SINK, chat)];
    assert(arg_lists(r@) =~= mix_commands(game, chat));
    r
}

/// The arguments of the desktop notification that the battery is low.
pub open spec fn notify_arguments(pct: u32) -> Seq<Seq<char>> {
    seq![
        "-u"@,
        "critical"@,
        "-a"@,
        "rust-arctis-chatmix"@,
        "Arctis headset battery low"@,
        decimal(pct as nat) + "% remaining"@,
    ]
}

/// The arguments of the desktop notification that the battery is low.
pub fn notify_low_battery(pct: u32) -> (r: Vec<String>)
    ensures
        texts(r@) == notify_arguments(pct),
{
    let mut left = decimal_of(pct);
    left.append("% remaining");
    let r = vec![
        "-u".to_owned(),
        "critical".to_owned(),
        "-a".to_owned(),
        "rust-arctis-chatmix".to_owned(),
        "Arctis headset battery low".to_owned(),
        left,
    ];
    assert(texts(r@) =~= notify_arguments(pct));
    r
}

// ---------------------------------------------------------------------------
// What cleaning up keeps and what it removes
// ---------------------------------------------------------------------------

/// A scan of two texts in a row.
pub proof fn lemma_scan_concat(scan: Scan, a: Seq<char>, b: Seq<char>)
    ensures
        scan_from(scan, a + b) == scan_from(scan_from(scan, a), b),
    decreases a.len(),
{
    if a.len() == 0 {
        assert(a + b =~= b);
    } else {
        assert((a + b).drop_first() =~= a.drop_first() + b);
        lemma_scan_concat(scan_char(scan, a[0]), a.drop_first(), b);
    }
}

/// Neither a backslash nor a double quote.
pub open spec fn is_literal(c: char) -> bool {
    c != '\\' && c != '"'
}

/// A run of plain characters extends the token at hand.
pub proof fn lemma_scan_run(scan: Scan, s: Seq<char>)
    requires
        !scan.escaped,
        forall|i: int|
            0 <= i < s.len() ==> is_literal(#[trigger] s[i]) && (scan.quoted || !is_space(s[i])),
    ensures
        scan_from(scan, s) == (Scan { token: scan.token + s, ..scan }),
    decreases s.len(),
{
    if s.len() == 0 {
        assert(scan.token + s =~= scan.token);
    } else {
        let next = scan_char(scan, s[0]);
        assert(next == (Scan { token: scan.token.push(s[0]), ..scan }));
        assert forall|i: int| 0 <= i < s.drop_first().len() implies is_literal(
            #[trigger] s.drop_first()[i],
        ) && (scan.quoted || !is_space(s.drop_first()[i])) by {
            assert(s.drop_first()[i] == s[i + 1]);
        }
        lemma_scan_run(next, s.drop_first());
        assert(scan.token.push(s[0]) + s.drop_first() =~= scan.token + s);
    }
}

/// The tokens that a scan has ended stay.
proof fn lemma_scan_keeps(scan: Scan, s: Seq<char>)
    ensures
        scan.tokens.is_prefix_of(scan_from(scan, s).tokens),
    decreases s.len(),
{
    if s.len() > 0 {
        lemma_scan_keeps(scan_char(scan, s[0]), s.drop_first());
    }
}

/// A token with an equals sign is among the pairs.
proof fn lemma_key_values(tokens: Seq<Seq<char>>, i: int)
    requires
        0 <= i < tokens.len(),
        split_once(tokens[i], '=') is Some,
    ensures
        key_values(tokens).contains(split_once(tokens[i], '=')->0),
    decreases tokens.len(),
{
    let before = key_values(tokens.drop_last());
    if i == tokens.len() - 1 {
        assert(key_values(tokens)[before.len() as int] == split_once(tokens[i], '=')->0);
    } else {
        lemma_key_values(tokens.drop_last(), i);
        let k = choose|k: int|
            0 <= k < before.len() && #[trigger] before[k] == split_once(tokens[i], '=')->0;
        assert(key_values(tokens)[k] == before[k]);
    }
}

/// A pair with a quoted value, a space, and the rest of an argument.
spec fn quoted_first(key: Seq<char>, value: Seq<char>, rest: Seq<char>) -> Seq<char> {
    key + seq!['=', '"'] + value + seq!['"', ' '] + rest
}

/// An argument that begins with `key=`, a quoted value and a space has that pair.
proof fn lemma_first_pair(key: Seq<char>, value: Seq<char>, rest: Seq<char>)
    requires
        forall|i: int|
            0 <= i < key.len() ==> is_literal(#[trigger] key[i]) && !is_space(key[i]) && key[i]
                != '=',
        forall|i: int| 0 <= i < value.len() ==> is_literal(#[trigger] value[i]),
    ensures
        key_values(arg_tokens(quoted_first(key, value, rest))).contains((key, value)),
{
    let s0 = scan_start();
    let head = key.push('=');
    assert forall|i: int| 0 <= i < head.len() implies is_literal(#[trigger] head[i]) && !is_space(
        head[i],
    ) by {
        if i < key.len() {
            assert(head[i] == key[i]);
        }
    }
    lemma_scan_run(s0, head);
    assert(s0.token + head =~= head);
    let s1 = Scan { token: head, ..s0 };
    let s2 = Scan { quoted: true, ..s1 };
    assert(scan_from(s1, seq!['"']) == s2) by {
        reveal_with_fuel(scan_from, 2);
    }
    lemma_scan_run(s2, value);
    let s3 = Scan { token: head + value, ..s2 };
    let s4 = Scan { tokens: seq![head + value], token: seq![], quoted: false, escaped: false };
    assert(scan_from(s3, seq!['"', ' ']) == s4) by {
        reveal_with_fuel(scan_from, 3);
        let after = Scan { quoted: false, ..s3 };
        assert(scan_char(s3, '"') == after);
        assert(seq!['"', ' '].drop_first() =~= seq![' ']);
        assert(tokens_of(after) =~= seq![head + value]);
    }
    let upto = key + seq!['=', '"'] + value + seq!['"', ' '];
    assert(upto =~= head + (seq!['"'] + (value + seq!['"', ' '])));
    lemma_scan_concat(s0, head, seq!['"'] + (value + seq!['"', ' ']));
    lemma_scan_concat(s1, seq!['"'], value + seq!['"', ' ']);
    lemma_scan_concat(s2, value, seq!['"', ' ']);
    lemma_scan_concat(s0, upto, rest);
    lemma_scan_keeps(s4, rest);
    let arg = upto + rest;
    let tokens = arg_tokens(arg);
    assert(scan_from(s0, arg).tokens[0] == s4.tokens[0]);
    assert(tokens[0] == head + value);
    lemma_find_at(head + value, '=', key.len() as int);
    assert((head + value).take(key.len() as int) =~= key);
    assert((head + value).skip(key.len() as int + 1) =~= value);
    lemma_key_values(tokens, 0);
}

/// The names of our sinks hold plain characters only.
proof fn lemma_our_names()
    ensures
        forall|i: int| 0 <= i < GAME_SINK@.len() ==> is_literal(#[trigger] GAME_SINK@[i]),
        forall|i: int| 0 <= i < CHAT_SINK@.len() ==> is_literal(#[trigger] CHAT_SINK@[i]),
{
    reveal_strlit("Arctis Game");
    reveal_strlit("Arctis Chat");
    assert forall|i: int| 0 <= i < GAME_SINK@.len() implies is_literal(
        #[trigger] GAME_SINK@[i],
    ) by {
        assert(i == 0 || i == 1 || i == 2 || i == 3 || i == 4 || i == 5 || i == 6 || i == 7 || i == 8
            || i == 9 || i == 10);
    }
    assert forall|i: int| 0 <= i < CHAT_SINK@.len() implies is_literal(
        #[trigger] CHAT_SINK@[i],
    ) by {
        assert(i == 0 || i == 1 || i == 2 || i == 3 || i == 4 || i == 5 || i == 6 || i == 7 || i == 8
            || i == 9 || i == 10);
    }
}

/// The argument of the module that a load command loads: what follows the command and
/// the name of the module.
pub open spec fn module_argument(command: Seq<Seq<char>>) -> Seq<char> {
    joined(command.skip(2), " "@)
}

proof fn lemma_null_sink_is_ours(name: Seq<char>)
    requires
        our_name(name),
        forall|i: int| 0 <= i < name.len() ==> is_literal(#[trigger] name[i]),
    ensures
        our_module(module_argument(null_sink_command(name))),
{
    let command = null_sink_command(name);
    let parts = command.skip(2);
    let key = "sink_name"@;
    let rest = command[3];
    reveal_with_fuel(joined, 3);
    reveal_strlit("sink_name");
    reveal_strlit("sink_name=\"");
    reveal_strlit("\"");
    reveal_strlit(" ");
    assert(parts.drop_last() =~= seq![command[2]]);
    assert("sink_name=\""@ =~= key + seq!['=', '"']);
    assert("\""@ + " "@ =~= seq!['"', ' ']);
    assert(module_argument(command) =~= quoted_first(key, name, rest));
    assert forall|i: int| 0 <= i < key.len() implies is_literal(#[trigger] key[i]) && !is_space(
        key[i],
    ) && key[i] != '=' by {
        assert(i == 0 || i == 1 || i == 2 || i == 3 || i == 4 || i == 5 || i == 6 || i == 7 || i
            == 8);
    }
    lemma_first_pair(key, name, rest);
    let pairs = key_values(arg_tokens(module_argument(command)));
    let k = choose|k: int| 0 <= k < pairs.len() && #[trigger] pairs[k] == (key, name);
    assert(our_pair(pairs[k]));
}

proof fn lemma_loopback_is_ours(name: Seq<char>, target: Seq<char>)
    requires
        our_name(name),
        forall|i: int| 0 <= i < name.len() ==> is_literal(#[trigger] name[i]),
    ensures
        our_module(module_argument(loopback_command(name, target))),
{
    let command = loopback_command(name, target);
    let parts = command.skip(2);
    let key = "source"@;
    let value = name + ".monitor"@;
    let rest = command[3] + " "@ + command[4];
    reveal_with_fuel(joined, 4);
    reveal_strlit("source");
    reveal_strlit("source=\"");
    reveal_strlit(".monitor");
    reveal_strlit(".monitor\"");
    reveal_strlit(" ");
    assert(parts.drop_last().drop_last() =~= seq![command[2]]);
    assert("source=\""@ =~= key + seq!['=', '"']);
    assert(".monitor\""@ + " "@ =~= ".monitor"@ + seq!['"', ' ']);
    assert(module_argument(command) =~= quoted_first(key, value, rest));
    assert forall|i: int| 0 <= i < key.len() implies is_literal(#[trigger] key[i]) && !is_space(
        key[i],
    ) && key[i] != '=' by {
        assert(i == 0 || i == 1 || i == 2 || i == 3 || i == 4 || i == 5);
    }
    assert forall|i: int| 0 <= i < value.len() implies is_literal(#[trigger] value[i]) by {
        if i < name.len() {
            assert(value[i] == name[i]);
        } else {
            let j = i - name.len();
            assert(value[i] == ".monitor"@[j]);
            assert(j == 0 || j == 1 || j == 2 || j == 3 || j == 4 || j == 5 || j == 6 || j == 7);
        }
    }
    lemma_first_pair(key, value, rest);
    let pairs = key_values(arg_tokens(module_argument(command)));
    let k = choose|k: int| 0 <= k < pairs.len() && #[trigger] pairs[k] == (key, value);
    assert(value.subrange(name.len() as int, value.len() as int) =~= ".monitor"@);
    assert(value.take(name.len() as int) =~= name);
    assert(our_pair(pairs[k]));
}

/// Every module that the setup loads is recognised as ours, whatever the name of the
/// real sink: what one run leaves behind, the next one removes.
pub proof fn what_setup_loads_is_ours(target: Seq<char>, k: int)
    requires
        0 <= k < setup_commands(target).len(),
    ensures
        our_module(module_argument(setup_commands(target)[k])),
{
    lemma_our_names();
    if k == 0 {
        lemma_null_sink_is_ours(GAME_SINK@);
    } else if k == 1 {
        lemma_loopback_is_ours(GAME_SINK@, target);
    } else if k == 2 {
        lemma_null_sink_is_ours(CHAT_SINK@);
    } else {
        lemma_loopback_is_ours(CHAT_SINK@, target);
    }
}

/// A module that neither creates a sink of ours nor has the monitor of one as its source is
/// spared, whatever it routes into our sinks or says of them.
pub proof fn a_module_that_only_mentions_our_sinks_is_spared(arg: Seq<char>)
    requires
        forall|i: int|
            0 <= i < key_values(arg_tokens(arg)).len() ==> {
                let (key, value) = #[trigger] key_values(arg_tokens(arg))[i];
                &&& key == "sink_name"@ ==> !our_name(value)
                &&& key == "source"@ ==> forall|name: Seq<char>|
                    our_name(name) ==> value != #[trigger] (name + ".monitor"@)
            },
    ensures
        !our_module(arg),
{
    let pairs = key_values(arg_tokens(arg));
    if our_module(arg) {
        let i = choose|i: int| 0 <= i < pairs.len() && our_pair(#[trigger] pairs[i]);
        let (key, value) = pairs[i];
        if key == "source"@ && strip_suffix(value, ".monitor"@) is Some {
            let name = strip_suffix(value, ".monitor"@)->0;
            assert(value =~= name + value.subrange(name.len() as int, value.len() as int));
        }
    }
}

/// A piece without separators, then a separator.
proof fn lemma_split_first(a: Seq<char>, c: char, b: Seq<char>)
    requires
        !a.contains(c),
    ensures
        split(a + seq![c] + b, c) == seq![a] + split(b, c),
{
    let s = a + seq![c] + b;
    assert forall|j: int| 0 <= j < a.len() implies s[j] != c by {
        assert(a.contains(a[j]));
    }
    lemma_find_at(s, c, a.len() as int);
    assert(s.take(a.len() as int) =~= a);
    assert(s.skip(a.len() as int + 1) =~= b);
}

/// Digits are not trimmed.
proof fn lemma_digits_untrimmed(s: Seq<char>)
    requires
        digits_only(s),
    ensures
        trim(s) == s,
{
    if s.len() > 0 {
        assert(is_digit(s[0]));
        assert(is_digit(s[s.len() - 1]));
    }
}

/// From a line `index <tab> name <tab> argument <tab>` the index and the argument are read
/// back, whatever they are, as long as no column holds a tab.
pub proof fn a_module_line_is_read_back(index: Seq<char>, name: Seq<char>, arg: Seq<char>)
    requires
        index.len() > 0,
        digits_only(index),
        !name.contains('\t'),
        !arg.contains('\t'),
    ensures
        module_line(index + seq!['\t'] + (name + seq!['\t'] + (arg + seq!['\t'] + seq![]))) == Some(
            (index, arg),
        ),
        module_line(index + seq!['\t'] + (name + seq!['\t'] + arg)) == Some((index, arg)),
{
    assert forall|i: int| 0 <= i < index.len() implies index[i] != '\t' by {
        assert(is_digit(index[i]));
    }
    lemma_digits_untrimmed(index);
    let tail = arg + seq!['\t'] + seq![];
    lemma_split_first(index, '\t', name + seq!['\t'] + tail);
    lemma_split_first(name, '\t', tail);
    lemma_split_first(arg, '\t', seq![]);
    assert(split(tail, '\t')[0] == arg);
    lemma_split_first(index, '\t', name + seq!['\t'] + arg);
    lemma_split_first(name, '\t', arg);
    lemma_find(arg, '\t');
    assert(split(arg, '\t')[0] == arg);
}

/// A listed module is unloaded if it is ours.
pub proof fn a_listed_module_of_ours_is_unloaded(list: Seq<Seq<char>>, i: int)
    requires
        0 <= i < list.len(),
        module_line(list[i]) is Some,
        our_module((module_line(list[i])->0).1),
    ensures
        exists|k: int|
            0 <= k < unload_commands(list).len() && #[trigger] unload_commands(list)[k] == seq![
                "unload-module"@,
                (module_line(list[i])->0).0,
            ],
    decreases list.len(),
{
    let before = unload_commands(list.drop_last());
    let wanted = seq!["unload-module"@, (module_line(list[i])->0).0];
    if i == list.len() - 1 {
        assert(unload_commands(list)[before.len() as int] == wanted);
    } else {
        a_listed_module_of_ours_is_unloaded(list.drop_last(), i);
        let k = choose|k: int| 0 <= k < before.len() && #[trigger] before[k] == wanted;
        assert(unload_commands(list)[k] == before[k]);
    }
}

/// Nothing but listed modules of ours is unloaded.
pub proof fn only_our_modules_are_unloaded(list: Seq<Seq<char>>, k: int)
    requires
        0 <= k < unload_commands(list).len(),
    ensures
        exists|i: int|
            0 <= i < list.len() && module_line(#[trigger] list[i]) is Some && our_module(
                (module_line(list[i])->0).1,
            ) && unload_commands(list)[k] == seq!["unload-module"@, (module_line(list[i])->0).0],
    decreases list.len(),
{
    let last = list.len() - 1;
    let before = unload_commands(list.drop_last());
    if k < before.len() {
        only_our_modules_are_unloaded(list.drop_last(), k);
        let i = choose|i: int|
            0 <= i < last && module_line(#[trigger] list.drop_last()[i]) is Some && our_module(
                (module_line(list.drop_last()[i])->0).1,
            ) && before[k] == seq!["unload-module"@, (module_line(list.drop_last()[i])->0).0];
        assert(list[i] == list.drop_last()[i]);
    } else {
        assert(list[last] == list.last());
    }
}

/// What an earlier run has loaded and left behind is unloaded, as long as the server lists it
/// with the argument that it was loaded with.
pub proof fn what_an_earlier_run_left_is_unloaded(
    target: Seq<char>,
    k: int,
    list: Seq<Seq<char>>,
    i: int,
    index: Seq<char>,
)
    requires
        0 <= k < setup_commands(target).len(),
        0 <= i < list.len(),
        module_line(list[i]) == Some((index, module_argument(setup_commands(target)[k]))),
    ensures
        exists|n: int|
            0 <= n < unload_commands(list).len() && #[trigger] unload_commands(list)[n] == seq![
                "unload-module"@,
                index,
            ],
{
    what_setup_loads_is_ours(target, k);
    a_listed_module_of_ours_is_unloaded(list, i);
}

} // verus!
