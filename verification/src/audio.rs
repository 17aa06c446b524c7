//! What the sound server tells: the sinks there are, and that they have changed.
use vstd::prelude::*;

use crate::devices::{DeviceSpec, VENDOR_ID};
use crate::json::{
    json_content, json_member, json_text, member, parse_json, text_member, text_or_empty, Json,
};
use crate::modules::{CHAT_SINK, GAME_SINK};
use crate::text::{
    chars_of, contains, find, hex, hex_of, lemma_find, lemma_find_at, occurs_at, opt_text, same_text,
};

verus! {

// ---------------------------------------------------------------------------
// The sinks
// ---------------------------------------------------------------------------

/// What the sink situation is: whether our two sinks exist, and the name of the headset's
/// real sink.
#[derive(Debug)]
pub struct SinkSnapshot {
    pub game: bool,
    pub chat: bool,
    pub real: Option<String>,
}

/// A [`SinkSnapshot`] with its name as a text.
pub struct Snapshot {
    pub game: bool,
    pub chat: bool,
    pub target: Option<Seq<char>>,
}

impl View for SinkSnapshot {
    type V = Snapshot;

    open spec fn view(&self) -> Snapshot {
        Snapshot { game: self.game, chat: self.chat, target: opt_text(self.real) }
    }
}

impl Clone for SinkSnapshot {
    fn clone(&self) -> (r: SinkSnapshot)
        ensures
            r@ == self@,
    {
        SinkSnapshot {
            game: self.game,
            chat: self.chat,
            real: match &self.real {
                Some(name) => Some(name.clone()),
                None => None,
            },
        }
    }
}

/// A sink of the server: its name, and the ids of the device behind it, each empty where
/// the server gives none.
#[derive(Debug)]
pub struct SinkEntry {
    pub name: String,
    pub vendor: String,
    pub product: String,
}

/// A [`SinkEntry`] with its texts.
pub struct SinkModel {
    pub name: Seq<char>,
    pub vendor: Seq<char>,
    pub product: Seq<char>,
}

impl View for SinkEntry {
    type V = SinkModel;

    open spec fn view(&self) -> SinkModel {
        SinkModel { name: self.name@, vendor: self.vendor@, product: self.product@ }
    }
}

/// The sinks of a list.
pub open spec fn sink_models(entries: Seq<SinkEntry>) -> Seq<SinkModel> {
    entries.map_values(|e: SinkEntry| e@)
}

/// What a sink of the server's JSON list says of itself.
pub open spec fn sink_of(value: Json) -> SinkModel {
    SinkModel {
        name: text_or_empty(member(value, "name"@)),
        vendor: text_or_empty(member(member(value, "properties"@), "device.vendor.id"@)),
        product: text_or_empty(member(member(value, "properties"@), "device.product.id"@)),
    }
}

/// The sinks that a JSON document lists, unless it is no list.
pub open spec fn listed_sinks(document: Option<Json>) -> Option<Seq<SinkModel>> {
    match document {
        Some(Json::List(items)) => Some(items.map_values(|v: Json| sink_of(v))),
        _ => None,
    }
}

/// The sinks that a text lists in JSON.
pub fn sink_entries(json: &str) -> (r: Option<Vec<SinkEntry>>)
    ensures
        r is Some <==> listed_sinks(json_text(json@)) is Some,
        r matches Some(entries) ==> listed_sinks(json_text(json@)) == Some(sink_models(entries@)),
{
    let document = match parse_json(json) {
        Ok(v) => v,
        Err(_) => return None,
    };
    let items = match document.as_array() {
        Some(items) => items,
        None => return None,
    };
    let ghost model = items@.map_values(|item: serde_json::Value| json_content(item));
    let ghost all = model.map_values(|v: Json| sink_of(v));
    let mut r: Vec<SinkEntry> = Vec::new();
    let mut i: usize = 0;
    while i < items.len()
        invariant
            i <= items@.len(),
            model == items@.map_values(|item: serde_json::Value| json_content(item)),
            all == model.map_values(|v: Json| sink_of(v)),
            sink_models(r@) == all.take(i as int),
        decreases items@.len() - i,
    {
        let item = &items[i];
        let properties = json_member(item, "properties");
        let entry = SinkEntry {
            name: text_member(item, "name").to_owned(),
            vendor: text_member(properties, "device.vendor.id").to_owned(),
            product: text_member(properties, "device.product.id").to_owned(),
        };
        assert(entry@ == all[i as int]);
        let ghost before = sink_models(r@);
        let ghost one = entry@;
        r.push(entry);
        i += 1;
        assert(sink_models(r@) =~= before.push(one));
        assert(before.push(one) =~= all.take(i as int));
    }
    assert(all.take(i as int) =~= all);
    Some(r)
}

/// A USB id as the server writes it.
pub open spec fn usb_id(id: u16) -> Seq<char> {
    "0x"@ + hex(id as nat, 4, false)
}

/// The sink belongs to the device.
pub open spec fn is_headset(spec: DeviceSpec, sink: SinkModel) -> bool {
    sink.vendor == usb_id(VENDOR_ID) && exists|i: int|
        0 <= i < spec.product_ids@.len() && sink.product == usb_id(#[trigger] spec.product_ids@[i])
}

/// The name of the last sink that belongs to the device.
pub open spec fn headset_sink(spec: DeviceSpec, sinks: Seq<SinkModel>) -> Option<Seq<char>>
    decreases sinks.len(),
{
    if sinks.len() == 0 {
        None
    } else if is_headset(spec, sinks.last()) {
        Some(sinks.last().name)
    } else {
        headset_sink(spec, sinks.drop_last())
    }
}

/// Some sink has this name.
pub open spec fn has_sink(sinks: Seq<SinkModel>, name: Seq<char>) -> bool {
    exists|i: int| 0 <= i < sinks.len() && (#[trigger] sinks[i]).name == name
}

/// The situation that a list of sinks shows.
pub open spec fn snapshot_of(spec: DeviceSpec, sinks: Seq<SinkModel>) -> Snapshot {
    Snapshot {
        game: has_sink(sinks, GAME_SINK@),
        chat: has_sink(sinks, CHAT_SINK@),
        target: headset_sink(spec, sinks),
    }
}

/// A USB id as the server writes it.
fn usb_id_text(id: u16) -> (r: String)
    ensures
        r@ == usb_id(id),
{
    let mut r = "0x".to_owned();
    r.append(hex_of(id as u32, 4, false).as_str());
    r
}

/// The sink belongs to the device.
fn belongs_to(spec: &DeviceSpec, sink: &SinkEntry) -> (r: bool)
    ensures
        r == is_headset(*spec, sink@),
{
    if !same_text(sink.vendor.as_str(), usb_id_text(VENDOR_ID).as_str()) {
        return false;
    }
    let mut i: usize = 0;
    while i < spec.product_ids.len()
        invariant
            i <= spec.product_ids@.len(),
            sink@.vendor == usb_id(VENDOR_ID),
            forall|j: int|
                0 <= j < i ==> sink@.product != usb_id(#[trigger] spec.product_ids@[j]),
        decreases spec.product_ids@.len() - i,
    {
        if same_text(sink.product.as_str(), usb_id_text(spec.product_ids[i]).as_str()) {
            assert(sink@.product == usb_id(spec.product_ids@[i as int]));
            return true;
        }
        i += 1;
    }
    false
}

/// The situation that a list of sinks shows.
pub fn snapshot_entries(spec: &DeviceSpec, entries: &Vec<SinkEntry>) -> (r: SinkSnapshot)
    ensures
        r@ == snapshot_of(*spec, sink_models(entries@)),
{
    let ghost all = sink_models(entries@);
    let mut game = false;
    let mut chat = false;
    let mut found: Option<String> = None;
    let mut i: usize = 0;
    while i < entries.len()
        invariant
            i <= entries@.len(),
            all == sink_models(entries@),
            game == has_sink(all.take(i as int), GAME_SINK@),
            chat == has_sink(all.take(i as int), CHAT_SINK@),
            opt_text(found) == headset_sink(*spec, all.take(i as int)),
        decreases entries@.len() - i,
    {
        let entry = &entries[i];
        let ghost before = all.take(i as int);
        let ghost after = all.take(i + 1);
        assert(after.drop_last() =~= before);
        assert(after[i as int] == entry@);
        assert forall|name: Seq<char>| #[trigger] has_sink(after, name) == (has_sink(before, name)
            || entry@.name == name) by {
            if has_sink(before, name) {
                let k = choose|k: int| 0 <= k < before.len() && (#[trigger] before[k]).name == name;
                assert(after[k].name == name);
            }
            if has_sink(after, name) && entry@.name != name {
                let k = choose|k: int| 0 <= k < after.len() && (#[trigger] after[k]).name == name;
                assert(before[k].name == name);
            }
        }
        if same_text(entry.name.as_str(), GAME_SINK) {
            game = true;
        }
        if same_text(entry.name.as_str(), CHAT_SINK) {
            chat = true;
        }
        if belongs_to(spec, entry) {
            found = Some(entry.name.clone());
        }
        i += 1;
    }
    assert(all.take(i as int) =~= all);
    SinkSnapshot { game, chat, real: found }
}

/// The situation that the server's JSON list of sinks shows; none where the text is no such
/// list.
pub fn snapshot_sinks(spec: &DeviceSpec, json: &str) -> (r: Option<SinkSnapshot>)
    ensures
        r is Some <==> listed_sinks(json_text(json@)) is Some,
        r matches Some(s) ==> s@ == snapshot_of(*spec, listed_sinks(json_text(json@))->0),
{
    match sink_entries(json) {
        Some(entries) => Some(snapshot_entries(spec, &entries)),
        None => None,
    }
}

/// The real sink is one that the server lists and that belongs to the headset; there is none
/// only where no listed sink does.
pub proof fn the_real_sink_belongs_to_the_headset(spec: DeviceSpec, sinks: Seq<SinkModel>)
    ensures
        headset_sink(spec, sinks) is None <==> (forall|i: int|
            0 <= i < sinks.len() ==> !is_headset(spec, #[trigger] sinks[i])),
        headset_sink(spec, sinks) matches Some(name) ==> exists|i: int|
            0 <= i < sinks.len() && is_headset(spec, #[trigger] sinks[i]) && sinks[i].name == name,
    decreases sinks.len(),
{
    if sinks.len() > 0 {
        let before = sinks.drop_last();
        let last = sinks.len() - 1;
        the_real_sink_belongs_to_the_headset(spec, before);
        if is_headset(spec, sinks.last()) {
            assert(is_headset(spec, sinks[last]));
        } else if let Some(name) = headset_sink(spec, before) {
            let i = choose|i: int|
                0 <= i < before.len() && is_headset(spec, #[trigger] before[i]) && before[i].name
                    == name;
            assert(is_headset(spec, sinks[i]));
        } else {
            assert forall|i: int| 0 <= i < sinks.len() implies !is_headset(
                spec,
                #[trigger] sinks[i],
            ) by {
                if i < last {
                    assert(before[i] == sinks[i]);
                }
            }
        }
    }
}

// ---------------------------------------------------------------------------
// The event stream
// ---------------------------------------------------------------------------

/// What a look at the event stream came to.
#[derive(Clone, Copy, PartialEq, Eq, Debug, Structural)]
pub enum WatchEvent {
    /// A sink or module appeared or vanished.
    Changed,
    /// Nothing that matters: clients, streams, volumes, our own commands included.
    Quiet,
    /// The stream ended.
    Ended,
}

/// What one read of the event stream came to.
pub enum WatchRead {
    /// These bytes; none at the end of the stream.
    Bytes(Vec<u8>),
    /// Nothing is pending.
    Blocked,
    /// An error.
    Failed,
}

/// What follows one read of the event stream.
#[derive(Clone, Copy, PartialEq, Eq, Debug, Structural)]
pub enum ReadStep {
    /// Read on.
    More,
    /// All that was pending is read.
    Pause,
    /// The stream has ended.
    Ended,
}

/// The bytes of an ASCII text.
pub open spec fn bytes(s: Seq<char>) -> Seq<u8> {
    s.map_values(|c: char| c as u8)
}

/// A line feed.
pub const LINE_FEED: u8 = 10;

/// The line tells of a sink or module that appeared or vanished.
pub open spec fn is_change(line: Seq<u8>) -> bool {
    &&& contains(line, bytes("Event 'new'"@)) || contains(line, bytes("Event 'remove'"@))
    &&& contains(line, bytes("on sink #"@)) || contains(line, bytes("on module #"@))
}

/// Some whole line of the stream tells of a change.
pub open spec fn tells_change(stream: Seq<u8>) -> bool
    decreases stream.len(),
{
    proof {
        lemma_find(stream, LINE_FEED);
    }
    let i = find(stream, LINE_FEED);
    i < stream.len() && (is_change(stream.take(i + 1)) || tells_change(stream.skip(i + 1)))
}

/// What follows the last whole line of the stream.
pub open spec fn unfinished(stream: Seq<u8>) -> Seq<u8>
    decreases stream.len(),
{
    proof {
        lemma_find(stream, LINE_FEED);
    }
    let i = find(stream, LINE_FEED);
    if i < stream.len() {
        unfinished(stream.skip(i + 1))
    } else {
        stream
    }
}

/// The bytes of an ASCII text.
fn bytes_of(s: &str) -> (r: Vec<u8>)
    ensures
        r@ == bytes(s@),
{
    let chars = chars_of(s);
    let mut r: Vec<u8> = Vec::new();
    let mut i: usize = 0;
    while i < chars.len()
        invariant
            i <= chars@.len(),
            chars@ == s@,
            r@ == bytes(s@).take(i as int),
        decreases chars@.len() - i,
    {
        r.push(chars[i] as u8);
        i += 1;
        assert(r@ =~= bytes(s@).take(i as int));
    }
    assert(r@ =~= bytes(s@));
    r
}

/// `line` contains the ASCII text `text`.
fn mentions(line: &[u8], text: &str) -> (r: bool)
    ensures
        r == contains(line@, bytes(text@)),
{
    let pattern = bytes_of(text);
    let size = line.len();
    if size < pattern.len() {
        return false;
    }
    let last: usize = size - pattern.len();
    let mut i: usize = 0;
    loop
        invariant
            size == line@.len(),
            pattern@ == bytes(text@),
            last + pattern@.len() == size,
            i <= last,
            forall|j: int| 0 <= j < i ==> !occurs_at(line@, pattern@, j),
        decreases last - i,
    {
        let mut k: usize = 0;
        while k < pattern.len() && line[i + k] == pattern[k]
            invariant
                size == line@.len(),
                k <= pattern@.len(),
                i + pattern@.len() <= size,
                forall|j: int| 0 <= j < k ==> line@[i + j] == pattern@[j],
            decreases pattern@.len() - k,
        {
            k += 1;
        }
        if k == pattern.len() {
            assert(line@.subrange(i as int, i + pattern@.len()) =~= pattern@);
            assert(occurs_at(line@, pattern@, i as int));
            return true;
        }
        assert(line@.subrange(i as int, i + pattern@.len())[k as int] != pattern@[k as int]);
        if i == last {
            return false;
        }
        i += 1;
    }
}

/// The line tells of a change.
fn line_changes(line: &[u8]) -> (r: bool)
    ensures
        r == is_change(line@),
{
    (mentions(line, "Event 'new'") || mentions(line, "Event 'remove'")) && (mentions(
        line,
        "on sink #",
    ) || mentions(line, "on module #"))
}

/// The events that the server streams as lines of text, as far as they are read.
pub struct SinkWatch {
    buf: Vec<u8>,
}

impl View for SinkWatch {
    type V = Seq<u8>;

    closed spec fn view(&self) -> Seq<u8> {
        self.buf@
    }
}

impl SinkWatch {
    /// A stream of which nothing is read.
    pub fn new() -> (r: SinkWatch)
        ensures
            r@ == Seq::<u8>::empty(),
    {
        SinkWatch { buf: Vec::new() }
    }

    /// Takes in what one read came to.
    pub fn take(&mut self, read: WatchRead) -> (r: ReadStep)
        ensures
            final(self)@ == match read {
                WatchRead::Bytes(chunk) => old(self)@ + chunk@,
                _ => old(self)@,
            },
            r == match read {
                WatchRead::Bytes(chunk) => if chunk@.len() > 0 {
                    ReadStep::More
                } else {
                    ReadStep::Ended
                },
                WatchRead::Blocked => ReadStep::Pause,
                WatchRead::Failed => ReadStep::Ended,
            },
    {
        match read {
            WatchRead::Bytes(chunk) => {
                let ghost old_buf = self.buf@;
                self.buf.extend_from_slice(chunk.as_slice());
                assert(self.buf@ =~= old_buf + chunk@);
                if chunk.len() > 0 {
                    ReadStep::More
                } else {
                    ReadStep::Ended
                }
            },
            WatchRead::Blocked => ReadStep::Pause,
            WatchRead::Failed => ReadStep::Ended,
        }
    }

    /// Consumes the whole lines that have been read. A change comes before the end of the
    /// stream.
    pub fn drain(&mut self, ended: bool) -> (r: WatchEvent)
        ensures
            final(self)@ == unfinished(old(self)@),
            r == if tells_change(old(self)@) {
                WatchEvent::Changed
            } else if ended {
                WatchEvent::Ended
            } else {
                WatchEvent::Quiet
            },
    {
        let ghost all = self.buf@;
        let size = self.buf.len();
        let mut changed = false;
        let mut start: usize = 0;
        let mut i: usize = 0;
        assert(all.skip(0) =~= all);
        while i < size
            invariant
                self.buf@ == all,
                size == all.len(),
                start <= i <= size,
                forall|j: int| start <= j < i ==> all[j] != LINE_FEED,
                tells_change(all) == (changed || tells_change(all.skip(start as int))),
                unfinished(all) == unfinished(all.skip(start as int)),
            decreases size - i,
        {
            if self.buf[i] == LINE_FEED {
                let line = &self.buf.as_slice()[start..i + 1];
                proof {
                    let rest = all.skip(start as int);
                    lemma_find_at(rest, LINE_FEED, i - start);
                    assert(rest.take(i - start + 1) =~= line@);
                    assert(rest.skip(i - start + 1) =~= all.skip(i + 1));
                }
                if line_changes(line) {
                    changed = true;
                }
                start = i + 1;
            }
            i += 1;
        }
        proof {
            lemma_find_at(all.skip(start as int), LINE_FEED, size - start);
        }
        self.buf = tail_of(self.buf.as_slice(), start);
        if changed {
            WatchEvent::Changed
        } else if ended {
            WatchEvent::Ended
        } else {
            WatchEvent::Quiet
        }
    }
}

/// The bytes from `start` on.
fn tail_of(bytes: &[u8], start: usize) -> (r: Vec<u8>)
    requires
        start <= bytes@.len(),
    ensures
        r@ == bytes@.skip(start as int),
{
    let mut r: Vec<u8> = Vec::new();
    let tail = &bytes[start..bytes.len()];
    r.extend_from_slice(tail);
    assert(r@ =~= bytes@.skip(start as int));
    r
}

/// Nothing is left of a whole line.
pub proof fn no_whole_line_is_left(stream: Seq<u8>)
    ensures
        !unfinished(stream).contains(LINE_FEED),
    decreases stream.len(),
{
    lemma_find(stream, LINE_FEED);
    let i = find(stream, LINE_FEED);
    if i < stream.len() {
        no_whole_line_is_left(stream.skip(i + 1));
    }
}

/// However the stream is cut into reads, the same changes are told and the same is left
/// over: what is left of one part is read together with the next.
pub proof fn cuts_lose_no_event(first: Seq<u8>, second: Seq<u8>)
    ensures
        tells_change(first + second) == (tells_change(first) || tells_change(
            unfinished(first) + second,
        )),
        unfinished(first + second) == unfinished(unfinished(first) + second),
    decreases first.len(),
{
    lemma_find(first, LINE_FEED);
    let i = find(first, LINE_FEED);
    if i < first.len() {
        let all = first + second;
        lemma_find_at(all, LINE_FEED, i);
        assert(all.take(i + 1) =~= first.take(i + 1));
        assert(all.skip(i + 1) =~= first.skip(i + 1) + second);
        cuts_lose_no_event(first.skip(i + 1), second);
    }
}

} // verus!
