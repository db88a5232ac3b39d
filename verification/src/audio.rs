//! Sound devices, and getting a microphone into a voice connection and voices out of it. Samples
//! are counted and queued here; what they measure is left to whoever owns the devices.
use vstd::prelude::*;
use crate::json::{Json, JsonV, collect, lemma_collect_step, parse, parsed_json};
use crate::text::{decimal, decimal_text, is_text, lend, maybe, maybe_str, own, same, texts, trim, trimmed, views};
use crate::backend::discord::people::{filled, only_filled};

verus! {

/// The rate that voice is sent at, in frames a second.
pub const TARGET_RATE: u32 = 48_000;

/// How many channels voice is sent with.
pub const TARGET_CHANNELS: u16 = 2;

/// The id that lets the sound server decide.
pub const DEFAULT_ID: &'static str = "";

/// A device that sound can come from or go to.
#[derive(Debug, PartialEq, Eq)]
pub struct AudioDevice {
    /// The sound server's own name for it, which a stored choice goes by.
    pub id: String,
    /// What to show a person.
    pub name: String,
    /// Whether it is for input or for output.
    pub kind: String,
    /// Whether the sound server uses it by default.
    pub is_default: bool,
}

pub struct AudioDeviceV {
    pub id: Seq<char>,
    pub name: Seq<char>,
    pub kind: Seq<char>,
    pub is_default: bool,
}

impl View for AudioDevice {
    type V = AudioDeviceV;

    open spec fn view(&self) -> AudioDeviceV {
        AudioDeviceV {
            id: self.id@,
            name: self.name@,
            kind: self.kind@,
            is_default: self.is_default,
        }
    }
}

/// Which devices voice uses, and whether it is silenced. No device means the default one.
#[derive(Debug, PartialEq, Eq)]
pub struct VoicePrefs {
    pub input: Option<String>,
    pub output: Option<String>,
    pub mic_muted: bool,
    pub deafened: bool,
}

pub struct VoicePrefsV {
    pub input: Option<Seq<char>>,
    pub output: Option<Seq<char>>,
    pub mic_muted: bool,
    pub deafened: bool,
}

impl View for VoicePrefs {
    type V = VoicePrefsV;

    open spec fn view(&self) -> VoicePrefsV {
        VoicePrefsV {
            input: maybe(self.input),
            output: maybe(self.output),
            mic_muted: self.mic_muted,
            deafened: self.deafened,
        }
    }
}

/// The preferences of somebody who never chose.
pub open spec fn no_prefs() -> VoicePrefsV {
    VoicePrefsV { input: None, output: None, mic_muted: false, deafened: false }
}

impl Default for VoicePrefs {
    fn default() -> (r: VoicePrefs)
        ensures
            r@ == no_prefs(),
    {
        VoicePrefs { input: None, output: None, mic_muted: false, deafened: false }
    }
}

impl VoicePrefs {
    /// The same again.
    pub fn copy(&self) -> (r: VoicePrefs)
        ensures
            r@ == self@,
    {
        VoicePrefs {
            input: own(lend(&self.input)),
            output: own(lend(&self.output)),
            mic_muted: self.mic_muted,
            deafened: self.deafened,
        }
    }
}

/// The preferences in force.
pub struct VoicePrefsStore {
    inner: VoicePrefs,
}

impl View for VoicePrefsStore {
    type V = VoicePrefsV;

    closed spec fn view(&self) -> VoicePrefsV {
        self.inner@
    }
}

impl VoicePrefsStore {
    /// Starts with what was written down. Where that could not be read, the defaults do.
    pub fn open(read: Option<VoicePrefs>) -> (r: VoicePrefsStore)
        ensures
            r@ == (match read {
                Some(p) => p@,
                None => no_prefs(),
            }),
    {
        match read {
            Some(p) => VoicePrefsStore { inner: p },
            None => VoicePrefsStore { inner: VoicePrefs::default() },
        }
    }

    pub fn get(&self) -> (r: VoicePrefs)
        ensures
            r@ == self@,
    {
        self.inner.copy()
    }

    /// Puts other preferences in force, and hands them back to be written down.
    pub fn update(&mut self, edited: VoicePrefs) -> (r: VoicePrefs)
        ensures
            r@ == edited@,
            final(self)@ == edited@,
    {
        self.inner = edited;
        self.inner.copy()
    }
}

/// Whether an entry is the monitor of an output: what is playing already, which sent back into a
/// call would be heard twice.
pub open spec fn is_monitor(entry: JsonV, id: Seq<char>) -> bool {
    ends_with(id, ".monitor"@) || entry.at("monitor_of_sink_name"@) is Str
}

/// Whether a text ends with another.
pub open spec fn ends_with(text: Seq<char>, end: Seq<char>) -> bool {
    end.len() <= text.len() && text.skip(text.len() - end.len()) == end
}

fn has_end(text: &str, end: &str) -> (r: bool)
    ensures
        r == ends_with(text@, end@),
{
    let t = crate::text::chars_of(text);
    let e = crate::text::chars_of(end);
    if e.len() > t.len() {
        return false;
    }
    let from: usize = t.len() - e.len();
    let mut i: usize = 0;
    while i < e.len()
        invariant
            t@ == text@,
            e@ == end@,
            from + e.len() == t.len(),
            i <= e.len(),
            forall|j: int| 0 <= j < i ==> t@[from + j] == #[trigger] e@[j],
        decreases e.len() - i,
    {
        if t[from + i] != e[i] {
            assert(text@.skip(from as int)[i as int] != end@[i as int]);
            return false;
        }
        i += 1;
    }
    assert(text@.skip(from as int) =~= end@);
    true
}

/// A device worth offering.
pub open spec fn device_in(entry: JsonV, kind: Seq<char>, default_name: Seq<char>) -> Option<
    AudioDeviceV,
> {
    match entry.at("name"@).text() {
        Some(id) => if kind == "input"@ && is_monitor(entry, id) {
            None
        } else {
            Some(
                AudioDeviceV {
                    id,
                    name: match filled(entry.at("description"@).text()) {
                        Some(d) => d,
                        None => id,
                    },
                    kind,
                    is_default: id == default_name,
                },
            )
        },
        None => None,
    }
}

pub open spec fn device_reader(kind: Seq<char>, default_name: Seq<char>) -> spec_fn(JsonV) -> Option<
    AudioDeviceV,
> {
    |entry: JsonV| device_in(entry, kind, default_name)
}

fn read_device(entry: &Json, kind: &str, default_name: &str) -> (r: Option<AudioDevice>)
    ensures
        match r {
            Some(d) => device_in(entry@, kind@, default_name@) == Some(d@),
            None => device_in(entry@, kind@, default_name@) is None,
        },
{
    let id = match entry.at("name").text() {
        Some(id) => id,
        None => {
            return None;
        },
    };
    if same(kind, "input") && (has_end(id, ".monitor") || entry.at(
        "monitor_of_sink_name",
    ).text().is_some()) {
        return None;
    }
    let name = match only_filled(entry.at("description").text()) {
        Some(d) => d,
        None => id,
    };
    Some(
        AudioDevice {
            id: id.to_owned(),
            name: name.to_owned(),
            kind: kind.to_owned(),
            is_default: same(id, default_name),
        },
    )
}

/// The devices of a list, or the words for why it is none.
pub open spec fn devices_in(json: Option<JsonV>, kind: Seq<char>, default_name: Seq<char>) -> Result<
    Seq<AudioDeviceV>,
    Seq<char>,
> {
    match json {
        Some(JsonV::List(entries)) => Ok(collect(entries, device_reader(kind, default_name))),
        Some(_) => Err("pactl did not return a list"@),
        None => Err("parsing pactl output"@),
    }
}

/// Devices, or the words for why there are none.
pub open spec fn devices_view(r: Result<Vec<AudioDevice>, String>) -> Result<
    Seq<AudioDeviceV>,
    Seq<char>,
> {
    match r {
        Ok(list) => Ok(views(list@)),
        Err(e) => Err(e@),
    }
}

/// The devices of a list that was read.
pub fn read_devices(json: Option<&Json>, kind: &str, default_name: &str) -> (r: Result<
    Vec<AudioDevice>,
    String,
>)
    ensures
        devices_view(r) == devices_in(
            crate::backend::discord::guilds::maybe_json(json),
            kind@,
            default_name@,
        ),
{
    let json = match json {
        Some(j) => j,
        None => {
            return Err("parsing pactl output".to_owned());
        },
    };
    let entries = match json.list_items() {
        Some(list) => list,
        None => {
            return Err("pactl did not return a list".to_owned());
        },
    };
    let ghost all = views(entries@);
    let ghost reader = device_reader(kind@, default_name@);
    let mut out: Vec<AudioDevice> = Vec::new();
    let mut i: usize = 0;
    assert(views(out@) =~= collect(all.take(0), reader));
    while i < entries.len()
        invariant
            i <= entries.len(),
            all == views(entries@),
            reader == device_reader(kind@, default_name@),
            views(out@) == collect(all.take(i as int), reader),
        decreases entries.len() - i,
    {
        let ghost before = out@;
        proof {
            lemma_collect_step(all, reader, i as int);
            assert(all[i as int] == entries@[i as int]@);
        }
        match read_device(&entries[i], kind, default_name) {
            Some(device) => {
                out.push(device);
                assert(views(out@) =~= views(before).push(device@));
            },
            None => {},
        }
        i += 1;
    }
    assert(all.take(i as int) =~= all);
    Ok(out)
}

/// The devices of one reply of the sound server.
pub fn parse_devices(json: &str, kind: &str, default_name: &str) -> (r: Result<
    Vec<AudioDevice>,
    String,
>)
    ensures
        devices_view(r) == devices_in(parsed_json(json@), kind@, default_name@),
{
    match crate::json::parse(json) {
        Some(j) => read_devices(Some(&j), kind, default_name),
        None => read_devices(None, kind, default_name),
    }
}

/// No monitor is ever offered as a microphone.
pub proof fn law_monitors_are_no_microphones(entry: JsonV, id: Seq<char>, default_name: Seq<char>)
    requires
        entry.at("name"@).text() == Some(id),
        is_monitor(entry, id),
    ensures
        device_in(entry, "input"@, default_name) is None,
{
}

/// Every device that is offered can be told from nothing: it has an id that the server gave, and a
/// name to show whenever that id is not empty.
pub proof fn law_devices_have_names(entry: JsonV, kind: Seq<char>, default_name: Seq<char>)
    requires
        device_in(entry, kind, default_name) is Some,
    ensures
        entry.at("name"@).text() == Some(device_in(entry, kind, default_name)->0.id),
        device_in(entry, kind, default_name)->0.id.len() > 0 ==> device_in(
            entry,
            kind,
            default_name,
        )->0.name.len() > 0,
{
}

/// A default device, by the name that it goes by.
pub open spec fn default_named(name: Option<Seq<char>>, kind: Seq<char>) -> Seq<AudioDeviceV> {
    match name {
        Some(n) => seq![
            AudioDeviceV { id: DEFAULT_ID@, name: n, kind, is_default: true },
        ],
        None => Seq::empty(),
    }
}

/// The devices to offer: the sound server's, else the host's own, else the two defaults.
pub open spec fn offered(
    server: Seq<AudioDeviceV>,
    host: Seq<AudioDeviceV>,
    default_input: Option<Seq<char>>,
    default_output: Option<Seq<char>>,
) -> Seq<AudioDeviceV> {
    if server.len() > 0 {
        server
    } else if host.len() > 0 {
        host
    } else {
        default_named(default_input, "input"@) + default_named(default_output, "output"@)
    }
}

pub fn list_devices(
    server: Vec<AudioDevice>,
    host: Vec<AudioDevice>,
    default_input: Option<&str>,
    default_output: Option<&str>,
) -> (r: Vec<AudioDevice>)
    ensures
        views(r@) == offered(
            views(server@),
            views(host@),
            maybe_str(default_input),
            maybe_str(default_output),
        ),
{
    assert(views(server@).len() == server@.len());
    assert(views(host@).len() == host@.len());
    if server.len() > 0 {
        return server;
    }
    if host.len() > 0 {
        return host;
    }
    let mut out: Vec<AudioDevice> = Vec::new();
    match default_input {
        Some(n) => {
            out.push(
                AudioDevice {
                    id: DEFAULT_ID.to_owned(),
                    name: n.to_owned(),
                    kind: "input".to_owned(),
                    is_default: true,
                },
            );
        },
        None => {},
    }
    assert(views(out@) =~= default_named(maybe_str(default_input), "input"@));
    let ghost before = views(out@);
    match default_output {
        Some(n) => {
            out.push(
                AudioDevice {
                    id: DEFAULT_ID.to_owned(),
                    name: n.to_owned(),
                    kind: "output".to_owned(),
                    is_default: true,
                },
            );
        },
        None => {},
    }
    assert(views(out@) =~= before + default_named(maybe_str(default_output), "output"@));
    out
}

/// The host's devices of one kind, whose names double as their ids.
pub open spec fn host_side(names: Seq<Seq<char>>, default: Option<Seq<char>>, kind: Seq<char>) -> Seq<
    AudioDeviceV,
> {
    Seq::new(
        names.len(),
        |i: int|
            AudioDeviceV {
                id: names[i],
                name: names[i],
                kind,
                is_default: default == Some(names[i]),
            },
    )
}

fn add_host_side(out: &mut Vec<AudioDevice>, names: &Vec<String>, default: Option<&str>, kind: &str)
    ensures
        views(final(out)@) == views(old(out)@) + host_side(
            texts(names@),
            maybe_str(default),
            kind@,
        ),
{
    let ghost start = views(out@);
    let ghost side = host_side(texts(names@), maybe_str(default), kind@);
    let mut i: usize = 0;
    assert(start + side.take(0) =~= start);
    while i < names.len()
        invariant
            i <= names.len(),
            side == host_side(texts(names@), maybe_str(default), kind@),
            side.len() == names.len(),
            views(out@) == start + side.take(i as int),
        decreases names.len() - i,
    {
        let name = names[i].as_str();
        let device = AudioDevice {
            id: name.to_owned(),
            name: name.to_owned(),
            kind: kind.to_owned(),
            is_default: is_text(default, name),
        };
        let ghost before = out@;
        assert(device@ == side[i as int]);
        out.push(device);
        proof {
            assert(views(out@) =~= views(before).push(device@));
            assert(side.take(i + 1) =~= side.take(i as int).push(side[i as int]));
        }
        i += 1;
    }
    assert(side.take(i as int) =~= side);
}

/// Everything that the audio host itself reports.
pub fn host_devices(
    inputs: &Vec<String>,
    outputs: &Vec<String>,
    default_input: Option<&str>,
    default_output: Option<&str>,
) -> (r: Vec<AudioDevice>)
    ensures
        views(r@) == host_side(texts(inputs@), maybe_str(default_input), "input"@) + host_side(
            texts(outputs@),
            maybe_str(default_output),
            "output"@,
        ),
{
    let mut out: Vec<AudioDevice> = Vec::new();
    assert(views(out@) =~= Seq::<AudioDeviceV>::empty());
    add_host_side(&mut out, inputs, default_input, "input");
    add_host_side(&mut out, outputs, default_output, "output");
    assert(views(out@) =~= host_side(texts(inputs@), maybe_str(default_input), "input"@)
        + host_side(texts(outputs@), maybe_str(default_output), "output"@));
    out
}

/// The first of the host's devices that goes by this name.
pub fn host_device_named(names: &Vec<String>, id: &str) -> (r: Option<usize>)
    ensures
        match r {
            Some(i) => i < names.len() && names@[i as int]@ == id@ && forall|j: int|
                0 <= j < i ==> (#[trigger] names@[j])@ != id@,
            None => forall|j: int| 0 <= j < names.len() ==> (#[trigger] names@[j])@ != id@,
        },
{
    let mut i: usize = 0;
    while i < names.len()
        invariant
            i <= names.len(),
            forall|j: int| 0 <= j < i ==> (#[trigger] names@[j])@ != id@,
        decreases names.len() - i,
    {
        if same(names[i].as_str(), id) {
            return Some(i);
        }
        i += 1;
    }
    None
}

/// The place of the host's device to open: the one that was chosen, where one was and is there; else
/// the default is opened.
pub fn chosen_device(names: &Vec<String>, id: Option<&str>) -> (r: Option<usize>)
    ensures
        match r {
            Some(i) => i < names.len() && id is Some && id->0@.len() > 0 && names@[i as int]@
                == id->0@ && forall|j: int| 0 <= j < i ==> (#[trigger] names@[j])@ != id->0@,
            None => match id {
                Some(want) => want@.len() == 0 || forall|j: int|
                    0 <= j < names.len() ==> (#[trigger] names@[j])@ != want@,
                None => true,
            },
        },
{
    match id {
        Some(want) => if want.is_empty() {
            None
        } else {
            host_device_named(names, want)
        },
        None => None,
    }
}

/// Which of this program's streams to move.
#[derive(Clone, Copy, Debug, PartialEq, Eq, Structural)]
pub enum Stream {
    Input,
    Output,
}

impl Stream {
    /// What the sound server lists it under.
    pub fn list(self) -> (r: &'static str)
        ensures
            r@ == (match self {
                Stream::Input => "source-outputs"@,
                Stream::Output => "sink-inputs"@,
            }),
    {
        match self {
            Stream::Input => "source-outputs",
            Stream::Output => "sink-inputs",
        }
    }

    /// What moves it.
    pub fn move_command(self) -> (r: &'static str)
        ensures
            r@ == (match self {
                Stream::Input => "move-source-output"@,
                Stream::Output => "move-sink-input"@,
            }),
    {
        match self {
            Stream::Input => "move-source-output",
            Stream::Output => "move-sink-input",
        }
    }

    /// How the node that it is starts.
    pub open spec fn prefix(self) -> Seq<char> {
        match self {
            Stream::Input => "alsa_capture"@,
            Stream::Output => "alsa_playback"@,
        }
    }

    pub fn node_prefix(self) -> (r: &'static str)
        ensures
            r@ == self.prefix(),
    {
        match self {
            Stream::Input => "alsa_capture",
            Stream::Output => "alsa_playback",
        }
    }

    /// What asks for the default device.
    pub fn default_query(self) -> (r: &'static str)
        ensures
            r@ == (match self {
                Stream::Input => "get-default-source"@,
                Stream::Output => "get-default-sink"@,
            }),
    {
        match self {
            Stream::Input => "get-default-source",
            Stream::Output => "get-default-sink",
        }
    }
}

/// What the sound server calls a stream of this program: after the file that it runs from.
pub fn stream_node_name(stream: Stream, binary: Option<&str>) -> (r: String)
    ensures
        r@ == stream.prefix() + "."@ + (match binary {
            Some(b) => b@,
            None => "nobilis"@,
        }),
{
    let binary = match binary {
        Some(b) => b,
        None => "nobilis",
    };
    stream.node_prefix().to_owned().concat(".").concat(binary)
}

/// The default device, from the sound server's answer.
pub fn default_device(answer: &str) -> (r: Result<String, String>)
    ensures
        match r {
            Ok(name) => name@ == trimmed(answer@) && name@.len() > 0,
            Err(e) => trimmed(answer@).len() == 0 && e@
                == "the sound server named no default device"@,
        },
{
    let name = trim(answer);
    if name.as_str().is_empty() {
        return Err("the sound server named no default device".to_owned());
    }
    Ok(name)
}

/// The number of a stream that is this program's own.
pub open spec fn own_stream(stream: JsonV, want: Seq<char>) -> Option<Seq<char>> {
    if stream.at("properties"@).at("node.name"@).text() == Some(want) {
        match stream.at("index"@).as_u64() {
            Some(i) => Some(decimal_text(i as nat)),
            None => None,
        }
    } else {
        None
    }
}

pub open spec fn own_stream_reader(want: Seq<char>) -> spec_fn(JsonV) -> Option<Seq<char>> {
    |s: JsonV| own_stream(s, want)
}

/// The numbers of this program's own streams, each of which is to be moved.
pub fn route_stream(streams: &Json, want: &str) -> (r: Vec<String>)
    ensures
        texts(r@) == collect(streams@.items(), own_stream_reader(want@)),
{
    let none: Vec<Json> = Vec::new();
    let list = crate::json::elements(streams, &none);
    let ghost all = streams@.items();
    let ghost reader = own_stream_reader(want@);
    let mut out: Vec<String> = Vec::new();
    let mut i: usize = 0;
    assert(texts(out@) =~= collect(all.take(0), reader));
    while i < list.len()
        invariant
            i <= list.len(),
            all == views(list@),
            reader == own_stream_reader(want@),
            texts(out@) == collect(all.take(i as int), reader),
        decreases list.len() - i,
    {
        let ghost before = out@;
        proof {
            lemma_collect_step(all, reader, i as int);
            assert(all[i as int] == list@[i as int]@);
        }
        let s = &list[i];
        if is_text(s.at("properties").at("node.name").text(), want) {
            match s.at("index").as_u64() {
                Some(n) => {
                    let index = decimal(n);
                    out.push(index);
                    assert(texts(out@) =~= texts(before).push(index@));
                },
                None => {},
            }
        }
        i += 1;
    }
    assert(all.take(i as int) =~= all);
    out
}

/// A stream to move: by which command, which one, and where to.
#[derive(Debug, PartialEq, Eq)]
pub struct Move {
    pub command: String,
    pub index: String,
    pub device: String,
}

pub struct MoveV {
    pub command: Seq<char>,
    pub index: Seq<char>,
    pub device: Seq<char>,
}

impl View for Move {
    type V = MoveV;

    open spec fn view(&self) -> MoveV {
        MoveV { command: self.command@, index: self.index@, device: self.device@ }
    }
}

/// The moves that point every stream of this program's, of one direction, at a device.
pub open spec fn moves(streams: JsonV, want: Seq<char>, command: Seq<char>, device: Seq<char>) -> Seq<
    MoveV,
> {
    let own_streams = collect(streams.items(), own_stream_reader(want));
    Seq::new(own_streams.len(), |i: int| MoveV { command, index: own_streams[i], device })
}

fn list_moves(streams: &Json, want: &str, command: &str, device: &str) -> (r: Vec<Move>)
    ensures
        views(r@) == moves(streams@, want@, command@, device@),
{
    let indices = route_stream(streams, want);
    let ghost numbers = texts(indices@);
    let mut out: Vec<Move> = Vec::new();
    let mut i: usize = 0;
    while i < indices.len()
        invariant
            i <= indices.len(),
            numbers == texts(indices@),
            out.len() == i,
            forall|j: int|
                0 <= j < i ==> (#[trigger] out@[j])@ == (MoveV {
                    command: command@,
                    index: numbers[j],
                    device: device@,
                }),
        decreases indices.len() - i,
    {
        out.push(
            Move {
                command: command.to_owned(),
                index: indices[i].clone(),
                device: device.to_owned(),
            },
        );
        i += 1;
    }
    assert(views(out@) =~= moves(streams@, want@, command@, device@));
    out
}

/// Where a stream is to go: the device that was chosen, and the one that the sound server names as
/// its default where none was. The default is a destination too: the server would otherwise put the
/// stream where it last was.
pub open spec fn device_wanted(device_id: Seq<char>, default_answer: Seq<char>) -> Result<
    Seq<char>,
    Seq<char>,
> {
    if device_id.len() > 0 {
        Ok(device_id)
    } else if trimmed(default_answer).len() > 0 {
        Ok(trimmed(default_answer))
    } else {
        Err("the sound server named no default device"@)
    }
}

pub fn wanted_device(device_id: &str, default_answer: &str) -> (r: Result<String, String>)
    ensures
        match (device_wanted(device_id@, default_answer@), r) {
            (Ok(device), Ok(d)) => d@ == device,
            (Err(words), Err(e)) => e@ == words,
            _ => false,
        },
{
    if device_id.is_empty() {
        default_device(default_answer)
    } else {
        Ok(device_id.to_owned())
    }
}

/// How a stream is pointed at a device: the moves to make, given what the sound server names as its
/// default and lists as its streams. Where it names none, or its list cannot be read, none is made.
pub open spec fn routed(
    command: Seq<char>,
    device_id: Seq<char>,
    default_answer: Seq<char>,
    listing: Seq<char>,
    node_name: Seq<char>,
) -> Result<Seq<MoveV>, Seq<char>> {
    match device_wanted(device_id, default_answer) {
        Ok(device) => match parsed_json(listing) {
            Some(streams) => Ok(moves(streams, node_name, command, device)),
            None => Err("parsing pactl output"@),
        },
        Err(words) => Err(words),
    }
}

/// The moves to make, and whether there are any, by what they are.
pub open spec fn route_view(r: Result<(Vec<Move>, bool), String>) -> Result<
    (Seq<MoveV>, bool),
    Seq<char>,
> {
    match r {
        Ok((list, any)) => Ok((views(list@), any)),
        Err(e) => Err(e@),
    }
}

/// With whether there is anything to move.
pub open spec fn with_any(r: Result<Seq<MoveV>, Seq<char>>) -> Result<(Seq<MoveV>, bool), Seq<char>> {
    match r {
        Ok(list) => Ok((list, list.len() > 0)),
        Err(e) => Err(e),
    }
}

fn route(command: &str, device_id: &str, default_answer: &str, listing: &str, node_name: &str) -> (r:
    Result<(Vec<Move>, bool), String>)
    ensures
        route_view(r) == with_any(
            routed(command@, device_id@, default_answer@, listing@, node_name@),
        ),
{
    let device = match wanted_device(device_id, default_answer) {
        Ok(d) => d,
        Err(e) => {
            return Err(e);
        },
    };
    match parse(listing) {
        Some(streams) => {
            let list = list_moves(&streams, node_name, command, device.as_str());
            let any = list.len() > 0;
            assert(views(list@).len() == list@.len());
            Ok((list, any))
        },
        None => Err("parsing pactl output".to_owned()),
    }
}

/// Points this program's capture at a device, or at the default where none is named: the moves to
/// make, and whether there is anything to move.
pub fn route_input(device_id: &str, default_answer: &str, listing: &str, node_name: &str) -> (r: Result<
    (Vec<Move>, bool),
    String,
>)
    ensures
        route_view(r) == with_any(
            routed("move-source-output"@, device_id@, default_answer@, listing@, node_name@),
        ),
{
    route(Stream::Input.move_command(), device_id, default_answer, listing, node_name)
}

/// Points this program's playback at a device, or at the default where none is named.
pub fn route_output(device_id: &str, default_answer: &str, listing: &str, node_name: &str) -> (r:
    Result<(Vec<Move>, bool), String>)
    ensures
        route_view(r) == with_any(
            routed("move-sink-input"@, device_id@, default_answer@, listing@, node_name@),
        ),
{
    route(Stream::Output.move_command(), device_id, default_answer, listing, node_name)
}

/// How often a stream that just opened is looked for.
pub const ROUTE_TRIES: u32 = 40;

/// What to do after trying to move a stream.
#[derive(Debug, PartialEq, Eq)]
pub enum RouteStep {
    /// It was moved.
    Routed,
    /// It is not there yet.
    Wait,
    /// It will not come: the words for why.
    Failed(String),
}

/// A stream that just opened, and how often it was looked for.
pub struct Routing {
    pub tries: u32,
}

impl Routing {
    pub fn new() -> (r: Routing)
        ensures
            r.tries == 0,
    {
        Routing { tries: 0 }
    }

    /// Decides what to do after trying to move the stream: it takes a moment to appear, but only
    /// so many.
    pub fn route_when_ready(&mut self, outcome: Result<bool, String>) -> (r: RouteStep)
        requires
            old(self).tries < ROUTE_TRIES,
        ensures
            final(self).tries == old(self).tries + 1,
            match r {
                RouteStep::Routed => outcome matches Ok(true),
                RouteStep::Wait => !(outcome matches Ok(true)) && old(self).tries + 1
                    < ROUTE_TRIES,
                RouteStep::Failed(e) => {
                    &&& old(self).tries + 1 >= ROUTE_TRIES
                    &&& match outcome {
                        Ok(moved) => !moved && e@
                            == "the stream never appeared to the sound server"@,
                        Err(words) => e@ == words@,
                    }
                },
            },
    {
        self.tries = self.tries + 1;
        match outcome {
            Ok(true) => RouteStep::Routed,
            Ok(false) => if self.tries < ROUTE_TRIES {
                RouteStep::Wait
            } else {
                RouteStep::Failed("the stream never appeared to the sound server".to_owned())
            },
            Err(e) => if self.tries < ROUTE_TRIES {
                RouteStep::Wait
            } else {
                RouteStep::Failed(e)
            },
        }
    }
}

/// A text as it is quoted in messages.
pub uninterp spec fn quoted(text: Seq<char>) -> Seq<char>;

/// `format!` with `{:?}`: a text in quotation marks, with what cannot be shown escaped. What is
/// escaped how is left to the standard library.
#[verifier::external_body]
pub(crate) fn quote(text: &str) -> (r: String)
    ensures
        r@ == quoted(text@),
{
    format!("{text:?}")
}

/// Whether a capture may go on, given how routing it went. Only a device that was chosen can be
/// betrayed: one that could not be reached is an error, while the default is wherever the sound
/// server put it.
pub open spec fn capture_outcome(want: Seq<char>, failed: Option<Seq<char>>) -> Result<(), Seq<char>> {
    match failed {
        Some(e) => if want.len() > 0 {
            Err("routing input to "@ + quoted(want) + ": "@ + e)
        } else {
            Ok(())
        },
        None => Ok(()),
    }
}

/// Decides whether a capture that was opened may go on.
pub fn start_capture(device_id: Option<&str>, failed: Option<&str>) -> (r: Result<(), String>)
    ensures
        crate::backend::discord::http::unit_view(r) == capture_outcome(
            match device_id {
                Some(d) => d@,
                None => Seq::empty(),
            },
            maybe_str(failed),
        ),
{
    let want = match device_id {
        Some(d) => d,
        None => "",
    };
    proof {
        reveal_strlit("");
        assert(""@ =~= Seq::<char>::empty());
    }
    match failed {
        Some(e) => if want.is_empty() {
            Ok(())
        } else {
            let mut words = "routing input to ".to_owned();
            words.append(quote(want).as_str());
            words.append(": ");
            words.append(e);
            Err(words)
        },
        None => Ok(()),
    }
}

/// How many frames come in with so many samples of so many channels.
pub open spec fn frames_in(samples: int, channels: u16) -> int {
    samples / (if channels == 0 {
        1
    } else {
        channels as int
    })
}

/// How many frames go out for so many that come in at a rate.
pub open spec fn frames_out(frames: int, rate: u32) -> int {
    frames * TARGET_RATE / (if rate == 0 {
        1
    } else {
        rate as int
    })
}

/// The sample at a place, or another where there is none.
pub open spec fn sample_at<T>(samples: Seq<T>, i: int, other: T) -> T {
    if 0 <= i < samples.len() {
        samples[i]
    } else {
        other
    }
}

/// Where the frame comes from that goes out as number `i`: the nearest one before it.
pub open spec fn source_place(i: int, rate: u32, channels: u16) -> int {
    (i * rate / (TARGET_RATE as int)) * channels
}

/// The sample that goes out at place `k`: left and right in turn. A single channel goes out on
/// both.
pub open spec fn converted_at<T>(samples: Seq<T>, rate: u32, channels: u16, silence: T, k: int) -> T {
    let base = source_place(k / 2, rate, channels);
    let left = sample_at(samples, base, silence);
    if k % 2 == 0 || channels <= 1 {
        left
    } else {
        sample_at(samples, base + 1, left)
    }
}

/// Captured samples at the rate and with the channels that voice is sent with.
pub open spec fn converted<T>(samples: Seq<T>, rate: u32, channels: u16, silence: T) -> Seq<T> {
    Seq::new(
        (frames_out(frames_in(samples.len() as int, channels), rate) * 2) as nat,
        |k: int| converted_at(samples, rate, channels, silence, k),
    )
}

proof fn lemma_source_place(i: int, frames: int, len: int, rate: u32, channels: u16)
    requires
        0 <= i < frames_out(frames, rate),
        frames == frames_in(len, channels),
        0 <= len,
    ensures
        0 <= i * rate <= frames * TARGET_RATE,
        0 <= source_place(i, rate, channels) <= len,
        source_place(i, rate, channels) == (i * rate / (TARGET_RATE as int)) * channels,
{
    let r = if rate == 0 {
        1int
    } else {
        rate as int
    };
    let c = if channels == 0 {
        1int
    } else {
        channels as int
    };
    let total = frames * TARGET_RATE;
    assert(frames >= 0) by (nonlinear_arith)
        requires
            frames == len / c,
            len >= 0,
            c >= 1,
    ;
    assert(total >= 0);
    assert((total / r) * r <= total) by (nonlinear_arith)
        requires
            r >= 1,
            total >= 0,
    ;
    assert(0 <= i * rate <= total) by (nonlinear_arith)
        requires
            0 <= i < total / r,
            (total / r) * r <= total,
            0 <= rate <= r,
    ;
    let src = i * rate / (TARGET_RATE as int);
    assert(0 <= src <= frames) by (nonlinear_arith)
        requires
            src == i * rate / 48_000,
            0 <= i * rate <= frames * 48_000,
    ;
    assert(0 <= src * channels <= len) by (nonlinear_arith)
        requires
            0 <= src <= frames,
            frames == len / c,
            c >= 1,
            0 <= channels <= c,
            len >= 0,
    ;
}

/// Converts captured samples: the nearest frame for each that goes out.
pub fn convert<T: Copy>(samples: &[T], rate: u32, channels: u16, silence: T) -> (r: Vec<T>)
    requires
        samples@.len() * TARGET_RATE <= u64::MAX,
        frames_out(frames_in(samples@.len() as int, channels), rate) * 2 <= usize::MAX,
    ensures
        r@ == converted(samples@, rate, channels, silence),
{
    let per_frame: usize = if channels == 0 {
        1
    } else {
        channels as usize
    };
    let divisor: u64 = if rate == 0 {
        1
    } else {
        rate as u64
    };
    let len: usize = samples.len();
    let frames: usize = len / per_frame;
    assert(frames * TARGET_RATE <= len * TARGET_RATE) by (nonlinear_arith)
        requires
            0 <= frames <= len,
    ;
    let wide: u64 = frames as u64 * TARGET_RATE as u64 / divisor;
    let out_frames: usize = wide as usize;
    let mut out: Vec<T> = Vec::new();
    let mut i: usize = 0;
    while i < out_frames
        invariant
            len == samples@.len(),
            len * TARGET_RATE <= u64::MAX,
            frames == frames_in(len as int, channels),
            frames <= len,
            frames * TARGET_RATE <= u64::MAX,
            out_frames == frames_out(frames as int, rate),
            out_frames * 2 <= usize::MAX,
            i <= out_frames,
            out@.len() == 2 * i,
            forall|k: int|
                0 <= k < 2 * i ==> #[trigger] out@[k] == converted_at(
                    samples@,
                    rate,
                    channels,
                    silence,
                    k,
                ),
        decreases out_frames - i,
    {
        proof {
            lemma_source_place(i as int, frames as int, len as int, rate, channels);
        }
        let src: u64 = i as u64 * rate as u64 / TARGET_RATE as u64;
        let base: usize = (src * channels as u64) as usize;
        assert(base == source_place(i as int, rate, channels));
        let left = if base < len {
            samples[base]
        } else {
            silence
        };
        let right = if channels > 1 {
            if base < len && base + 1 < len {
                samples[base + 1]
            } else {
                left
            }
        } else {
            left
        };
        out.push(left);
        out.push(right);
        assert((2 * i) / 2 == i && (2 * i + 1) / 2 == i);
        i += 1;
    }
    assert(out@ =~= converted(samples@, rate, channels, silence));
    out
}

/// A microphone that is open, or closed for now. It goes on running while it is closed.
pub struct Capture {
    pub active: bool,
}

impl Capture {
    pub fn new() -> (r: Capture)
        ensures
            !r.muted(),
    {
        Capture { active: true }
    }

    pub open spec fn muted(&self) -> bool {
        !self.active
    }

    /// Closes or opens the microphone.
    pub fn set_muted(&mut self, muted: bool)
        ensures
            final(self).muted() == muted,
    {
        self.active = !muted;
    }

    pub fn is_muted(&self) -> (r: bool)
        ensures
            r == self.muted(),
    {
        !self.active
    }

    /// What is handed on of captured samples: nothing while the microphone is closed.
    pub fn take<T: Copy>(&self, samples: &[T], rate: u32, channels: u16, silence: T) -> (r: Option<
        Vec<T>,
    >)
        requires
            samples@.len() * TARGET_RATE <= u64::MAX,
            frames_out(frames_in(samples@.len() as int, channels), rate) * 2 <= usize::MAX,
        ensures
            match r {
                Some(out) => !self.muted() && out@ == converted(samples@, rate, channels, silence),
                None => self.muted(),
            },
    {
        if self.active {
            Some(convert(samples, rate, channels, silence))
        } else {
            None
        }
    }
}

/// Whether the speakers are silenced: all of them, whatever calls there are.
pub struct Speakers {
    pub muted: bool,
}

pub fn set_playback_muted(speakers: &mut Speakers, muted: bool)
    ensures
        final(speakers).muted == muted,
{
    speakers.muted = muted;
}

pub fn playback_muted(speakers: &Speakers) -> (r: bool)
    ensures
        r == speakers.muted,
{
    speakers.muted
}

/// How many samples wait for the speakers at most: half a second.
pub const MAX_SAMPLES: usize = 48_000;

/// The end of a queue, at most so long.
pub open spec fn newest<T>(queue: Seq<T>, most: nat) -> Seq<T> {
    if queue.len() > most {
        queue.skip(queue.len() - most)
    } else {
        queue
    }
}

/// How loud a sample is.
pub open spec fn loudness(sample: i16) -> int {
    if sample == i16::MIN {
        i16::MAX as int
    } else if sample < 0 {
        -(sample as int)
    } else {
        sample as int
    }
}

/// The loudest of some samples.
pub open spec fn loudest(pcm: Seq<i16>) -> int
    decreases pcm.len(),
{
    if pcm.len() == 0 {
        0
    } else {
        let before = loudest(pcm.drop_last());
        let last = loudness(pcm.last());
        if last > before {
            last
        } else {
            before
        }
    }
}

/// Keeps the end of a queue with more behind it.
fn queue_up<T: Copy>(queue: &Vec<T>, more: &[T], most: usize) -> (r: Vec<T>)
    ensures
        r@ == newest(queue@ + more@, most as nat),
{
    let mut out: Vec<T> = Vec::new();
    let ghost whole = queue@ + more@;
    let from: usize = if more.len() >= most {
        queue.len()
    } else {
        let room: usize = most - more.len();
        if queue.len() > room {
            queue.len() - room
        } else {
            0
        }
    };
    let skip: usize = if more.len() > most {
        more.len() - most
    } else {
        0
    };
    let ghost start = from + skip;
    let mut i: usize = from;
    while i < queue.len()
        invariant
            from <= i <= queue.len(),
            out@ == queue@.subrange(from as int, i as int),
        decreases queue.len() - i,
    {
        out.push(queue[i]);
        assert(queue@.subrange(from as int, i + 1) =~= queue@.subrange(from as int, i as int).push(
            queue@[i as int],
        ));
        i += 1;
    }
    let ghost kept = out@;
    let mut j: usize = skip;
    assert(kept + more@.subrange(skip as int, skip as int) =~= kept);
    while j < more.len()
        invariant
            skip <= j <= more@.len(),
            out@ == kept + more@.subrange(skip as int, j as int),
        decreases more@.len() - j,
    {
        out.push(more[j]);
        assert(more@.subrange(skip as int, j + 1) =~= more@.subrange(skip as int, j as int).push(
            more@[j as int],
        ));
        j += 1;
    }
    assert(out@ =~= newest(whole, most as nat));
    out
}

/// Sound on its way to the speakers: what waits, the loudest sample since anybody asked, and how
/// many have come in all.
pub struct Playback {
    buffer: Vec<i16>,
    peak: i16,
    received: u64,
}

pub struct PlaybackV {
    pub queue: Seq<i16>,
    pub peak: int,
    pub received: u64,
}

impl View for Playback {
    type V = PlaybackV;

    closed spec fn view(&self) -> PlaybackV {
        PlaybackV { queue: self.buffer@, peak: self.peak as int, received: self.received }
    }
}

/// The larger of two numbers.
pub open spec fn larger(a: int, b: int) -> int {
    if a > b {
        a
    } else {
        b
    }
}

/// The sample for one channel of a frame that goes out, from what waits. A channel beyond the
/// second repeats it.
pub open spec fn played_at(queue: Seq<i16>, rate: u32, channels: u16, k: int) -> i16 {
    let frame = k / (channels as int);
    let channel = k % (channels as int);
    let source = frame * TARGET_RATE / (if rate == 0 {
        1
    } else {
        rate as int
    });
    sample_at(queue, source * 2 + (if channel > 1 {
        1
    } else {
        channel
    }), 0)
}

/// The samples that go out for so many frames.
pub open spec fn played(queue: Seq<i16>, frames: nat, rate: u32, channels: u16) -> Seq<i16> {
    Seq::new(frames * channels as nat, |k: int| played_at(queue, rate, channels, k))
}

/// How many samples so many frames use up.
pub open spec fn used_up(frames: nat, rate: u32) -> int {
    (frames * TARGET_RATE / (if rate == 0 {
        1
    } else {
        rate as int
    })) * 2
}

impl Playback {
    pub fn new() -> (r: Playback)
        ensures
            r@ == (PlaybackV { queue: Seq::empty(), peak: 0, received: 0 }),
    {
        let r = Playback { buffer: Vec::new(), peak: 0, received: 0 };
        assert(r@.queue =~= Seq::empty());
        r
    }

    /// Queues decoded audio. While the speakers are silenced it is dropped, so that nothing old is
    /// played once they are not; and what a stalled device leaves behind is dropped too.
    pub fn push(&mut self, speakers: &Speakers, pcm: &[i16])
        ensures
            final(self)@ == (if speakers.muted {
                old(self)@
            } else {
                PlaybackV {
                    queue: newest(old(self)@.queue + pcm@, MAX_SAMPLES as nat),
                    peak: larger(old(self)@.peak, loudest(pcm@)),
                    received: ((old(self)@.received + pcm@.len()) % (u64::MAX + 1)) as u64,
                }
            }),
    {
        if speakers.muted {
            return;
        }
        let mut peak: i16 = 0;
        let mut i: usize = 0;
        assert(pcm@.take(0) =~= Seq::<i16>::empty());
        while i < pcm.len()
            invariant
                i <= pcm@.len(),
                peak == loudest(pcm@.take(i as int)),
                peak >= 0,
            decreases pcm@.len() - i,
        {
            let s: i16 = pcm[i];
            let loud: i16 = if s == i16::MIN {
                i16::MAX
            } else if s < 0 {
                -s
            } else {
                s
            };
            proof {
                assert(pcm@.take(i + 1).drop_last() =~= pcm@.take(i as int));
                assert(pcm@.take(i + 1).last() == s);
            }
            if loud > peak {
                peak = loud;
            }
            i += 1;
        }
        assert(pcm@.take(i as int) =~= pcm@);
        if peak > self.peak {
            self.peak = peak;
        }
        self.received = self.received.wrapping_add(pcm.len() as u64);
        let queue = queue_up(&self.buffer, pcm, MAX_SAMPLES);
        self.buffer = queue;
    }

    /// How much audio waits, in samples.
    pub fn queued(&self) -> (r: usize)
        ensures
            r == self@.queue.len(),
    {
        self.buffer.len()
    }

    /// The loudest sample since this was last asked, and how many samples have come in all.
    pub fn take_level(&mut self) -> (r: (i16, u64))
        ensures
            r.0 == old(self)@.peak,
            r.1 == old(self)@.received,
            final(self)@ == (PlaybackV { peak: 0, ..old(self)@ }),
    {
        let seen: i16 = self.peak;
        self.peak = 0;
        (seen, self.received)
    }

    /// Takes what goes out for so many frames of so many channels at a rate.
    pub fn start_playback(&mut self, frames: usize, rate: u32, channels: u16) -> (r: Vec<i16>)
        requires
            frames * TARGET_RATE * 2 <= u64::MAX,
            frames * channels <= usize::MAX,
        ensures
            r@ == played(old(self)@.queue, frames as nat, rate, channels),
            final(self)@ == (PlaybackV {
                queue: old(self)@.queue.skip(
                    if used_up(frames as nat, rate) < old(self)@.queue.len() {
                        used_up(frames as nat, rate)
                    } else {
                        old(self)@.queue.len() as int
                    },
                ),
                ..old(self)@
            }),
    {
        let ghost queue = self.buffer@;
        let divisor: u64 = if rate == 0 {
            1
        } else {
            rate as u64
        };
        let total: usize = frames * channels as usize;
        let per_frame: usize = channels as usize;
        let waiting: usize = self.buffer.len();
        let mut out: Vec<i16> = Vec::new();
        let mut frame: usize = 0;
        while frame < frames
            invariant
                queue == self.buffer@,
                waiting == queue.len(),
                frame <= frames,
                frames * TARGET_RATE * 2 <= u64::MAX,
                frames * channels <= usize::MAX,
                per_frame == channels,
                divisor == (if rate == 0 {
                    1int
                } else {
                    rate as int
                }),
                out@.len() == frame * channels,
                forall|k: int|
                    0 <= k < frame * channels ==> #[trigger] out@[k] == played_at(
                        queue,
                        rate,
                        channels,
                        k,
                    ),
            decreases frames - frame,
        {
            assert(frame * TARGET_RATE <= frames * TARGET_RATE) by (nonlinear_arith)
                requires
                    frame <= frames,
            ;
            let source: u64 = frame as u64 * TARGET_RATE as u64 / divisor;
            assert(source <= frame * TARGET_RATE) by (nonlinear_arith)
                requires
                    source == frame * TARGET_RATE / divisor as int,
                    divisor >= 1,
            ;
            let base: u64 = source * 2;
            let mut ch: usize = 0;
            assert(frame * channels + channels <= frames * channels) by (nonlinear_arith)
                requires
                    frame < frames,
            ;
            while ch < per_frame
                invariant
                    queue == self.buffer@,
                    waiting == queue.len(),
                    per_frame == channels,
                    ch <= per_frame,
                    base == source * 2,
                    base <= u64::MAX - 1,
                    divisor == (if rate == 0 {
                        1int
                    } else {
                        rate as int
                    }),
                    source == frame * TARGET_RATE / divisor as int,
                    out@.len() == frame * channels + ch,
                    forall|k: int|
                        0 <= k < frame * channels + ch ==> #[trigger] out@[k] == played_at(
                            queue,
                            rate,
                            channels,
                            k,
                        ),
                decreases per_frame - ch,
            {
                let side: u64 = if ch > 1 {
                    1
                } else {
                    ch as u64
                };
                let place: u64 = base + side;
                let sample: i16 = if place < waiting as u64 {
                    self.buffer[place as usize]
                } else {
                    0
                };
                proof {
                    let k = frame * channels + ch;
                    assert(k / (channels as int) == frame && k % (channels as int) == ch)
                        by (nonlinear_arith)
                        requires
                            k == frame * channels + ch,
                            0 <= ch < channels,
                    ;
                    assert(sample == played_at(queue, rate, channels, k));
                }
                out.push(sample);
                ch += 1;
            }
            assert((frame + 1) * channels == frame * channels + channels) by (nonlinear_arith);
            frame += 1;
        }
        assert(frames as nat * channels as nat == frame * channels);
        assert(out@ =~= played(queue, frames as nat, rate, channels));
        assert(frames * TARGET_RATE <= u64::MAX);
        let pairs: u64 = frames as u64 * TARGET_RATE as u64 / divisor;
        assert(pairs <= frames * TARGET_RATE) by (nonlinear_arith)
            requires
                pairs == frames * TARGET_RATE / divisor as int,
                divisor >= 1,
        ;
        let consumed: u64 = pairs * 2;
        let gone: usize = if consumed < waiting as u64 {
            consumed as usize
        } else {
            waiting
        };
        let mut rest: Vec<i16> = Vec::new();
        let mut i: usize = gone;
        assert(queue.subrange(gone as int, gone as int) =~= Seq::<i16>::empty());
        while i < waiting
            invariant
                queue == self.buffer@,
                waiting == queue.len(),
                gone <= i <= waiting,
                rest@ == queue.subrange(gone as int, i as int),
            decreases waiting - i,
        {
            rest.push(self.buffer[i]);
            assert(queue.subrange(gone as int, i + 1) =~= queue.subrange(
                gone as int,
                i as int,
            ).push(queue[i as int]));
            i += 1;
        }
        assert(rest@ =~= queue.skip(gone as int));
        self.buffer = rest;
        out
    }
}

/// What is captured as voice is sent already goes out as it came.
pub proof fn law_native_sound_is_unchanged<T>(samples: Seq<T>, silence: T)
    requires
        samples.len() % 2 == 0,
    ensures
        converted(samples, TARGET_RATE, TARGET_CHANNELS, silence) == samples,
{
    let out = converted(samples, TARGET_RATE, TARGET_CHANNELS, silence);
    assert(out.len() == samples.len());
    assert forall|k: int| 0 <= k < samples.len() implies #[trigger] out[k] == samples[k] by {
        assert(source_place(k / 2, TARGET_RATE, TARGET_CHANNELS) == (k / 2) * 2);
    }
    assert(out =~= samples);
}

/// Speakers that take sound as it arrives play what waits, in order, and nothing of it twice.
pub proof fn law_native_speakers_play_the_queue(queue: Seq<i16>, frames: nat)
    requires
        frames * 2 <= queue.len(),
    ensures
        played(queue, frames, TARGET_RATE, TARGET_CHANNELS) == queue.take(frames as int * 2),
        used_up(frames, TARGET_RATE) == frames * 2,
{
    let out = played(queue, frames, TARGET_RATE, TARGET_CHANNELS);
    assert forall|k: int| 0 <= k < frames * 2 implies #[trigger] out[k] == queue[k] by {
        assert((k / 2) * TARGET_RATE / (TARGET_RATE as int) == k / 2);
    }
    assert(out =~= queue.take(frames as int * 2));
}

/// What waits for the speakers never grows beyond half a second, whatever is pushed.
pub proof fn law_playback_is_bounded(queue: Seq<i16>, pcm: Seq<i16>)
    ensures
        newest(queue + pcm, MAX_SAMPLES as nat).len() <= MAX_SAMPLES,
{
}

/// How many bytes of a microphone are kept at most: one second.
pub const MAX_BYTES: usize = 384_000;

/// How many bytes of silence are handed out at most.
pub const SILENCE_BYTES: usize = 7_680;

/// How often a quiet microphone is asked before silence is handed out.
pub const READ_TRIES: u32 = 20;

/// What reading a microphone comes to.
#[derive(Debug, PartialEq, Eq)]
pub enum MicRead {
    /// The microphone is gone.
    Over,
    /// Bytes that were captured, or silence.
    Bytes(Vec<u8>),
    /// Nothing was said yet: ask again in a moment.
    Wait,
}

/// A live microphone: what was captured and not read yet, and whether it is still there.
pub struct MicSource {
    buffer: Vec<u8>,
    open: bool,
}

pub struct MicSourceV {
    pub queue: Seq<u8>,
    pub open: bool,
}

impl View for MicSource {
    type V = MicSourceV;

    closed spec fn view(&self) -> MicSourceV {
        MicSourceV { queue: self.buffer@, open: self.open }
    }
}

/// So much silence.
pub open spec fn silence_of(len: nat) -> Seq<u8> {
    Seq::new(
        if len < SILENCE_BYTES {
            len
        } else {
            SILENCE_BYTES as nat
        },
        |i: int| 0u8,
    )
}

impl MicSource {
    pub fn new() -> (r: MicSource)
        ensures
            r@ == (MicSourceV { queue: Seq::empty(), open: true }),
    {
        let r = MicSource { buffer: Vec::new(), open: true };
        assert(r@.queue =~= Seq::empty());
        r
    }

    /// Takes in captured bytes. What a stalled reader leaves behind is dropped, the oldest first.
    pub fn push(&mut self, bytes: &[u8])
        ensures
            final(self)@ == (MicSourceV {
                queue: newest(old(self)@.queue + bytes@, MAX_BYTES as nat),
                ..old(self)@
            }),
    {
        let queue = queue_up(&self.buffer, bytes, MAX_BYTES);
        self.buffer = queue;
    }

    /// The microphone is gone.
    pub fn close(&mut self)
        ensures
            final(self)@ == (MicSourceV { open: false, ..old(self)@ }),
    {
        self.open = false;
    }

    /// How many bytes wait to be read.
    pub fn buffered(&self) -> (r: usize)
        ensures
            r == self@.queue.len(),
    {
        self.buffer.len()
    }

    /// Reads at most `len` bytes, having waited `tries` times. A microphone that stays quiet is not
    /// over: it reads as silence.
    pub fn read(&mut self, len: usize, tries: u32) -> (r: MicRead)
        ensures
            ({
                let before = old(self)@;
                let n = if len < before.queue.len() {
                    len as int
                } else {
                    before.queue.len() as int
                };
                if tries >= READ_TRIES {
                    (r matches MicRead::Bytes(b) && b@ == silence_of(len as nat)) && final(self)@
                        == before
                } else if !before.open {
                    r is Over && final(self)@ == before
                } else if before.queue.len() > 0 {
                    (r matches MicRead::Bytes(b) && b@ == before.queue.take(n)) && final(self)@ == (
                    MicSourceV { queue: before.queue.skip(n), ..before })
                } else {
                    r is Wait && final(self)@ == before
                }
            }),
    {
        if tries >= READ_TRIES {
            let n: usize = if len < SILENCE_BYTES {
                len
            } else {
                SILENCE_BYTES
            };
            let mut quiet: Vec<u8> = Vec::new();
            let mut i: usize = 0;
            while i < n
                invariant
                    i <= n,
                    quiet.len() == i,
                    forall|j: int| 0 <= j < i ==> quiet@[j] == 0,
                decreases n - i,
            {
                quiet.push(0);
                i += 1;
            }
            assert(quiet@ =~= silence_of(len as nat));
            return MicRead::Bytes(quiet);
        }
        if !self.open {
            return MicRead::Over;
        }
        if self.buffer.len() == 0 {
            return MicRead::Wait;
        }
        let ghost queue = self.buffer@;
        let n: usize = if len < self.buffer.len() {
            len
        } else {
            self.buffer.len()
        };
        let mut head: Vec<u8> = Vec::new();
        let mut rest: Vec<u8> = Vec::new();
        let mut i: usize = 0;
        while i < self.buffer.len()
            invariant
                queue == self.buffer@,
                n <= queue.len(),
                i <= queue.len(),
                head@ == queue.take(
                    if i < n {
                        i as int
                    } else {
                        n as int
                    },
                ),
                rest@ == (if i < n {
                    Seq::<u8>::empty()
                } else {
                    queue.subrange(n as int, i as int)
                }),
            decreases queue.len() - i,
        {
            let byte: u8 = self.buffer[i];
            if i < n {
                head.push(byte);
                assert(queue.take(i + 1) =~= queue.take(i as int).push(byte));
                assert(queue.subrange(n as int, n as int) =~= Seq::<u8>::empty());
            } else {
                rest.push(byte);
                assert(queue.subrange(n as int, i + 1) =~= queue.subrange(
                    n as int,
                    i as int,
                ).push(byte));
            }
            i += 1;
        }
        assert(head@ =~= queue.take(n as int));
        assert(rest@ =~= queue.skip(n as int));
        self.buffer = rest;
        MicRead::Bytes(head)
    }
}

/// What was captured is read in the order in which it came, and none of it twice.
pub proof fn law_reading_splits_the_queue(queue: Seq<u8>, n: int)
    requires
        0 <= n <= queue.len(),
    ensures
        queue.take(n) + queue.skip(n) == queue,
{
    assert(queue.take(n) + queue.skip(n) =~= queue);
}

/// A microphone whose reader stalls keeps one second at most, and that the newest.
pub proof fn law_capture_is_bounded(queue: Seq<u8>, bytes: Seq<u8>)
    ensures
        newest(queue + bytes, MAX_BYTES as nat).len() <= MAX_BYTES,
        (queue + bytes).len() <= MAX_BYTES ==> newest(queue + bytes, MAX_BYTES as nat) == queue
            + bytes,
{
}

/// Silence is never empty where something was asked for, so that it is not taken for an end.
pub proof fn law_silence_is_not_the_end(len: nat)
    requires
        len > 0,
    ensures
        silence_of(len).len() > 0,
{
}

/// A device is offered by its name, under its description where it has one, as the default where it is;
/// what only plays back an output is no input.
pub proof fn law_a_device_is_offered_as_it_is(
    entry: JsonV,
    kind: Seq<char>,
    default_name: Seq<char>,
)
    ensures
        ({
            let r = device_in(entry, kind, default_name);
            let id = entry.at("name"@);
            let words = entry.at("description"@).text_or_empty();
            let front = id.text_or_empty();
            let echoes = entry.at("monitor_of_sink_name"@) is Str || (front.len() >= 8 && front.skip(
                front.len() - 8,
            ) == ".monitor"@);
            &&& r is Some <==> id is Str && !(kind == "input"@ && echoes)
            &&& r is Some ==> {
                &&& id == JsonV::Str(r->0.id)
                &&& words.len() > 0 ==> r->0.name == words
                &&& words.len() == 0 ==> r->0.name == r->0.id
                &&& r->0.kind == kind
                &&& r->0.is_default == (id == JsonV::Str(default_name))
            }
        }),
{
    reveal_strlit(".monitor");
    assert(".monitor"@.len() == 8);
}

/// A list of devices is gone through whole; anything else is told as what it is.
pub proof fn law_only_a_list_has_devices(
    json: Option<JsonV>,
    kind: Seq<char>,
    default_name: Seq<char>,
)
    ensures
        ({
            let r = devices_in(json, kind, default_name);
            &&& r is Ok <==> json is Some && json->0 is List
            &&& r is Ok ==> r->Ok_0 == collect(
                json->0.items(),
                |e: JsonV| device_in(e, kind, default_name),
            )
            &&& json is None ==> r->Err_0 == "parsing pactl output"@
            &&& json is Some && r is Err ==> r->Err_0 == "pactl did not return a list"@
        }),
{
}

/// The sound server's devices are offered where it has any, the host's own where it has none, and the
/// two defaults, each where it is there, only where neither has.
pub proof fn law_the_sound_servers_devices_come_first(
    server: Seq<AudioDeviceV>,
    host: Seq<AudioDeviceV>,
    default_input: Option<Seq<char>>,
    default_output: Option<Seq<char>>,
)
    ensures
        ({
            let r = offered(server, host, default_input, default_output);
            &&& server.len() > 0 ==> r == server
            &&& server.len() == 0 && host.len() > 0 ==> r == host
            &&& server.len() == 0 && host.len() == 0 ==> {
                &&& r.len() == (if default_input is Some {
                    1int
                } else {
                    0
                }) + (if default_output is Some {
                    1int
                } else {
                    0
                })
                &&& default_input is Some ==> r[0].name == default_input->0 && r[0].kind == "input"@
                    && r[0].is_default
                &&& default_output is Some ==> r.last().name == default_output->0 && r.last().kind
                    == "output"@ && r.last().is_default
            }
        }),
{
}

/// Every device of the host is offered in its place, its name doubling as its id, and is the default
/// where it goes by the default's name.
pub proof fn law_the_hosts_devices_go_by_name(
    names: Seq<Seq<char>>,
    default: Option<Seq<char>>,
    kind: Seq<char>,
    i: int,
)
    requires
        0 <= i < names.len(),
    ensures
        ({
            let r = host_side(names, default, kind);
            &&& r.len() == names.len()
            &&& r[i].id == names[i] && r[i].name == names[i]
            &&& r[i].kind == kind
            &&& r[i].is_default == (default is Some && default->0 == names[i])
        }),
{
}

/// A stream is this program's own where its node goes by this program's name; it is known by its number.
pub proof fn law_a_stream_is_known_by_its_node(stream: JsonV, want: Seq<char>)
    ensures
        ({
            let r = own_stream(stream, want);
            let index = stream.at("index"@).as_u64();
            &&& r is Some <==> stream.at("properties"@).at("node.name"@) == JsonV::Str(want)
                && index is Some
            &&& r is Some ==> crate::text::natural_of(r->0) == Some(index->0 as nat)
        }),
{
    if stream.at("index"@).as_u64() is Some {
        crate::text::law_decimals_read_back(stream.at("index"@).as_u64()->0 as nat);
    }
}

/// Every stream of this program's is moved, and no other, all by one command and to one device.
pub proof fn law_every_own_stream_is_moved(
    streams: JsonV,
    want: Seq<char>,
    command: Seq<char>,
    device: Seq<char>,
    i: int,
)
    ensures
        ({
            let r = moves(streams, want, command, device);
            let own_streams = collect(streams.items(), |s: JsonV| own_stream(s, want));
            &&& r.len() == own_streams.len()
            &&& 0 <= i < r.len() ==> r[i].command == command && r[i].device == device && r[i].index
                == own_streams[i]
        }),
{
}

/// A stream goes to the device that was chosen, and to the default that the sound server names where none
/// was; where it names none either, or its list cannot be read, nothing is moved.
pub proof fn law_a_stream_goes_where_it_was_sent(
    command: Seq<char>,
    device_id: Seq<char>,
    default_answer: Seq<char>,
    listing: Seq<char>,
    node_name: Seq<char>,
)
    ensures
        ({
            let r = routed(command, device_id, default_answer, listing, node_name);
            let named = trimmed(default_answer);
            let read = parsed_json(listing);
            &&& r is Ok <==> (device_id.len() > 0 || named.len() > 0) && read is Some
            &&& device_id.len() > 0 && read is Some ==> r->Ok_0 == moves(
                read->0,
                node_name,
                command,
                device_id,
            )
            &&& device_id.len() == 0 && named.len() > 0 && read is Some ==> r->Ok_0 == moves(
                read->0,
                node_name,
                command,
                named,
            )
            &&& device_id.len() == 0 && named.len() == 0 ==> r->Err_0
                == "the sound server named no default device"@
            &&& with_any(r) matches Ok(found) ==> found.0 == r->Ok_0 && found.1 == (r->Ok_0.len() > 0)
            &&& r is Err ==> with_any(r) is Err
        }),
{
}

/// A capture goes on unless a device that was chosen could not be reached.
pub proof fn law_only_a_chosen_device_can_be_missed(want: Seq<char>, failed: Option<Seq<char>>)
    ensures
        capture_outcome(want, failed) is Err <==> failed is Some && want.len() > 0,
        capture_outcome(want, failed) is Err ==> capture_outcome(want, failed)->Err_0
            == "routing input to "@ + quoted(want) + ": "@ + failed->0,
{
}

/// As many frames come in as there are whole ones, and as many go out as last as long, rounded down.
pub proof fn law_sound_lasts_as_long_as_it_did(samples: int, channels: u16, rate: u32)
    requires
        samples >= 0,
        channels > 0,
        rate > 0,
    ensures
        ({
            let came = frames_in(samples, channels);
            let goes = frames_out(came, rate);
            &&& came * channels <= samples < (came + 1) * channels
            &&& goes * rate <= came * 48_000 < (goes + 1) * rate
        }),
{
    let c = channels as int;
    let came = samples / c;
    vstd::arithmetic::div_mod::lemma_fundamental_div_mod(samples, c);
    vstd::arithmetic::div_mod::lemma_mod_bound(samples, c);
    assert(c * came == came * c) by (nonlinear_arith);
    assert((came + 1) * c == came * c + c) by (nonlinear_arith);
    let r = rate as int;
    let x = came * 48_000;
    let goes = x / r;
    vstd::arithmetic::div_mod::lemma_fundamental_div_mod(x, r);
    vstd::arithmetic::div_mod::lemma_mod_bound(x, r);
    assert(r * goes == goes * r) by (nonlinear_arith);
    assert((goes + 1) * r == goes * r + r) by (nonlinear_arith);
}

/// Every frame that goes out is one that came in: the one that sounded at its moment, left and right
/// from their own channels, and from the one channel where there is but one.
pub proof fn law_every_frame_out_came_in<T>(
    samples: Seq<T>,
    rate: u32,
    channels: u16,
    silence: T,
    i: int,
)
    requires
        channels > 0,
        rate > 0,
        0 <= i,
        2 * i + 1 < converted(samples, rate, channels, silence).len(),
    ensures
        ({
            let out = converted(samples, rate, channels, silence);
            let from = (i * rate) / 48_000;
            &&& 0 <= from < frames_in(samples.len() as int, channels)
            &&& 0 <= from * channels < samples.len()
            &&& out[2 * i] == samples[from * channels]
            &&& channels == 1 ==> out[2 * i + 1] == out[2 * i]
            &&& channels > 1 ==> out[2 * i + 1] == samples[from * channels + 1]
        }),
{
    let came = frames_in(samples.len() as int, channels);
    let goes = frames_out(came, rate);
    law_sound_lasts_as_long_as_it_did(samples.len() as int, channels, rate);
    let r = rate as int;
    let c = channels as int;
    assert(goes >= 0) by {
        if goes < 0 {
            assert((goes + 1) * r <= 0) by (nonlinear_arith)
                requires
                    goes < 0,
                    r > 0,
            ;
        }
    }
    assert(i < goes);
    assert(0 <= i * r && i * r < came * 48_000) by (nonlinear_arith)
        requires
            0 <= i < goes,
            r > 0,
            goes * r <= came * 48_000,
    ;
    let from = (i * r) / 48_000;
    assert(0 <= from < came);
    assert(0 <= from * c && from * c + c <= came * c) by (nonlinear_arith)
        requires
            0 <= from < came,
            c > 0,
    ;
    let out = converted(samples, rate, channels, silence);
    assert((2 * i) / 2 == i && (2 * i) % 2 == 0);
    assert((2 * i + 1) / 2 == i && (2 * i + 1) % 2 == 1);
    assert(out[2 * i] == converted_at(samples, rate, channels, silence, 2 * i));
    assert(out[2 * i + 1] == converted_at(samples, rate, channels, silence, 2 * i + 1));
}

/// What is kept of a queue is its end, at most so much of it, and all of it where it is no longer.
pub proof fn law_the_newest_is_kept<T>(queue: Seq<T>, most: nat, i: int)
    ensures
        ({
            let kept = newest(queue, most);
            &&& queue.len() <= most ==> kept == queue
            &&& queue.len() > most ==> kept.len() == most
            &&& 0 <= i < kept.len() ==> kept[i] == queue[queue.len() - kept.len() + i]
        }),
{
}

/// The loudest of some samples is as loud as one of them and no less loud than any; how loud a sample is
/// is how far it is from silence.
pub proof fn law_the_loudest_is_one_of_them(pcm: Seq<i16>)
    ensures
        forall|i: int|
            0 <= i < pcm.len() ==> loudest(pcm) >= (if pcm[i] == -32768 {
                32767int
            } else if #[trigger] pcm[i] < 0 {
                -(pcm[i] as int)
            } else {
                pcm[i] as int
            }),
        pcm.len() > 0 ==> exists|i: int|
            0 <= i < pcm.len() && loudness(#[trigger] pcm[i]) == loudest(pcm),
        pcm.len() == 0 ==> loudest(pcm) == 0,
        0 <= loudest(pcm) <= 32767,
    decreases pcm.len(),
{
    if pcm.len() > 0 {
        let rest = pcm.drop_last();
        law_the_loudest_is_one_of_them(rest);
        assert forall|i: int| 0 <= i < pcm.len() implies loudest(pcm) >= (if pcm[i] == -32768 {
            32767int
        } else if #[trigger] pcm[i] < 0 {
            -(pcm[i] as int)
        } else {
            pcm[i] as int
        }) by {
            if i < rest.len() {
                assert(rest[i] == pcm[i]);
            }
        }
        if loudness(pcm.last()) > loudest(rest) || rest.len() == 0 {
            let k = pcm.len() - 1;
            assert(loudness(pcm[k]) == loudest(pcm));
        } else {
            let k = choose|k: int|
                0 <= k < rest.len() && loudness(#[trigger] rest[k]) == loudest(rest);
            assert(pcm[k] == rest[k]);
            assert(loudness(pcm[k]) == loudest(pcm));
        }
    }
}

/// Frames that are played are taken from the queue at the moment that each stands for, the left channel
/// first and every other one from the right; what the queue does not have is silence.
pub proof fn law_frames_are_played_from_the_queue(
    queue: Seq<i16>,
    frames: nat,
    rate: u32,
    channels: u16,
    frame: int,
    channel: int,
)
    requires
        rate > 0,
        0 <= frame < frames,
        0 <= channel < channels,
    ensures
        ({
            let out = played(queue, frames, rate, channels);
            let from = (frame * 48_000) / (rate as int);
            let at = from * 2 + (if channel == 0 {
                0int
            } else {
                1
            });
            &&& out.len() == frames * channels
            &&& 0 <= frame * channels + channel < out.len()
            &&& at < queue.len() ==> out[frame * channels + channel] == queue[at]
            &&& at >= queue.len() ==> out[frame * channels + channel] == 0
        }),
{
    let c = channels as int;
    let k = frame * c + channel;
    assert(0 <= k && k < frames * c) by (nonlinear_arith)
        requires
            0 <= frame < frames,
            0 <= channel < c,
            k == frame * c + channel,
    ;
    vstd::arithmetic::div_mod::lemma_fundamental_div_mod_converse(k, c, frame, channel);
    let out = played(queue, frames, rate, channels);
    assert(frames * channels as nat == frames * c);
    assert(out[k] == played_at(queue, rate, channels, k));
    let from = (frame * 48_000) / (rate as int);
    vstd::arithmetic::div_mod::lemma_div_pos_is_pos(frame * 48_000, rate as int);
    assert(from >= 0);
}

/// So many frames use up as many samples, left and right, as the time that they last.
pub proof fn law_playing_uses_up_what_it_plays(frames: nat, rate: u32)
    requires
        rate > 0,
    ensures
        used_up(frames, rate) % 2 == 0,
        used_up(frames, rate) * rate <= 96_000 * frames,
        96_000 * frames < (used_up(frames, rate) + 2) * rate,
{
    let r = rate as int;
    let x = frames as int * 48_000;
    let q = x / r;
    vstd::arithmetic::div_mod::lemma_fundamental_div_mod(x, r);
    vstd::arithmetic::div_mod::lemma_mod_bound(x, r);
    assert(used_up(frames, rate) == q * 2);
    assert(q * 2 * r <= 2 * x && 2 * x < (q * 2 + 2) * r) by (nonlinear_arith)
        requires
            r * q <= x < r * q + r,
    ;
    assert(2 * x == 96_000 * frames);
}

/// Silence is nothing but zeros, as long as was asked for and at most a packet.
pub proof fn law_silence_is_zeros(len: nat, i: int)
    ensures
        silence_of(len).len() == (if len < SILENCE_BYTES {
            len
        } else {
            SILENCE_BYTES as nat
        }),
        0 <= i < silence_of(len).len() ==> silence_of(len)[i] == 0,
{
}

/// Somebody who never chose has no device of their own and nothing silenced.
pub proof fn law_nothing_is_silenced_unless_chosen()
    ensures
        no_prefs().input is None && no_prefs().output is None,
        !no_prefs().mic_muted && !no_prefs().deafened,
{
}

/// The larger of two numbers is one of them and below neither.
pub proof fn law_the_larger_is_below_neither(a: int, b: int)
    ensures
        larger(a, b) >= a && larger(a, b) >= b && (larger(a, b) == a || larger(a, b) == b),
{
}

} // verus!
