//! Devices, routing and the buffers between a call and the sound card.
use nobilis::audio::{
    chosen_device, convert, default_device, host_devices, list_devices, parse_devices, playback_muted, route_input, route_output,
    set_playback_muted, start_capture, stream_node_name, AudioDevice, Capture, MicRead, MicSource, Playback, RouteStep,
    Routing, Speakers, Stream, VoicePrefs, VoicePrefsStore, wanted_device,
};
use nobilis::backend::audio::{input_device, list_devices as default_devices, Input};

fn sink(source: &mut MicSource, samples: &[f32]) {
    let bytes: Vec<u8> = samples.iter().flat_map(|s| s.to_le_bytes()).collect();
    source.push(&bytes);
}

fn coherent(devices: &[AudioDevice]) {
    for d in devices {
        assert!(!d.name.is_empty(), "a device with no name is not selectable");
        assert!(d.kind == "input" || d.kind == "output");
    }
    // At most one default per direction, or a picker cannot show which
    // one is in force.
    for kind in ["input", "output"] {
        let defaults = devices.iter().filter(|d| d.kind == kind && d.is_default).count();
        assert!(defaults <= 1, "{defaults} devices claim to be the default {kind}");
    }
}

#[test]
fn the_default_devices_are_offered() {
    // A machine with no sound card is a legitimate thing to run a chat client on.
    assert!(list_devices(vec![], vec![], None, None).is_empty());
    let server = parse_devices(SOURCES_JSON, "input", "alsa_input.usb-HyperX.analog-stereo").unwrap();
    coherent(&list_devices(server, vec![], None, None));
    let host = host_devices(&vec!["Mic".into(), "Webcam".into()], &vec!["Speakers".into()], Some("Webcam"), None);
    coherent(&list_devices(vec![], host, None, None));
    let bare = list_devices(vec![], vec![], Some("Mic"), Some("Speakers"));
    assert_eq!(bare.len(), 2);
    coherent(&bare);
}

#[test]
fn audio_the_default_devices_are_offered() {
    let devices = default_devices(Some("Mic"), Some("Speakers"));
    for d in &devices {
        assert!(!d.name.is_empty(), "a device with no name is not selectable");
        assert!(d.kind == "input" || d.kind == "output");
    }
    assert!(devices.iter().filter(|d| d.kind == "input").count() <= 1);
    assert!(default_devices(None, None).is_empty());
}

#[test]
fn a_missing_device_is_an_error_rather_than_a_substitution() {
    // Being recorded on a different microphone than the one chosen is
    // worse than being told the choice did not take, so routing to a
    // device the server does not have must fail rather than fall back.
    let text = match start_capture(Some("no such device"), Some("the sound server knows of none")) {
        Ok(_) => panic!("routing to a device that does not exist was accepted"),
        Err(e) => e,
    };
    assert!(text.contains("no such device"), "unexpected: {text}");
    assert_eq!(text, "routing input to \"no such device\": the sound server knows of none");
    // The default is wherever the sound server put it.
    assert_eq!(start_capture(None, Some("anything")), Ok(()));
    assert_eq!(start_capture(Some("mic"), None), Ok(()));
}

#[test]
fn audio_a_missing_device_is_an_error_rather_than_a_substitution() {
    let names = vec!["Mic".to_string()];
    let err = input_device(&names, Some("no such microphone"), true).unwrap_err();
    assert!(err.contains("not available"), "unexpected: {err}");
    assert_eq!(input_device(&names, Some("Mic"), false), Ok(Input::Listed(0)));
    assert_eq!(input_device(&names, None, true), Ok(Input::Default));
    assert!(input_device(&names, None, false).is_err());
}

/// A capture of a real pactl reply, so the parser is tested against what
/// the sound server actually says rather than what it is assumed to say.
const SOURCES_JSON: &str = r#"[
  {"index": 63, "name": "alsa_output.usb-HyperX.analog-stereo.monitor",
   "description": "Monitor of HyperX QuadCast S Analog Stereo"},
  {"index": 64, "name": "alsa_input.usb-HyperX.analog-stereo",
   "description": "HyperX QuadCast S Analog Stereo"},
  {"index": 68, "name": "alsa_input.usb-Generic_USB_Audio-00.HiFi__Mic__source",
   "description": ""}
]"#;

#[test]
fn monitors_are_not_offered_as_microphones() {
    // Every output has a monitor source. Offering one as a microphone
    // means transmitting your own audio back into the call.
    let devices = parse_devices(SOURCES_JSON, "input", "alsa_input.usb-HyperX.analog-stereo").unwrap();
    assert!(
        !devices.iter().any(|d| d.id.ends_with(".monitor")),
        "a monitor source was offered as an input: {devices:?}"
    );
    assert_eq!(devices.len(), 2);
}

#[test]
fn devices_are_named_for_people_and_keyed_for_machines() {
    let devices = parse_devices(SOURCES_JSON, "input", "alsa_input.usb-HyperX.analog-stereo").unwrap();
    let hyperx = &devices[0];
    assert_eq!(hyperx.name, "HyperX QuadCast S Analog Stereo");
    assert_eq!(hyperx.id, "alsa_input.usb-HyperX.analog-stereo");
    assert!(hyperx.is_default, "the server's default device was not marked");

    // A device with no description still has to be selectable, so it
    // falls back to the only name there is rather than showing blank.
    assert_eq!(devices[1].name, devices[1].id);
    assert!(!devices[1].is_default);
}

#[test]
fn what_is_not_a_list_of_devices_is_an_error() {
    assert!(parse_devices("not json", "input", "").is_err());
}

#[test]
fn the_system_default_is_a_destination_rather_than_an_absence() {
    // Choosing "system default" has to actively move the stream. The sound
    // server puts an application back on the device it was last moved to,
    // so treating the default as "do not route" silently means "keep
    // whatever was chosen before".
    let output = default_device("alsa_output.usb-HyperX.analog-stereo\n").expect("a server names its sink");
    assert!(!output.is_empty(), "the default sink resolved to nothing");
    let input = default_device("alsa_input.usb-HyperX.analog-stereo\n").expect("a server with a sink should name a source");
    assert!(!input.is_empty(), "the default source resolved to nothing");
    assert_eq!(output, "alsa_output.usb-HyperX.analog-stereo");
    assert!(default_device(" \n").is_err());
}

#[test]
fn our_own_streams_are_identified_the_way_the_sound_server_names_them() {
    // The ALSA plugin publishes no process id, only a node name built from
    // the executable's file name.
    let input = stream_node_name(Stream::Input, Some("nobilisd"));
    let output = stream_node_name(Stream::Output, None);
    assert!(input.starts_with("alsa_capture."), "unexpected: {input}");
    assert!(output.starts_with("alsa_playback."), "unexpected: {output}");
    assert_ne!(input, "alsa_capture.", "the executable name was lost");
    assert_eq!(input, "alsa_capture.nobilisd");
}

#[test]
fn preferences_survive_a_restart_and_a_corrupt_file() {
    let mut store = VoicePrefsStore::open(None);
    assert_eq!(store.get(), VoicePrefs::default());
    let mut edited = store.get();
    edited.input = Some("alsa_input.usb-HyperX.analog-stereo".into());
    edited.mic_muted = true;
    let written = store.update(edited);

    // Muting and then finding yourself live on the next run is the
    // failure this guards against.
    let reopened = VoicePrefsStore::open(Some(written));
    assert_eq!(reopened.get().input.as_deref(), Some("alsa_input.usb-HyperX.analog-stereo"));
    assert!(reopened.get().mic_muted);

    // What cannot be read is as good as nothing.
    assert_eq!(VoicePrefsStore::open(None).get(), VoicePrefs::default());
}

fn a_quiet_microphone() {
    // Returning 0 bytes is how a file says it is over, so a moment of silence would end the call.
    let mut source = MicSource::new();
    let mut tries: u32 = 0;
    let read = loop {
        match source.read(256, tries) {
            MicRead::Wait => tries += 1,
            other => break other,
        }
    };
    match read {
        MicRead::Bytes(bytes) => {
            assert!(!bytes.is_empty(), "a silent microphone reported end-of-stream");
            assert!(bytes.iter().all(|b| *b == 0), "silence should read as zeroes");
        }
        other => panic!("a silent microphone reported {other:?}"),
    }
}

#[test]
fn a_quiet_microphone_is_not_the_end_of_the_stream() {
    a_quiet_microphone();
}

#[test]
fn audio_a_quiet_microphone_is_not_the_end_of_the_stream() {
    a_quiet_microphone();
}

fn captured_audio() {
    let mut source = MicSource::new();
    sink(&mut source, &[1.0f32, -1.0]);

    let buf = match source.read(8, 0) {
        MicRead::Bytes(bytes) => bytes,
        other => panic!("captured audio should be readable, got {other:?}"),
    };
    assert_eq!(f32::from_le_bytes(buf[..4].try_into().unwrap()), 1.0);
    assert_eq!(f32::from_le_bytes(buf[4..].try_into().unwrap()), -1.0);

    // Dropping the capture is what ends a call; the source must agree.
    source.close();
    assert_eq!(source.read(8, 0), MicRead::Over, "the source outlived its microphone");
}

#[test]
fn captured_audio_reaches_the_source_and_stops_when_the_capture_does() {
    captured_audio();
}

#[test]
fn audio_captured_audio_reaches_the_source_and_stops_when_the_capture_does() {
    captured_audio();
}

fn a_stalled_reader() {
    let mut source = MicSource::new();
    let chunk = vec![0.5f32; 4800];
    for _ in 0..100 {
        sink(&mut source, &chunk);
    }
    let buffered = source.buffered();
    // One second of 48kHz stereo f32, and not the ten seconds pushed in.
    assert!(buffered <= 48_000 * 2 * 4, "backlog grew to {buffered} bytes");
}

#[test]
fn a_stalled_reader_does_not_grow_the_backlog_without_limit() {
    a_stalled_reader();
}

#[test]
fn audio_a_stalled_reader_does_not_grow_the_backlog_without_limit() {
    a_stalled_reader();
}

const STREAMS: &str = r#"[
    {"index": 5, "properties": {"node.name": "alsa_capture.nobilis"}},
    {"index": 6, "properties": {"node.name": "alsa_capture.other"}},
    {"index": 7, "properties": {"node.name": "alsa_capture.nobilis"}}
]"#;

#[test]
fn a_chosen_device_gets_our_streams_alone() {
    let (moves, moved) = route_input("mic", "", STREAMS, "alsa_capture.nobilis").unwrap();
    assert!(moved);
    assert_eq!(moves.len(), 2);
    assert_eq!(moves[0].command, Stream::Input.move_command());
    assert_eq!(moves[0].index, "5");
    assert_eq!(moves[0].device, "mic");
    assert_eq!(moves[1].index, "7");
    let (none, moved) = route_output("speakers", "", "[]", "alsa_playback.nobilis").unwrap();
    assert!(none.is_empty());
    assert!(!moved);
}

#[test]
fn the_default_is_somewhere_to_go() {
    let (moves, moved) = route_input("", "alsa_input.usb\n", STREAMS, "alsa_capture.nobilis").unwrap();
    assert!(moved);
    assert_eq!(moves.iter().map(|m| m.device.as_str()).collect::<Vec<_>>(), ["alsa_input.usb", "alsa_input.usb"]);
    // A server that names no default is an error before anything is moved.
    let words = "the sound server named no default device";
    assert_eq!(route_input("", " \n", STREAMS, "alsa_capture.nobilis"), Err(words.to_string()));
    assert_eq!(wanted_device("", ""), Err(words.to_string()));
    assert_eq!(wanted_device("mic", ""), Ok("mic".to_string()));
    assert_eq!(route_output("", "sink", "not a list", "x"), Err("parsing pactl output".to_string()));
}

#[test]
fn a_device_that_is_there_is_opened() {
    let names = vec!["Webcam".to_string(), "Mic".to_string()];
    assert_eq!(chosen_device(&names, Some("Mic")), Some(1));
    assert_eq!(chosen_device(&names, Some("Gone")), None);
    assert_eq!(chosen_device(&names, Some("")), None);
    assert_eq!(chosen_device(&names, None), None);
}

#[test]
fn routing_waits_for_the_stream_to_appear() {
    let mut routing = Routing::new();
    assert_eq!(routing.route_when_ready(Ok(false)), RouteStep::Wait);
    assert_eq!(routing.route_when_ready(Ok(true)), RouteStep::Routed);
    // It gives up after a while, with what went wrong last.
    let mut routing = Routing::new();
    for _ in 0..39 {
        assert_eq!(routing.route_when_ready(Err("no server".into())), RouteStep::Wait);
    }
    assert_eq!(routing.route_when_ready(Err("no server".into())), RouteStep::Failed("no server".into()));
    let mut never = Routing::new();
    for _ in 0..39 {
        assert_eq!(never.route_when_ready(Ok(false)), RouteStep::Wait);
    }
    assert!(matches!(never.route_when_ready(Ok(false)), RouteStep::Failed(_)));
}

#[test]
fn a_mono_microphone_is_heard_on_both_sides() {
    assert_eq!(convert(&[1i16, 2, 3], 48_000, 1, 0), vec![1, 1, 2, 2, 3, 3]);
    // Half the rate: every frame goes out twice.
    assert_eq!(convert(&[1i16, 2], 24_000, 1, 0), vec![1, 1, 1, 1, 2, 2, 2, 2]);
    assert_eq!(convert(&[1i16, 2, 3, 4], 48_000, 2, 0), vec![1, 2, 3, 4]);
}

#[test]
fn a_muted_microphone_takes_nothing() {
    let mut capture = Capture::new();
    assert!(!capture.is_muted());
    assert!(capture.take(&[1i16, 2], 48_000, 2, 0).is_some());
    capture.set_muted(true);
    assert!(capture.is_muted());
    assert!(capture.take(&[1i16, 2], 48_000, 2, 0).is_none());
}

#[test]
fn playback_plays_what_was_pushed_and_then_silence() {
    let mut speakers = Speakers { muted: false };
    let mut playback = Playback::new();
    playback.push(&speakers, &[100, -200, 300, 400]);
    assert_eq!(playback.queued(), 4);
    assert_eq!(playback.take_level(), (400, 4));
    let played = playback.start_playback(3, 48_000, 2);
    assert_eq!(played, vec![100, -200, 300, 400, 0, 0]);
    set_playback_muted(&mut speakers, true);
    assert!(playback_muted(&speakers));
    playback.push(&speakers, &[7, 7]);
    assert_eq!(playback.queued(), 0);
}
