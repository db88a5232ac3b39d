//! The devices that are offered where only the defaults are known.
use vstd::prelude::*;
use crate::audio::{host_device_named, quote, quoted};
use crate::text::{maybe_str, views};

pub use crate::audio::{Capture, MicSource, TARGET_CHANNELS, TARGET_RATE};

verus! {

/// A device that sound can come from or go to.
#[derive(Debug, PartialEq, Eq)]
pub struct AudioDevice {
    pub name: String,
    /// What the driver says it is.
    pub device_type: String,
    pub is_default: bool,
    pub kind: String,
}

pub struct AudioDeviceV {
    pub name: Seq<char>,
    pub device_type: Seq<char>,
    pub is_default: bool,
    pub kind: Seq<char>,
}

impl View for AudioDevice {
    type V = AudioDeviceV;

    open spec fn view(&self) -> AudioDeviceV {
        AudioDeviceV {
            name: self.name@,
            device_type: self.device_type@,
            is_default: self.is_default,
            kind: self.kind@,
        }
    }
}

/// A default device, where there is one.
pub open spec fn default_side(name: Option<Seq<char>>, kind: Seq<char>) -> Seq<AudioDeviceV> {
    match name {
        Some(n) => seq![AudioDeviceV { name: n, device_type: kind, is_default: true, kind }],
        None => Seq::empty(),
    }
}

/// The default devices; the sound server routes them.
pub fn list_devices(default_input: Option<&str>, default_output: Option<&str>) -> (r: Vec<
    AudioDevice,
>)
    ensures
        views(r@) == default_side(maybe_str(default_input), "input"@) + default_side(
            maybe_str(default_output),
            "output"@,
        ),
{
    let mut out: Vec<AudioDevice> = Vec::new();
    match default_input {
        Some(n) => {
            out.push(
                AudioDevice {
                    name: n.to_owned(),
                    device_type: "input".to_owned(),
                    is_default: true,
                    kind: "input".to_owned(),
                },
            );
        },
        None => {},
    }
    assert(views(out@) =~= default_side(maybe_str(default_input), "input"@));
    let ghost before = views(out@);
    match default_output {
        Some(n) => {
            out.push(
                AudioDevice {
                    name: n.to_owned(),
                    device_type: "output".to_owned(),
                    is_default: true,
                    kind: "output".to_owned(),
                },
            );
        },
        None => {},
    }
    assert(views(out@) =~= before + default_side(maybe_str(default_output), "output"@));
    out
}

/// A microphone to open.
#[derive(Clone, Copy, Debug, PartialEq, Eq, Structural)]
pub enum Input {
    /// The one at this place of the list.
    Listed(usize),
    Default,
}

/// The microphone to open. One that was chosen and is gone is an error, never another one.
pub fn input_device(names: &Vec<String>, preferred: Option<&str>, has_default: bool) -> (r: Result<
    Input,
    String,
>)
    ensures
        match (preferred, r) {
            (Some(want), Ok(Input::Listed(i))) => i < names.len() && names@[i as int]@ == want@
                && forall|j: int| 0 <= j < i ==> (#[trigger] names@[j])@ != want@,
            (Some(want), Err(e)) => {
                &&& forall|j: int| 0 <= j < names.len() ==> (#[trigger] names@[j])@ != want@
                &&& e@ == "input device "@ + quoted(want@) + " is not available"@
            },
            (None, Ok(Input::Default)) => has_default,
            (None, Err(e)) => !has_default && e@ == "no default input device"@,
            _ => false,
        },
{
    match preferred {
        Some(want) => match host_device_named(names, want) {
            Some(i) => Ok(Input::Listed(i)),
            None => {
                let mut words = "input device ".to_owned();
                words.append(quote(want).as_str());
                words.append(" is not available");
                Err(words)
            },
        },
        None => if has_default {
            Ok(Input::Default)
        } else {
            Err("no default input device".to_owned())
        },
    }
}

/// A default device is offered where there is one, under its name and of its kind, and nothing where
/// there is none.
pub proof fn law_a_default_is_offered_where_there_is_one(name: Option<Seq<char>>, kind: Seq<char>)
    ensures
        ({
            let r = default_side(name, kind);
            &&& name is None ==> r.len() == 0
            &&& name is Some ==> r.len() == 1 && r[0].name == name->0 && r[0].kind == kind
                && r[0].device_type == kind && r[0].is_default
        }),
{
}

} // verus!
