//! Devices of the platform's audio host: how they are named, listed and looked up.

use vstd::prelude::*;

use super::AudioDevice;
use super::DeviceType;
use crate::text;

verus! {

pub const INPUT_DEVICE_ID_PREFIX: &'static str = "input:";

pub const OUTPUT_DEVICE_ID_PREFIX: &'static str = "output:";

/// The id of a host device: its direction, then its name.
pub open spec fn device_id_of(device_type: DeviceType, raw_name: Seq<char>) -> Seq<char> {
    match device_type {
        DeviceType::Input => INPUT_DEVICE_ID_PREFIX@ + raw_name,
        DeviceType::Monitor => OUTPUT_DEVICE_ID_PREFIX@ + raw_name,
        DeviceType::Application => raw_name,
    }
}

pub fn cpal_device_id(device_type: DeviceType, raw_name: &str) -> (r: String)
    ensures
        r@ == device_id_of(device_type, raw_name@),
{
    match device_type {
        DeviceType::Input => text::concat(INPUT_DEVICE_ID_PREFIX, raw_name),
        DeviceType::Monitor => text::concat(OUTPUT_DEVICE_ID_PREFIX, raw_name),
        DeviceType::Application => raw_name.to_owned(),
    }
}

/// The direction and the name that an id holds, if it holds a direction.
pub open spec fn parsed_device_id(id: Seq<char>) -> Option<(DeviceType, Seq<char>)> {
    if text::has_prefix(id, INPUT_DEVICE_ID_PREFIX@) {
        Some((DeviceType::Input, id.skip(INPUT_DEVICE_ID_PREFIX@.len() as int)))
    } else if text::has_prefix(id, OUTPUT_DEVICE_ID_PREFIX@) {
        Some((DeviceType::Monitor, id.skip(OUTPUT_DEVICE_ID_PREFIX@.len() as int)))
    } else {
        None
    }
}

pub fn parse_cpal_device_id(id: &str) -> (r: Option<(DeviceType, &str)>)
    ensures
        match (r, parsed_device_id(id@)) {
            (Some(a), Some(b)) => a.0 == b.0 && a.1@ == b.1,
            (None, None) => true,
            _ => false,
        },
{
    if let Some(raw_name) = text::strip_prefix(id, INPUT_DEVICE_ID_PREFIX) {
        Some((DeviceType::Input, raw_name))
    } else if let Some(raw_name) = text::strip_prefix(id, OUTPUT_DEVICE_ID_PREFIX) {
        Some((DeviceType::Monitor, raw_name))
    } else {
        None
    }
}

/// An id reads back as the direction and the name that it was made of.
pub proof fn law_device_id_reads_back(device_type: DeviceType, raw_name: Seq<char>)
    requires
        device_type != DeviceType::Application,
    ensures
        parsed_device_id(device_id_of(device_type, raw_name)) == Some((device_type, raw_name)),
{
    reveal_strlit("input:");
    reveal_strlit("output:");
    let id = device_id_of(device_type, raw_name);
    match device_type {
        DeviceType::Input => {
            assert(id.take(6) =~= INPUT_DEVICE_ID_PREFIX@);
            assert(id.skip(6) =~= raw_name);
        },
        DeviceType::Monitor => {
            assert(id.take(7) =~= OUTPUT_DEVICE_ID_PREFIX@);
            assert(id.skip(7) =~= raw_name);
            assert(id.take(6)[0] == 'o');
        },
        DeviceType::Application => {},
    }
}

/// A listed host device says what its name and direction are. A device without a
/// name is not listed.
pub open spec fn lists(
    d: AudioDevice,
    device_type: DeviceType,
    raw_name: Seq<char>,
    is_default: bool,
) -> bool {
    &&& d.id@ == device_id_of(device_type, raw_name)
    &&& d.name@ == (if device_type == DeviceType::Input {
        "[in] "@
    } else {
        "[out] "@
    }) + raw_name
    &&& d.device_type == device_type
    &&& d.is_default == is_default
    &&& d.application_name is None
}

/// The entry for an input device; `default_name` names the default input.
pub fn input_entry(raw_name: &str, default_name: Option<&str>) -> (r: Option<AudioDevice>)
    ensures
        match r {
            Some(d) => raw_name@.len() > 0 && lists(
                d,
                DeviceType::Input,
                raw_name@,
                default_name is Some && default_name->0@ == raw_name@,
            ),
            None => raw_name@.len() == 0,
        },
{
    if text::is_empty(raw_name) {
        return None;
    }
    let is_default = match default_name {
        Some(name) => text::same_text(name, raw_name),
        None => false,
    };
    Some(
        AudioDevice {
            id: cpal_device_id(DeviceType::Input, raw_name),
            name: text::concat("[in] ", raw_name),
            device_type: DeviceType::Input,
            is_default,
            application_name: None,
        },
    )
}

/// The entry for an output device captured as a monitor; `default_name` names the
/// default output where the platform marks one.
pub fn output_entry(raw_name: &str, default_name: Option<&str>, marks_default: bool) -> (r: Option<
    AudioDevice,
>)
    ensures
        match r {
            Some(d) => raw_name@.len() > 0 && lists(
                d,
                DeviceType::Monitor,
                raw_name@,
                marks_default && default_name is Some && default_name->0@ == raw_name@,
            ),
            None => raw_name@.len() == 0,
        },
{
    if text::is_empty(raw_name) {
        return None;
    }
    let is_default = match default_name {
        Some(name) => marks_default && text::same_text(name, raw_name),
        None => false,
    };
    Some(
        AudioDevice {
            id: cpal_device_id(DeviceType::Monitor, raw_name),
            name: text::concat("[out] ", raw_name),
            device_type: DeviceType::Monitor,
            is_default,
            application_name: None,
        },
    )
}

/// Where to look for the device to capture from.
#[derive(Debug)]
pub enum DeviceLookup<'a> {
    DefaultInput,
    Input(&'a str),
    Output(&'a str),
    /// An id without a direction names an input or, failing that, an output.
    InputThenOutput(&'a str),
}

/// The device that an id, or no id at all, asks for.
pub fn device_lookup(id: Option<&str>) -> (r: DeviceLookup<'_>)
    ensures
        match id {
            None => r is DefaultInput,
            Some(id) => match parsed_device_id(id@) {
                Some((DeviceType::Input, name)) => r matches DeviceLookup::Input(n) && n@ == name,
                Some((_, name)) => r matches DeviceLookup::Output(n) && n@ == name,
                None => r matches DeviceLookup::InputThenOutput(n) && n@ == id@,
            },
        },
{
    match id {
        None => DeviceLookup::DefaultInput,
        Some(id) => match parse_cpal_device_id(id) {
            Some((DeviceType::Input, name)) => DeviceLookup::Input(name),
            Some((_, name)) => DeviceLookup::Output(name),
            None => DeviceLookup::InputThenOutput(id),
        },
    }
}

/// The error for a device that is not there.
pub fn missing_device(id: Option<&str>) -> (r: String)
    ensures
        r@ == match id {
            None => "No default input device found"@,
            Some(id) => match parsed_device_id(id@) {
                Some((DeviceType::Input, _)) => "No input device found with ID: "@ + id@,
                Some((_, _)) => "No output device found with ID: "@ + id@,
                None => "No device found with ID: "@ + id@,
            },
        },
{
    match id {
        None => "No default input device found".to_owned(),
        Some(id) => match parse_cpal_device_id(id) {
            Some((DeviceType::Input, _)) => text::concat("No input device found with ID: ", id),
            Some((_, _)) => text::concat("No output device found with ID: ", id),
            None => text::concat("No device found with ID: ", id),
        },
    }
}

/// The error for an output whose capture macOS refuses.
pub fn macos_system_audio_error(device_name: &str, reason: &str) -> (r: String)
    ensures
        r@ == "Failed to start macOS system audio capture for '"@ + device_name@ + "': "@ + reason@
            + ". Native output capture requires macOS 14.6 or newer and System Audio Recording permission."@,
{
    let mut r = text::concat("Failed to start macOS system audio capture for '", device_name);
    r.append("': ");
    r.append(reason);
    r.append(
        ". Native output capture requires macOS 14.6 or newer and System Audio Recording permission.",
    );
    r
}

} // verus!
