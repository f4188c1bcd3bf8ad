//! Host devices and per-application sources in one device list, routed by id:
//! `proc:` ids go to process capture, everything else to the host.

use vstd::prelude::*;

use super::wasapi_process::PROCESS_DEVICE_ID_PREFIX;
use super::AudioDevice;
use crate::text;

verus! {

/// Whether a device id names a process rather than a host device.
pub fn routes_to_process(device_id: Option<&str>) -> (r: bool)
    ensures
        r == (device_id is Some && text::has_prefix(
            device_id->0@,
            PROCESS_DEVICE_ID_PREFIX@,
        )),
{
    match device_id {
        Some(id) => text::strip_prefix(id, PROCESS_DEVICE_ID_PREFIX).is_some(),
        None => false,
    }
}

/// The combined list. Applications are best-effort: where they could not be
/// listed, the host devices stand alone.
pub fn combined_devices(host: Vec<AudioDevice>, apps: Option<Vec<AudioDevice>>) -> (r: Vec<
    AudioDevice,
>)
    ensures
        r@ == super::by_priority(
            host@ + match apps {
                Some(a) => a@,
                None => Seq::empty(),
            },
        ),
{
    let mut devices = host;
    match apps {
        Some(mut apps) => {
            devices.append(&mut apps);
        },
        None => {
            assert(host@ + Seq::<AudioDevice>::empty() =~= host@);
        },
    }
    super::sort_devices_by_priority(devices)
}

} // verus!
