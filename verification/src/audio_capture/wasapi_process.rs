//! Per-application capture on Windows: which processes are listed, how they are
//! named, and how their byte stream is cut into frames.

use std::collections::HashSet;
use std::collections::VecDeque;
use vstd::prelude::*;

use super::AudioDevice;
use super::DeviceType;
use crate::samples;
use crate::text;

verus! {

pub const PROCESS_DEVICE_ID_PREFIX: &'static str = "proc:";

/// Capture format requested from the system: 48 kHz stereo, four bytes a sample.
pub const CAPTURE_SAMPLE_RATE: usize = 48_000;

pub const CAPTURE_CHANNELS: usize = 2;

pub const BYTES_PER_FRAME: usize = 8;

/// The state of a session that is producing audio.
pub const SESSION_STATE_ACTIVE: i32 = 1;

pub fn is_active_session(state: i32) -> (r: bool)
    ensures
        r == (state == SESSION_STATE_ACTIVE),
{
    state == SESSION_STATE_ACTIVE
}

/// What stands for the name of a process that has none.
pub open spec fn pid_name(pid: u32) -> Seq<char> {
    "PID "@ + text::decimal_of(pid as nat)
}

/// The name with the process id behind it, unless the name is only the id.
pub open spec fn label_of(name: Seq<char>, pid: u32) -> Seq<char> {
    if name == pid_name(pid) {
        name
    } else {
        name + " (PID "@ + text::decimal_of(pid as nat) + ")"@
    }
}

fn pid_text(pid: u32) -> (r: String)
    ensures
        r@ == pid_name(pid),
{
    text::concat("PID ", text::decimal(pid as u64).as_str())
}

pub fn application_label(name: &str, pid: u32) -> (r: String)
    ensures
        r@ == label_of(name@, pid),
{
    if text::same_text(name, pid_text(pid).as_str()) {
        return name.to_owned();
    }
    let mut r = text::concat(name, " (PID ");
    r.append(text::decimal(pid as u64).as_str());
    r.append(")");
    r
}

/// The process that a device id names.
pub fn process_id(device_id: Option<&str>) -> (r: Result<u32, String>)
    ensures
        match r {
            Ok(pid) => {
                &&& device_id is Some
                &&& text::has_prefix(device_id->0@, PROCESS_DEVICE_ID_PREFIX@)
                &&& text::parsed_number(
                    device_id->0@.skip(PROCESS_DEVICE_ID_PREFIX@.len() as int),
                ) == Some(pid as nat)
            },
            Err(e) => match device_id {
                None => e@ == "WASAPI process backend requires a device ID"@,
                Some(id) => if !text::has_prefix(id@, PROCESS_DEVICE_ID_PREFIX@) {
                    e@ == "Not a process device ID: "@ + id@
                } else {
                    &&& e@ == "Invalid process ID in device ID: "@ + id@
                    &&& match text::parsed_number(
                        id@.skip(PROCESS_DEVICE_ID_PREFIX@.len() as int),
                    ) {
                        Some(n) => n > u32::MAX,
                        None => true,
                    }
                },
            },
        },
{
    let id = match device_id {
        Some(id) => id,
        None => {
            return Err("WASAPI process backend requires a device ID".to_owned());
        },
    };
    match text::strip_prefix(id, PROCESS_DEVICE_ID_PREFIX) {
        Some(digits) => match text::parse_u32(digits) {
            Some(pid) => Ok(pid),
            None => Err(text::concat("Invalid process ID in device ID: ", id)),
        },
        None => Err(text::concat("Not a process device ID: ", id)),
    }
}

/// A separator in the path of an executable.
pub open spec fn is_path_separator(c: char) -> bool {
    c == '\\' || c == '/'
}

/// What follows the last separator.
pub open spec fn base_of(path: Seq<char>) -> Seq<char>
    decreases path.len(),
{
    if path.len() == 0 {
        path
    } else if is_path_separator(path.last()) {
        Seq::empty()
    } else {
        base_of(path.drop_last()).push(path.last())
    }
}

/// The base name of an executable, if there is any.
pub fn executable_name(path: &str) -> (r: Option<String>)
    ensures
        match r {
            Some(name) => name@ == base_of(path@) && name@.len() > 0,
            None => base_of(path@).len() == 0,
        },
{
    let v = text::chars_of(path);
    let mut start: usize = v.len();
    assert(v@.subrange(start as int, v@.len() as int) =~= Seq::<char>::empty());
    assert(v@.take(start as int) =~= v@);
    assert(base_of(v@) =~= base_of(v@.take(start as int)) + v@.subrange(
        start as int,
        v@.len() as int,
    ));
    while start > 0 && v[start - 1] != '\\' && v[start - 1] != '/'
        invariant
            start <= v@.len(),
            base_of(v@) == base_of(v@.take(start as int)) + v@.subrange(
                start as int,
                v@.len() as int,
            ),
        decreases start,
    {
        proof {
            let front = v@.take(start as int);
            assert(front.last() == v@[start - 1]);
            assert(front.drop_last() =~= v@.take(start - 1));
            assert(base_of(front) + v@.subrange(start as int, v@.len() as int) =~= base_of(
                v@.take(start - 1),
            ) + v@.subrange(start - 1, v@.len() as int));
        }
        start -= 1;
    }
    assert(start > 0 ==> v@.take(start as int).last() == v@[start - 1]);
    assert(base_of(v@.take(start as int)) =~= Seq::<char>::empty());
    assert(base_of(v@) =~= v@.subrange(start as int, v@.len() as int));
    if start == v.len() {
        return None;
    }
    Some(path.substring_char(start, v.len()).to_owned())
}

// ---------------------------------------------------------------------------
// Session listing
// ---------------------------------------------------------------------------

/// A listed process.
pub open spec fn lists_process(d: AudioDevice, pid: u32, name: Seq<char>) -> bool {
    &&& d.id@ == PROCESS_DEVICE_ID_PREFIX@ + text::decimal_of(pid as nat)
    &&& d.name@ == "[app] "@ + label_of(name, pid)
    &&& d.device_type == DeviceType::Application
    &&& !d.is_default
    &&& text::opt_view(d.application_name) == Some(label_of(name, pid))
}

/// Collects the processes that are producing audio, each once.
pub struct SessionList {
    seen: HashSet<u32>,
    devices: Vec<AudioDevice>,
}

impl SessionList {
    /// The processes met so far.
    pub closed spec fn listed(self) -> Set<u32> {
        self.seen@
    }

    /// The devices listed so far, in order.
    pub closed spec fn found(self) -> Seq<AudioDevice> {
        self.devices@
    }

    pub fn into_devices(self) -> (r: Vec<AudioDevice>)
        ensures
            r@ == self.found(),
    {
        self.devices
    }

    pub fn new() -> (r: Self)
        ensures
            r.listed() == Set::<u32>::empty(),
            r.found().len() == 0,
    {
        broadcast use vstd::std_specs::hash::group_hash_axioms;

        SessionList { seen: HashSet::new(), devices: Vec::new() }
    }

    /// Whether a session is to be listed, and as which process: it is active, its
    /// process is known, and that process was not listed before. A state or
    /// process that could not be read is `None`; the session of the system sounds
    /// has process 0.
    pub fn accept(&mut self, state: Option<i32>, pid: Option<u32>) -> (r: Option<u32>)
        ensures
            ({
                let wanted = state == Some(SESSION_STATE_ACTIVE) && pid is Some && pid->0 != 0
                    && !old(self).listed().contains(pid->0);
                &&& r == if wanted {
                    pid
                } else {
                    None
                }
                &&& final(self).listed() == if wanted {
                    old(self).listed().insert(pid->0)
                } else {
                    old(self).listed()
                }
            }),
            final(self).found() == old(self).found(),
    {
        broadcast use vstd::std_specs::hash::group_hash_axioms;

        match state {
            Some(state) => if !is_active_session(state) {
                return None;
            },
            None => {
                return None;
            },
        }
        match pid {
            Some(pid) => {
                if pid == 0 {
                    return None;
                }
                if !self.seen.insert(pid) {
                    assert(self.seen@ =~= old(self).seen@);
                    return None;
                }
                Some(pid)
            },
            None => None,
        }
    }

    /// Lists an admitted process under its executable's name, or under its id if
    /// the name is not known.
    pub fn list(&mut self, pid: u32, name: Option<&str>)
        ensures
            final(self).listed() == old(self).listed(),
            final(self).found().len() == old(self).found().len() + 1,
            final(self).found().drop_last() == old(self).found(),
            lists_process(
                final(self).found().last(),
                pid,
                match name {
                    Some(n) => n@,
                    None => pid_name(pid),
                },
            ),
    {
        let fallback = pid_text(pid);
        let label = match name {
            Some(n) => application_label(n, pid),
            None => application_label(fallback.as_str(), pid),
        };
        let device = AudioDevice {
            id: text::concat(PROCESS_DEVICE_ID_PREFIX, text::decimal(pid as u64).as_str()),
            name: text::concat("[app] ", label.as_str()),
            device_type: DeviceType::Application,
            is_default: false,
            application_name: Some(label),
        };
        self.devices.push(device);
        assert(self.devices@.drop_last() =~= old(self).devices@);
    }
}

// ---------------------------------------------------------------------------
// Byte stream
// ---------------------------------------------------------------------------

/// Takes the whole frames out of the queue; a trailing partial frame stays.
pub fn take_full_frames(queue: &mut VecDeque<u8>) -> (bytes: Vec<u8>)
    ensures
        ({
            let n = old(queue)@.len() as int / BYTES_PER_FRAME as int * BYTES_PER_FRAME as int;
            &&& bytes@ == old(queue)@.take(n)
            &&& final(queue)@ == samples::uncut(old(queue)@, BYTES_PER_FRAME as int)
        }),
{
    let full: usize = queue.len() / BYTES_PER_FRAME * BYTES_PER_FRAME;
    let ghost all = queue@;
    let mut bytes: Vec<u8> = Vec::new();
    let mut i: usize = 0;
    assert(all.skip(0) =~= all);
    while i < full
        invariant
            i <= full <= all.len(),
            bytes@ == all.take(i as int),
            queue@ == all.skip(i as int),
        decreases full - i,
    {
        match queue.pop_front() {
            Some(b) => {
                bytes.push(b);
                i += 1;
                assert(bytes@ =~= all.take(i as int));
                assert(queue@ =~= all.skip(i as int));
            },
            None => {
                assert(false);
                return bytes;
            },
        }
    }
    bytes
}

} // verus!
