//! What holds of every device list and of every name in it.

use vstd::prelude::*;

use super::cpal;
use super::wasapi_process;
use super::wasapi_process::PROCESS_DEVICE_ID_PREFIX;
use super::AudioDevice;
use super::DeviceType;
use crate::paths;
use crate::paths::HomeVars;
use crate::text;
use crate::text_laws;

verus! {

// ---------------------------------------------------------------------------
// Choosing
// ---------------------------------------------------------------------------

proof fn lemma_first_found(devices: Seq<AudioDevice>, p: spec_fn(AudioDevice) -> bool)
    ensures
        match super::first_where(devices, p) {
            Some(d) => exists|i: int|
                0 <= i < devices.len() && #[trigger] devices[i] == d && p(d) && forall|j: int|
                    0 <= j < i ==> !p(#[trigger] devices[j]),
            None => forall|j: int| 0 <= j < devices.len() ==> !p(#[trigger] devices[j]),
        },
    decreases devices.len(),
{
    if devices.len() > 0 && !p(devices[0]) {
        let rest = devices.drop_first();
        lemma_first_found(rest, p);
        match super::first_where(rest, p) {
            Some(d) => {
                let i = choose|i: int|
                    0 <= i < rest.len() && #[trigger] rest[i] == d && p(d) && forall|j: int|
                        0 <= j < i ==> !p(#[trigger] rest[j]);
                assert(devices[i + 1] == d);
                assert forall|j: int| 0 <= j < i + 1 implies !p(#[trigger] devices[j]) by {
                    if j > 0 {
                        assert(devices[j] == rest[j - 1]);
                    }
                }
            },
            None => {
                assert forall|j: int| 0 <= j < devices.len() implies !p(#[trigger] devices[j]) by {
                    if j > 0 {
                        assert(devices[j] == rest[j - 1]);
                    }
                }
            },
        }
    } else if devices.len() > 0 {
        assert(devices[0] == super::first_where(devices, p)->0);
    }
}

/// How welcome a device is when none was named: the default monitor most, then a monitor,
/// then an input. An application is not welcome at all.
pub open spec fn welcome(d: AudioDevice) -> int {
    match d.device_type {
        DeviceType::Monitor => if d.is_default {
            3
        } else {
            2
        },
        DeviceType::Input => 1,
        DeviceType::Application => 0,
    }
}

/// Unless one is named, capture starts with the most welcome device, and of several with
/// the first; with none, if only applications are there.
pub proof fn law_capture_starts_with_the_most_welcome(devices: Seq<AudioDevice>)
    ensures
        match super::default_device(devices) {
            Some(d) => exists|i: int|
                #![trigger devices[i]]
                {
                    &&& 0 <= i < devices.len()
                    &&& devices[i] == d
                    &&& welcome(d) > 0
                    &&& forall|j: int|
                        0 <= j < devices.len() ==> welcome(#[trigger] devices[j]) <= welcome(d)
                    &&& forall|j: int| 0 <= j < i ==> welcome(#[trigger] devices[j]) < welcome(d)
                },
            None => forall|j: int|
                0 <= j < devices.len() ==> (#[trigger] devices[j]).device_type
                    == DeviceType::Application,
        },
{
    let default_monitor = |d: AudioDevice| d.device_type == DeviceType::Monitor && d.is_default;
    let monitor = |d: AudioDevice| d.device_type == DeviceType::Monitor;
    let input = |d: AudioDevice| d.device_type == DeviceType::Input;
    lemma_first_found(devices, default_monitor);
    lemma_first_found(devices, monitor);
    lemma_first_found(devices, input);
    let a = super::first_where(devices, default_monitor);
    let b = super::first_where(devices, monitor);
    let c = super::first_where(devices, input);
    if a is Some {
        let i = choose|i: int|
            0 <= i < devices.len() && #[trigger] devices[i] == a->0 && default_monitor(a->0)
                && forall|j: int| 0 <= j < i ==> !default_monitor(#[trigger] devices[j]);
        assert(devices[i] == a->0);
        assert forall|j: int| 0 <= j < i implies welcome(#[trigger] devices[j]) < welcome(a->0) by {
            assert(!default_monitor(devices[j]));
        }
    } else if b is Some {
        let i = choose|i: int|
            0 <= i < devices.len() && #[trigger] devices[i] == b->0 && monitor(b->0) && forall|
                j: int,
            |
                0 <= j < i ==> !monitor(#[trigger] devices[j]);
        assert(devices[i] == b->0);
        assert forall|j: int| 0 <= j < devices.len() implies welcome(#[trigger] devices[j])
            <= welcome(b->0) by {
            assert(!default_monitor(devices[j]));
            assert(!default_monitor(devices[i]));
        }
        assert forall|j: int| 0 <= j < i implies welcome(#[trigger] devices[j]) < welcome(b->0) by {
            assert(!monitor(devices[j]));
            assert(!default_monitor(devices[i]));
        }
    } else if c is Some {
        let i = choose|i: int|
            0 <= i < devices.len() && #[trigger] devices[i] == c->0 && input(c->0) && forall|
                j: int,
            |
                0 <= j < i ==> !input(#[trigger] devices[j]);
        assert(devices[i] == c->0);
        assert forall|j: int| 0 <= j < devices.len() implies welcome(#[trigger] devices[j])
            <= welcome(c->0) by {
            assert(!monitor(devices[j]));
        }
        assert forall|j: int| 0 <= j < i implies welcome(#[trigger] devices[j]) < welcome(c->0) by {
            assert(!input(devices[j]) && !monitor(devices[j]));
        }
    } else {
        assert forall|j: int| 0 <= j < devices.len() implies (#[trigger] devices[j]).device_type
            == DeviceType::Application by {
            assert(!monitor(devices[j]) && !input(devices[j]));
        }
    }
}

/// A device is found by its id, and of several with one id the first.
pub proof fn law_a_device_is_found_by_its_id(devices: Seq<AudioDevice>, id: Seq<char>)
    ensures
        match super::device_with_id(devices, id) {
            Some(d) => exists|i: int|
                0 <= i < devices.len() && #[trigger] devices[i] == d && d.id@ == id && forall|
                    j: int,
                |
                    0 <= j < i ==> (#[trigger] devices[j]).id@ != id,
            None => forall|j: int| 0 <= j < devices.len() ==> (#[trigger] devices[j]).id@ != id,
        },
    decreases devices.len(),
{
    if devices.len() > 0 && devices[0].id@ != id {
        let rest = devices.drop_first();
        law_a_device_is_found_by_its_id(rest, id);
        assert(super::device_with_id(devices, id) == super::device_with_id(rest, id));
        match super::device_with_id(rest, id) {
            Some(d) => {
                let i = choose|i: int|
                    0 <= i < rest.len() && #[trigger] rest[i] == d && d.id@ == id && forall|
                        j: int,
                    |
                        0 <= j < i ==> (#[trigger] rest[j]).id@ != id;
                assert(devices[i + 1] == d);
                assert forall|j: int| 0 <= j < i + 1 implies (#[trigger] devices[j]).id@ != id by {
                    if j > 0 {
                        assert(devices[j] == rest[j - 1]);
                    }
                }
            },
            None => {
                assert forall|j: int| 0 <= j < devices.len() implies (#[trigger] devices[j]).id@
                    != id by {
                    if j > 0 {
                        assert(devices[j] == rest[j - 1]);
                    }
                }
            },
        }
    } else if devices.len() > 0 {
        assert(devices[0] == super::device_with_id(devices, id)->0);
    }
}

// ---------------------------------------------------------------------------
// Ordering
// ---------------------------------------------------------------------------

/// Applications come first, then inputs, then monitors.
pub open spec fn rank(d: AudioDevice) -> int {
    match d.device_type {
        DeviceType::Application => 0,
        DeviceType::Input => 1,
        DeviceType::Monitor => 2,
    }
}

/// `from` says where in `devices` each item of `part` stands, in order.
spec fn picked(
    devices: Seq<AudioDevice>,
    part: Seq<AudioDevice>,
    from: Seq<int>,
) -> bool {
    &&& from.len() == part.len()
    &&& forall|i: int|
        0 <= i < part.len() ==> 0 <= #[trigger] from[i] < devices.len() && devices[from[i]]
            == part[i]
    &&& forall|i: int, j: int| 0 <= i < j < part.len() ==> #[trigger] from[i] < #[trigger] from[j]
}

proof fn lemma_of_type(devices: Seq<AudioDevice>, kind: DeviceType) -> (from: Seq<int>)
    ensures
        picked(devices, super::of_type(devices, kind), from),
        forall|i: int|
            0 <= i < super::of_type(devices, kind).len() ==> (#[trigger] super::of_type(
                devices,
                kind,
            )[i]).device_type == kind,
    decreases devices.len(),
{
    if devices.len() == 0 {
        Seq::empty()
    } else {
        let front = devices.drop_last();
        let before = lemma_of_type(front, kind);
        let part = super::of_type(devices, kind);
        let old_part = super::of_type(front, kind);
        assert forall|i: int| 0 <= i < old_part.len() implies 0 <= #[trigger] before[i]
            < devices.len() && devices[before[i]] == old_part[i] by {
            assert(front[before[i]] == devices[before[i]]);
        }
        if devices.last().device_type == kind {
            before.push(devices.len() - 1)
        } else {
            before
        }
    }
}

/// Sorting puts applications first, then inputs, then monitors, and keeps the order
/// within each: where two devices of one type come out in some order, that is the order
/// in which they went in.
pub proof fn law_sorting_is_stable(devices: Seq<AudioDevice>) -> (from: Seq<int>)
    ensures
        ({
            let sorted = super::by_priority(devices);
            &&& from.len() == sorted.len()
            &&& forall|i: int|
                0 <= i < sorted.len() ==> 0 <= #[trigger] from[i] < devices.len()
                    && devices[from[i]] == sorted[i]
            &&& forall|i: int, j: int|
                0 <= i < j < sorted.len() ==> {
                    ||| rank(#[trigger] sorted[i]) < rank(#[trigger] sorted[j])
                    ||| rank(sorted[i]) == rank(sorted[j]) && from[i] < from[j]
                }
        }),
{
    let a = lemma_of_type(devices, DeviceType::Application);
    let b = lemma_of_type(devices, DeviceType::Input);
    let c = lemma_of_type(devices, DeviceType::Monitor);
    let x = super::of_type(devices, DeviceType::Application);
    let y = super::of_type(devices, DeviceType::Input);
    let z = super::of_type(devices, DeviceType::Monitor);
    let sorted = super::by_priority(devices);
    let from = a + b + c;
    assert forall|i: int| 0 <= i < sorted.len() implies {
        &&& 0 <= #[trigger] from[i] < devices.len()
        &&& devices[from[i]] == sorted[i]
        &&& rank(sorted[i]) == if i < x.len() {
            0int
        } else if i < x.len() + y.len() {
            1
        } else {
            2
        }
    } by {
        if i < x.len() {
            assert(sorted[i] == x[i] && from[i] == a[i]);
        } else if i < x.len() + y.len() {
            assert(sorted[i] == y[i - x.len()] && from[i] == b[i - x.len()]);
        } else {
            let k = i - x.len() - y.len();
            assert(sorted[i] == z[k] && from[i] == c[k]);
        }
    }
    assert forall|i: int, j: int| 0 <= i < j < sorted.len() implies {
        ||| rank(#[trigger] sorted[i]) < rank(#[trigger] sorted[j])
        ||| rank(sorted[i]) == rank(sorted[j]) && from[i] < from[j]
    } by {
        let _ = (from[i], from[j]);
        if j < x.len() {
            assert(from[i] == a[i] && from[j] == a[j]);
        } else if i >= x.len() && j < x.len() + y.len() {
            assert(from[i] == b[i - x.len()] && from[j] == b[j - x.len()]);
        } else if i >= x.len() + y.len() {
            let n = x.len() + y.len();
            assert(from[i] == c[i - n] && from[j] == c[j - n]);
        }
    }
    from
}

// ---------------------------------------------------------------------------
// Names
// ---------------------------------------------------------------------------

/// The name of an executable is what follows the last separator of its path: it has no
/// separator, and in front of it there is one, or nothing.
pub proof fn law_the_name_is_what_follows_the_last_separator(path: Seq<char>)
    ensures
        ({
            let base = wasapi_process::base_of(path);
            let n = path.len() - base.len();
            &&& n >= 0
            &&& base == path.skip(n)
            &&& forall|i: int| 0 <= i < base.len() ==> #[trigger] base[i] != '\\' && base[i] != '/'
            &&& n > 0 ==> path[n - 1] == '\\' || path[n - 1] == '/'
        }),
    decreases path.len(),
{
    let base = wasapi_process::base_of(path);
    if path.len() == 0 {
        assert(path.skip(0) =~= path);
    } else if wasapi_process::is_path_separator(path.last()) {
        assert(path.skip(path.len() as int) =~= Seq::<char>::empty());
    } else {
        let front = path.drop_last();
        law_the_name_is_what_follows_the_last_separator(front);
        let n = path.len() - base.len();
        assert(path.skip(n) =~= front.skip(n).push(path.last()));
    }
}

/// A process reads back from the id of its device.
pub proof fn law_a_process_id_reads_back(d: AudioDevice, pid: u32, name: Seq<char>)
    requires
        wasapi_process::lists_process(d, pid, name),
    ensures
        text::has_prefix(d.id@, PROCESS_DEVICE_ID_PREFIX@),
        text::parsed_number(d.id@.skip(PROCESS_DEVICE_ID_PREFIX@.len() as int)) == Some(pid as nat),
        d.device_type == DeviceType::Application,
        !d.is_default,
        text::opt_view(d.application_name) matches Some(label) && d.name@ == "[app] "@ + label,
{
    let n = PROCESS_DEVICE_ID_PREFIX@.len() as int;
    text_laws::law_numbers_read_back(pid as nat);
    assert(d.id@.take(n) =~= PROCESS_DEVICE_ID_PREFIX@);
    assert(d.id@.skip(n) =~= text::decimal_of(pid as nat));
}

/// A label tells two processes of one name apart, and begins with the name.
pub proof fn law_labels_tell_processes_apart(name: Seq<char>, a: u32, b: u32)
    ensures
        text::has_prefix(wasapi_process::label_of(name, a), name),
        wasapi_process::label_of(name, a) == wasapi_process::label_of(name, b) ==> a == b,
{
    let x = text::decimal_of(a as nat);
    let y = text::decimal_of(b as nat);
    let open = " (PID "@;
    let close = ")"@;
    let la = wasapi_process::label_of(name, a);
    let lb = wasapi_process::label_of(name, b);
    assert(la.take(name.len() as int) =~= name);
    text_laws::law_numbers_read_back(a as nat);
    text_laws::law_numbers_read_back(b as nat);
    reveal_strlit(" (PID ");
    if la == lb {
        if name == wasapi_process::pid_name(a) && name == wasapi_process::pid_name(b) {
            let head = "PID "@;
            assert((head + x).skip(head.len() as int) =~= x);
            assert((head + y).skip(head.len() as int) =~= y);
        } else if name == wasapi_process::pid_name(a) || name == wasapi_process::pid_name(b) {
            assert(la.len() != lb.len());
        } else {
            let k = (name + open).len() as int;
            let full_a = name + open + x + close;
            let full_b = name + open + y + close;
            assert(full_a.len() == full_b.len());
            assert(full_a.subrange(k, k + x.len()) =~= x);
            assert(full_b.subrange(k, k + y.len()) =~= y);
        }
    }
}

/// A listed host device is found again under its id: the direction and the name read
/// back, and the shown name ends with the name.
pub proof fn law_a_listed_device_reads_back(
    d: AudioDevice,
    device_type: DeviceType,
    raw_name: Seq<char>,
    is_default: bool,
)
    requires
        cpal::lists(d, device_type, raw_name, is_default),
        device_type != DeviceType::Application,
    ensures
        cpal::parsed_device_id(d.id@) == Some((device_type, raw_name)),
        d.device_type == device_type,
        d.is_default == is_default,
        d.name@.len() >= raw_name.len(),
        d.name@.skip(d.name@.len() - raw_name.len()) == raw_name,
{
    cpal::law_device_id_reads_back(device_type, raw_name);
    assert(d.name@.skip(d.name@.len() - raw_name.len()) =~= raw_name);
}

// ---------------------------------------------------------------------------
// Paths
// ---------------------------------------------------------------------------

/// A home directory is never empty, and is the first that is known of the user's home,
/// the user's profile, and drive and path together.
pub proof fn law_a_home_is_known_by_its_variables(vars: HomeVars)
    ensures
        ({
            let set = |v: Option<String>| v is Some && v->0@.len() > 0;
            let home = paths::home_of(vars);
            &&& home matches Some(h) ==> h.len() > 0
            &&& set(vars.home) ==> home == Some(vars.home->0@)
            &&& !set(vars.home) && set(vars.user_profile) ==> home == Some(vars.user_profile->0@)
            &&& !set(vars.home) && !set(vars.user_profile) && set(vars.home_drive) && set(
                vars.home_path,
            ) ==> home == Some(vars.home_drive->0@ + vars.home_path->0@)
            &&& home is Some ==> set(vars.home) || set(vars.user_profile) || (set(vars.home_drive)
                && set(vars.home_path))
        }),
{
}

/// Only a leading tilde with a slash is expanded, and only where a home is known; nothing
/// of the path is lost.
pub proof fn law_only_a_leading_tilde_is_expanded(path: Seq<char>, home: Option<Seq<char>>)
    ensures
        ({
            let e = paths::expanded(path, home);
            let tilde = path.len() >= 2 && path[0] == '~' && path[1] == '/';
            &&& tilde && home is Some ==> e.base == home->0 && e.rest.len() == 1 && "~/"@
                + e.rest[0] == path
            &&& !tilde || home is None ==> e.base == path && e.rest.len() == 0
        }),
{
    reveal_strlit("~/");
    let e = paths::expanded(path, home);
    if text::has_prefix(path, "~/"@) {
        assert(path.take(2)[0] == '~' && path.take(2)[1] == '/');
        assert("~/"@ + path.skip(2) =~= path);
    } else if path.len() >= 2 && path[0] == '~' && path[1] == '/' {
        assert(path.take(2) =~= "~/"@);
    }
}

/// The files of the application stand together in one directory, below the home where one
/// is known, each under its own name.
pub proof fn law_files_stand_in_the_config_directory(
    home: Option<Seq<char>>,
    a: Seq<char>,
    b: Seq<char>,
)
    ensures
        ({
            let dir = paths::config_dir_of(home);
            let file = paths::config_file_of(home, a);
            &&& file.base == dir.base
            &&& file.rest == dir.rest.push(a)
            &&& paths::config_file_of(home, a) == paths::config_file_of(home, b) ==> a == b
            &&& home matches Some(h) ==> dir.base == h && dir.rest == seq![
                ".config"@,
                "larmindon"@,
            ]
            &&& home is None ==> dir.base == ".config"@ && dir.rest == seq!["larmindon"@]
        }),
{
    let x = paths::config_file_of(home, a);
    let y = paths::config_file_of(home, b);
    if x == y {
        assert(x.rest.last() == y.rest.last());
    }
}

/// Lost samples add up, however they were lost, as far as the count reaches; a loss never
/// takes from the count.
pub proof fn law_lost_samples_add_up(before: u64, some: nat, more: nat)
    ensures
        super::lost(before, 0) == before,
        before + some <= u64::MAX ==> super::lost(before, some as int) == before + some,
        super::lost(before, some as int) >= before,
        super::lost(super::lost(before, some as int), more as int)
            == super::lost(before, (some + more) as int),
{
}

} // verus!
