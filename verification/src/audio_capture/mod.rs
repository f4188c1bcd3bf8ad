//! Audio capture: devices, streams and the buffer between capture and processing.

use std::collections::VecDeque;
use vstd::prelude::*;

use crate::samples;
use crate::text;

pub mod cpal;
pub mod laws;
pub mod wasapi_process;
pub mod windows_composite;

verus! {

/// How many seconds of audio the capture buffer holds.
pub const DEFAULT_CAPTURE_BUFFER_SECONDS: usize = 10;

/// Device type for UI organization
#[derive(Clone, Copy, Debug, PartialEq, Eq, Structural)]
pub enum DeviceType {
    /// Per-application audio capture (highest priority)
    Application,
    /// Physical input devices (microphones)
    Input,
    /// System audio monitors
    Monitor,
}

/// Audio device information
#[derive(Clone, Debug)]
pub struct AudioDevice {
    pub id: String,
    pub name: String,
    pub device_type: DeviceType,
    pub is_default: bool,
    pub application_name: Option<String>,
}

/// What is known of the currently active capture session.
#[derive(Debug)]
pub struct ActiveSessionInfo {
    pub device_id: Option<String>,
    pub application_name: Option<String>,
    pub device_type: Option<DeviceType>,
}

#[derive(Debug, Clone, PartialEq, Eq)]
pub struct AudioStreamMetadata {
    pub sample_rate: usize,
    pub channels: usize,
    pub sample_format: String,
}

// ---------------------------------------------------------------------------
// Capture buffer
// ---------------------------------------------------------------------------

/// Bounded mono PCM buffer shared by the capture callback and processing loop.
pub struct CaptureBuffer<T> {
    samples: VecDeque<T>,
    capacity: usize,
    dropped_samples: u64,
}

/// A count of lost samples, stopping at the largest value.
pub open spec fn lost(before: u64, more: int) -> u64 {
    if before + more > u64::MAX {
        u64::MAX
    } else {
        (before + more) as u64
    }
}

impl<T: Copy> CaptureBuffer<T> {
    /// The samples held, oldest first.
    pub closed spec fn held(self) -> Seq<T> {
        self.samples@
    }

    pub closed spec fn limit(self) -> usize {
        self.capacity
    }

    /// How many samples were dropped since the last drain.
    pub closed spec fn dropped(self) -> u64 {
        self.dropped_samples
    }

    pub open spec fn wf(self) -> bool {
        self.held().len() <= self.limit()
    }

    pub fn for_sample_rate(sample_rate: usize) -> (r: Self)
        requires
            sample_rate * DEFAULT_CAPTURE_BUFFER_SECONDS <= usize::MAX,
        ensures
            r.wf(),
            r.held() == Seq::<T>::empty(),
            r.limit() == sample_rate * DEFAULT_CAPTURE_BUFFER_SECONDS,
            r.dropped() == 0,
    {
        Self::with_capacity(sample_rate * DEFAULT_CAPTURE_BUFFER_SECONDS)
    }

    pub fn with_capacity(capacity: usize) -> (r: Self)
        ensures
            r.wf(),
            r.held() == Seq::<T>::empty(),
            r.limit() == capacity,
            r.dropped() == 0,
    {
        CaptureBuffer { samples: VecDeque::with_capacity(capacity), capacity, dropped_samples: 0 }
    }

    /// Adds a sample; a full buffer drops its oldest one.
    pub fn push_sample(&mut self, sample: T)
        requires
            old(self).wf(),
        ensures
            final(self).wf(),
            final(self).limit() == old(self).limit(),
            final(self).held() == samples::newest(
                old(self).held().push(sample),
                old(self).limit() as nat,
            ),
            final(self).dropped() == lost(
                old(self).dropped(),
                old(self).held().len() + 1 - final(self).held().len(),
            ),
    {
        let ghost next = samples::newest(self.held().push(sample), self.limit() as nat);
        if self.capacity == 0 {
            self.dropped_samples = self.dropped_samples.saturating_add(1);
            assert(self.held() =~= next);
            return;
        }
        if self.samples.len() == self.capacity {
            let _ = self.samples.pop_front();
            self.dropped_samples = self.dropped_samples.saturating_add(1);
        }
        self.samples.push_back(sample);
        assert(self.held() =~= next);
    }

    /// Adds samples in order.
    pub fn extend_samples(&mut self, samples: &[T])
        requires
            old(self).wf(),
        ensures
            final(self).wf(),
            final(self).limit() == old(self).limit(),
            final(self).held() == samples::newest(
                old(self).held() + samples@,
                old(self).limit() as nat,
            ),
            final(self).dropped() == lost(
                old(self).dropped(),
                old(self).held().len() + samples@.len() - final(self).held().len(),
            ),
    {
        let ghost n = self.limit() as nat;
        let ghost before = self.held();
        let mut i: usize = 0;
        assert(before + samples@.take(0) =~= before);
        while i < samples.len()
            invariant
                i <= samples@.len(),
                self.wf(),
                self.limit() == n,
                before == old(self).held(),
                self.held() == samples::newest(before + samples@.take(i as int), n),
                self.dropped() == lost(
                    old(self).dropped(),
                    before.len() + i - self.held().len(),
                ),
            decreases samples@.len() - i,
        {
            let ghost held = self.held();
            self.push_sample(samples[i]);
            proof {
                samples::lemma_newest_add(
                    before + samples@.take(i as int),
                    seq![samples@[i as int]],
                    n,
                );
                assert(held.push(samples@[i as int]) =~= held + seq![samples@[i as int]]);
                assert(before + samples@.take(i as int) + seq![samples@[i as int]] =~= before
                    + samples@.take(i + 1));
            }
            i += 1;
        }
        assert(samples@.take(i as int) =~= samples@);
    }

    /// Takes everything held, and how many samples were dropped before it.
    pub fn drain_all(&mut self) -> (r: (Vec<T>, u64))
        requires
            old(self).wf(),
        ensures
            final(self).wf(),
            final(self).limit() == old(self).limit(),
            final(self).held() == Seq::<T>::empty(),
            final(self).dropped() == 0,
            r.0@ == old(self).held(),
            r.1 == old(self).dropped(),
    {
        let mut drained: Vec<T> = Vec::with_capacity(self.samples.len());
        let ghost all = self.samples@;
        let mut i: usize = 0;
        while i < self.samples.len()
            invariant
                i <= self.samples@.len(),
                self.samples@ == all,
                drained@ == all.take(i as int),
            decreases self.samples@.len() - i,
        {
            drained.push(self.samples[i]);
            i += 1;
            assert(drained@ =~= all.take(i as int));
        }
        assert(all.take(i as int) =~= all);
        self.samples.clear();
        let dropped: u64 = self.dropped_samples;
        self.dropped_samples = 0;
        (drained, dropped)
    }

    pub fn len(&self) -> (r: usize)
        ensures
            r == self.held().len(),
    {
        self.samples.len()
    }

    pub fn is_empty(&self) -> (r: bool)
        ensures
            r == (self.held().len() == 0),
    {
        self.samples.len() == 0
    }

    pub fn dropped_samples(&self) -> (r: u64)
        ensures
            r == self.dropped(),
    {
        self.dropped_samples
    }

    /// Changes the capacity, dropping the oldest samples beyond it.
    pub fn set_capacity(&mut self, capacity: usize)
        ensures
            final(self).wf(),
            final(self).limit() == capacity,
            final(self).held() == samples::newest(old(self).held(), capacity as nat),
            final(self).dropped() == lost(
                old(self).dropped(),
                old(self).held().len() - final(self).held().len(),
            ),
    {
        self.capacity = capacity;
        while self.samples.len() > self.capacity
            invariant
                self.capacity == capacity,
                self.samples@.len() <= old(self).samples@.len(),
                self.samples@ == old(self).samples@.skip(
                    old(self).samples@.len() - self.samples@.len(),
                ),
                self.samples@.len() >= capacity || self.samples@ == old(self).samples@,
                self.dropped_samples == lost(
                    old(self).dropped_samples,
                    old(self).samples@.len() - self.samples@.len(),
                ),
            decreases self.samples@.len(),
        {
            let ghost before = self.samples@;
            let _ = self.samples.pop_front();
            self.dropped_samples = self.dropped_samples.saturating_add(1);
            assert(self.samples@ =~= before.skip(1));
            assert(self.samples@ =~= old(self).samples@.skip(
                old(self).samples@.len() - self.samples@.len(),
            ));
        }
        assert(self.held() =~= samples::newest(old(self).held(), capacity as nat));
    }
}

// ---------------------------------------------------------------------------
// Choosing and ordering devices
// ---------------------------------------------------------------------------

/// The first device for which `p` holds.
pub open spec fn first_where(devices: Seq<AudioDevice>, p: spec_fn(AudioDevice) -> bool) -> Option<
    AudioDevice,
>
    decreases devices.len(),
{
    if devices.len() == 0 {
        None
    } else if p(devices[0]) {
        Some(devices[0])
    } else {
        first_where(devices.drop_first(), p)
    }
}

/// The device that capture starts with when none is named: the default monitor,
/// else any monitor, else any input. An application is never chosen unasked.
pub open spec fn default_device(devices: Seq<AudioDevice>) -> Option<AudioDevice> {
    let default_monitor = first_where(
        devices,
        |d: AudioDevice| d.device_type == DeviceType::Monitor && d.is_default,
    );
    let monitor = first_where(devices, |d: AudioDevice| d.device_type == DeviceType::Monitor);
    let input = first_where(devices, |d: AudioDevice| d.device_type == DeviceType::Input);
    if default_monitor is Some {
        default_monitor
    } else if monitor is Some {
        monitor
    } else {
        input
    }
}

proof fn lemma_first_where(devices: Seq<AudioDevice>, p: spec_fn(AudioDevice) -> bool, k: int)
    requires
        0 <= k <= devices.len(),
        forall|i: int| 0 <= i < k ==> !p(#[trigger] devices[i]),
        k < devices.len() ==> p(devices[k]),
    ensures
        first_where(devices, p) == if k < devices.len() {
            Some(devices[k])
        } else {
            None
        },
    decreases devices.len(),
{
    if devices.len() > 0 && k > 0 {
        assert(!p(devices[0]));
        let rest = devices.drop_first();
        assert forall|i: int| 0 <= i < k - 1 implies !p(#[trigger] rest[i]) by {
            assert(rest[i] == devices[i + 1]);
        }
        if k < devices.len() {
            assert(rest[k - 1] == devices[k]);
        }
        lemma_first_where(rest, p, k - 1);
    }
}

fn find_device(devices: &[AudioDevice], kind: DeviceType, only_default: bool) -> (r: usize)
    ensures
        r <= devices@.len(),
        forall|i: int|
            0 <= i < r ==> !((#[trigger] devices@[i]).device_type == kind && (!only_default
                || devices@[i].is_default)),
        r < devices@.len() ==> devices@[r as int].device_type == kind && (!only_default
            || devices@[r as int].is_default),
{
    let mut i: usize = 0;
    while i < devices.len()
        invariant
            i <= devices@.len(),
            forall|k: int|
                0 <= k < i ==> !((#[trigger] devices@[k]).device_type == kind && (!only_default
                    || devices@[k].is_default)),
        decreases devices@.len() - i,
    {
        if devices[i].device_type == kind && (!only_default || devices[i].is_default) {
            return i;
        }
        i += 1;
    }
    i
}

/// Select a default device from the list: monitors before inputs.
pub fn select_default_device(devices: &[AudioDevice]) -> (r: Option<String>)
    ensures
        match default_device(devices@) {
            Some(d) => r is Some && r->0 == d.id,
            None => r is None,
        },
{
    let a: usize = find_device(devices, DeviceType::Monitor, true);
    let b: usize = find_device(devices, DeviceType::Monitor, false);
    let c: usize = find_device(devices, DeviceType::Input, false);
    proof {
        lemma_first_where(
            devices@,
            |d: AudioDevice| d.device_type == DeviceType::Monitor && d.is_default,
            a as int,
        );
        lemma_first_where(
            devices@,
            |d: AudioDevice| d.device_type == DeviceType::Monitor,
            b as int,
        );
        lemma_first_where(
            devices@,
            |d: AudioDevice| d.device_type == DeviceType::Input,
            c as int,
        );
    }
    if a < devices.len() {
        Some(devices[a].id.clone())
    } else if b < devices.len() {
        Some(devices[b].id.clone())
    } else if c < devices.len() {
        Some(devices[c].id.clone())
    } else {
        None
    }
}

/// The devices of one type, in their order.
pub open spec fn of_type(devices: Seq<AudioDevice>, kind: DeviceType) -> Seq<AudioDevice>
    decreases devices.len(),
{
    if devices.len() == 0 {
        Seq::empty()
    } else if devices.last().device_type == kind {
        of_type(devices.drop_last(), kind).push(devices.last())
    } else {
        of_type(devices.drop_last(), kind)
    }
}

/// Applications first, then inputs, then monitors; within a type the order stays.
pub open spec fn by_priority(devices: Seq<AudioDevice>) -> Seq<AudioDevice> {
    of_type(devices, DeviceType::Application) + of_type(devices, DeviceType::Input) + of_type(
        devices,
        DeviceType::Monitor,
    )
}

/// Sort devices by priority: Applications first, then Inputs, then Monitors
pub fn sort_devices_by_priority(devices: Vec<AudioDevice>) -> (r: Vec<AudioDevice>)
    ensures
        r@ == by_priority(devices@),
{
    let ghost all = devices@;
    let mut apps: Vec<AudioDevice> = Vec::new();
    let mut inputs: Vec<AudioDevice> = Vec::new();
    let mut monitors: Vec<AudioDevice> = Vec::new();
    assert(all.take(0) =~= Seq::<AudioDevice>::empty());
    for device in it: devices
        invariant
            it.seq() == all,
            apps@ == of_type(all.take(it.index()), DeviceType::Application),
            inputs@ == of_type(all.take(it.index()), DeviceType::Input),
            monitors@ == of_type(all.take(it.index()), DeviceType::Monitor),
    {
        proof {
            assert(all.take(it.index() + 1).drop_last() =~= all.take(it.index()));
            assert(all.take(it.index() + 1).last() == device);
        }
        match device.device_type {
            DeviceType::Application => apps.push(device),
            DeviceType::Input => inputs.push(device),
            DeviceType::Monitor => monitors.push(device),
        }
    }
    assert(all.take(all.len() as int) =~= all);
    apps.append(&mut inputs);
    apps.append(&mut monitors);
    apps
}

/// Sorting neither loses nor invents a device.
pub proof fn law_sorting_keeps_the_devices(devices: Seq<AudioDevice>)
    ensures
        by_priority(devices).to_multiset() == devices.to_multiset(),
    decreases devices.len(),
{
    broadcast use vstd::seq_lib::group_to_multiset_ensures;

    if devices.len() == 0 {
        assert(by_priority(devices) =~= devices);
    } else {
        let rest = devices.drop_last();
        let d = devices.last();
        law_sorting_keeps_the_devices(rest);
        assert(devices =~= rest.push(d));
        let a = of_type(rest, DeviceType::Application);
        let i = of_type(rest, DeviceType::Input);
        let m = of_type(rest, DeviceType::Monitor);
        vstd::seq_lib::lemma_multiset_commutative(a + i, m);
        vstd::seq_lib::lemma_multiset_commutative(a, i);
        match d.device_type {
            DeviceType::Application => {
                assert(by_priority(devices) =~= a.push(d) + i + m);
                vstd::seq_lib::lemma_multiset_commutative(a.push(d) + i, m);
                vstd::seq_lib::lemma_multiset_commutative(a.push(d), i);
            },
            DeviceType::Input => {
                assert(by_priority(devices) =~= a + i.push(d) + m);
                vstd::seq_lib::lemma_multiset_commutative(a + i.push(d), m);
                vstd::seq_lib::lemma_multiset_commutative(a, i.push(d));
            },
            DeviceType::Monitor => {
                assert(by_priority(devices) =~= a + i + m.push(d));
                vstd::seq_lib::lemma_multiset_commutative(a + i, m.push(d));
            },
        }
        assert(by_priority(devices).to_multiset() =~= devices.to_multiset());
    }
}

// ---------------------------------------------------------------------------
// Session information
// ---------------------------------------------------------------------------

impl Default for ActiveSessionInfo {
    fn default() -> (r: Self)
        ensures
            r.device_id is None,
            r.application_name is None,
            r.device_type is None,
    {
        ActiveSessionInfo { device_id: None, application_name: None, device_type: None }
    }
}

/// The first device with this id.
pub open spec fn device_with_id(devices: Seq<AudioDevice>, id: Seq<char>) -> Option<AudioDevice> {
    first_where(devices, |d: AudioDevice| d.id@ == id)
}

/// What to note of a session on `device_id`; `devices` are those that could be
/// listed.
pub fn session_info(device_id: String, devices: &[AudioDevice]) -> (r: ActiveSessionInfo)
    ensures
        r.device_id == Some(device_id),
        match device_with_id(devices@, device_id@) {
            Some(d) => {
                &&& text::opt_view(r.application_name) == text::opt_view(d.application_name)
                &&& r.device_type == Some(d.device_type)
            },
            None => r.application_name is None && r.device_type is None,
        },
{
    let ghost p = |d: AudioDevice| d.id@ == device_id@;
    let mut i: usize = 0;
    while i < devices.len()
        invariant
            i <= devices@.len(),
            p == (|d: AudioDevice| d.id@ == device_id@),
            forall|k: int| 0 <= k < i ==> !p(#[trigger] devices@[k]),
        decreases devices@.len() - i,
    {
        if text::same_text(devices[i].id.as_str(), device_id.as_str()) {
            proof {
                lemma_first_where(devices@, p, i as int);
            }
            return ActiveSessionInfo {
                device_id: Some(device_id),
                application_name: text::clone_opt(&devices[i].application_name),
                device_type: Some(devices[i].device_type),
            };
        }
        i += 1;
    }
    proof {
        lemma_first_where(devices@, p, i as int);
    }
    ActiveSessionInfo { device_id: Some(device_id), application_name: None, device_type: None }
}

} // verus!
