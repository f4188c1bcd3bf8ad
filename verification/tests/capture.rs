//! Audio devices and the capture buffer.

use larmindon::audio_capture::cpal::{
    cpal_device_id, device_lookup, input_entry, macos_system_audio_error, missing_device,
    output_entry, parse_cpal_device_id, DeviceLookup,
};
use larmindon::audio_capture::wasapi_process::{application_label, is_active_session};
use larmindon::audio_capture::{
    select_default_device, sort_devices_by_priority, AudioDevice, CaptureBuffer, DeviceType,
};
use larmindon::audio_engine::take_complete_frames;

const AUDIO_SESSION_STATE_INACTIVE: i32 = 0;
const AUDIO_SESSION_STATE_ACTIVE: i32 = 1;
const AUDIO_SESSION_STATE_EXPIRED: i32 = 2;

fn make_device(id: &str, device_type: DeviceType, is_default: bool) -> AudioDevice {
    AudioDevice {
        id: id.to_string(),
        name: id.to_string(),
        device_type,
        is_default,
        application_name: None,
    }
}

#[test]
fn select_default_prefers_default_monitor() {
    let devices = vec![
        make_device("input1", DeviceType::Input, true),
        make_device("monitor1", DeviceType::Monitor, false),
        make_device("monitor2", DeviceType::Monitor, true),
    ];
    assert_eq!(select_default_device(&devices), Some("monitor2".into()));
}

#[test]
fn select_default_falls_back_to_any_monitor() {
    let devices = vec![
        make_device("input1", DeviceType::Input, true),
        make_device("monitor1", DeviceType::Monitor, false),
    ];
    assert_eq!(select_default_device(&devices), Some("monitor1".into()));
}

#[test]
fn select_default_falls_back_to_input() {
    let devices = vec![
        make_device("input1", DeviceType::Input, false),
        make_device("app1", DeviceType::Application, false),
    ];
    assert_eq!(select_default_device(&devices), Some("input1".into()));
}

#[test]
fn select_default_returns_none_for_only_apps() {
    let devices = vec![make_device("app1", DeviceType::Application, false)];
    assert_eq!(select_default_device(&devices), None);
}

#[test]
fn select_default_returns_none_for_empty_list() {
    assert_eq!(select_default_device(&[]), None);
}

#[test]
fn sort_orders_application_input_monitor() {
    let devices = vec![
        make_device("monitor1", DeviceType::Monitor, false),
        make_device("input1", DeviceType::Input, false),
        make_device("app1", DeviceType::Application, false),
    ];
    let sorted = sort_devices_by_priority(devices);
    assert_eq!(sorted[0].id, "app1");
    assert_eq!(sorted[1].id, "input1");
    assert_eq!(sorted[2].id, "monitor1");
}

#[test]
fn sort_preserves_order_within_same_type() {
    let devices = vec![
        make_device("input2", DeviceType::Input, false),
        make_device("input1", DeviceType::Input, true),
    ];
    let sorted = sort_devices_by_priority(devices);
    // Both are Input, original order preserved (stable sort)
    assert_eq!(sorted[0].id, "input2");
    assert_eq!(sorted[1].id, "input1");
}

#[test]
fn sort_empty_list() {
    let sorted = sort_devices_by_priority(vec![]);
    assert!(sorted.is_empty());
}

#[test]
fn capture_buffer_drops_oldest_samples_when_full() {
    let mut buffer = CaptureBuffer::<f32>::with_capacity(3);
    buffer.extend_samples(&[1.0, 2.0, 3.0, 4.0]);

    assert_eq!(buffer.len(), 3);
    assert_eq!(buffer.dropped_samples(), 1);
    let (samples, dropped) = buffer.drain_all();
    assert_eq!(samples, vec![2.0, 3.0, 4.0]);
    assert_eq!(dropped, 1);
    assert_eq!(buffer.dropped_samples(), 0);
}

#[test]
fn capture_buffer_set_capacity_drops_oldest_samples() {
    let mut buffer = CaptureBuffer::<f32>::with_capacity(5);
    buffer.extend_samples(&[1.0, 2.0, 3.0, 4.0, 5.0]);

    buffer.set_capacity(2);

    let (samples, dropped) = buffer.drain_all();
    assert_eq!(samples, vec![4.0, 5.0]);
    assert_eq!(dropped, 3);
}

#[test]
fn cpal_device_ids_include_device_direction() {
    let raw_name = "L-Phonak hearing aid";

    assert_eq!(
        cpal_device_id(DeviceType::Input, raw_name),
        "input:L-Phonak hearing aid"
    );
    assert_eq!(
        cpal_device_id(DeviceType::Monitor, raw_name),
        "output:L-Phonak hearing aid"
    );
}

#[test]
fn parse_cpal_device_id_preserves_raw_device_name() {
    assert_eq!(
        parse_cpal_device_id("input:L-Phonak hearing aid"),
        Some((DeviceType::Input, "L-Phonak hearing aid"))
    );
    assert_eq!(
        parse_cpal_device_id("output:L-Phonak hearing aid"),
        Some((DeviceType::Monitor, "L-Phonak hearing aid"))
    );
    assert_eq!(parse_cpal_device_id("L-Phonak hearing aid"), None);
}

#[test]
fn only_active_sessions_are_listed() {
    assert!(is_active_session(AUDIO_SESSION_STATE_ACTIVE));
    assert!(!is_active_session(AUDIO_SESSION_STATE_INACTIVE));
    assert!(!is_active_session(AUDIO_SESSION_STATE_EXPIRED));
}

#[test]
fn application_label_includes_pid_for_duplicate_process_names() {
    assert_eq!(
        application_label("firefox.exe", 1234),
        "firefox.exe (PID 1234)"
    );
}

#[test]
fn application_label_does_not_repeat_pid_fallback() {
    assert_eq!(application_label("PID 1234", 1234), "PID 1234");
}

#[test]
fn audio_engine_take_complete_frames_preserves_leftover_order() {
    let mut leftover = vec![1.0, 2.0];

    let complete = take_complete_frames(&mut leftover, &[3.0, 4.0, 5.0], 4);

    assert_eq!(complete, vec![1.0, 2.0, 3.0, 4.0]);
    assert_eq!(leftover, vec![5.0]);
}

#[test]
fn audio_engine_take_complete_frames_keeps_all_incomplete_input_as_leftover() {
    let mut leftover = vec![1.0];

    let complete = take_complete_frames(&mut leftover, &[2.0], 4);

    assert!(complete.is_empty());
    assert_eq!(leftover, vec![1.0, 2.0]);
}

#[test]
fn take_complete_frames_preserves_leftover_order() {
    let mut leftover = vec![1.0, 2.0];

    let complete = take_complete_frames(&mut leftover, &[3.0, 4.0, 5.0], 4);

    assert_eq!(complete, vec![1.0, 2.0, 3.0, 4.0]);
    assert_eq!(leftover, vec![5.0]);
}

#[test]
fn take_complete_frames_keeps_all_incomplete_input_as_leftover() {
    let mut leftover = vec![1.0];

    let complete = take_complete_frames(&mut leftover, &[2.0], 4);

    assert!(complete.is_empty());
    assert_eq!(leftover, vec![1.0, 2.0]);
}


#[test]
fn host_devices_are_listed_by_direction() {
    let mic = input_entry("USB Mic", Some("USB Mic")).unwrap();
    assert_eq!(mic.id, "input:USB Mic");
    assert_eq!(mic.name, "[in] USB Mic");
    assert_eq!(mic.device_type, DeviceType::Input);
    assert!(mic.is_default);
    assert!(!input_entry("USB Mic", None).unwrap().is_default);
    assert!(input_entry("", Some("")).is_none());

    let out = output_entry("Speakers", Some("Speakers"), true).unwrap();
    assert_eq!(out.id, "output:Speakers");
    assert_eq!(out.name, "[out] Speakers");
    assert_eq!(out.device_type, DeviceType::Monitor);
    assert!(out.is_default);
    assert!(!output_entry("Speakers", Some("Speakers"), false).unwrap().is_default);
    assert!(output_entry("", None, true).is_none());
}

#[test]
fn device_ids_say_where_to_look() {
    assert!(matches!(device_lookup(None), DeviceLookup::DefaultInput));
    assert!(matches!(device_lookup(Some("input:a:b")), DeviceLookup::Input("a:b")));
    assert!(matches!(device_lookup(Some("output:x")), DeviceLookup::Output("x")));
    assert!(matches!(device_lookup(Some("x")), DeviceLookup::InputThenOutput("x")));
    assert_eq!(missing_device(None), "No default input device found");
    assert_eq!(missing_device(Some("input:a")), "No input device found with ID: input:a");
    assert_eq!(missing_device(Some("output:a")), "No output device found with ID: output:a");
    assert_eq!(missing_device(Some("a")), "No device found with ID: a");
    assert_eq!(
        macos_system_audio_error("Speakers", "denied"),
        "Failed to start macOS system audio capture for 'Speakers': denied. Native output \
         capture requires macOS 14.6 or newer and System Audio Recording permission."
    );
}

#[test]
fn capture_buffer_holds_ten_seconds() {
    let mut b: CaptureBuffer<i32> = CaptureBuffer::for_sample_rate(2);
    b.extend_samples(&(0..25).collect::<Vec<i32>>());
    assert_eq!(b.len(), 20);
    assert_eq!(b.dropped_samples(), 5);
    let (samples, dropped) = b.drain_all();
    assert_eq!(samples, (5..25).collect::<Vec<i32>>());
    assert_eq!(dropped, 5);
    assert!(b.is_empty());
}
