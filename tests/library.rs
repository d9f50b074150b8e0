use std::sync::Arc;
use ximea_capture::camera::get_offset_for_resolution;
use ximea_capture::capture::clip_dir;
use ximea_capture::config::{NetworkConfig, OutputConfig};
use ximea_capture::error::{AppError, CameraError};
use ximea_capture::frame::{Frame, FrameBuffer, FrameProcessor};
use ximea_capture::messages::TriggerEvent;
use ximea_capture::text::{to_decimal, white_space};

fn frame(seq: u32) -> Arc<Frame> {
    Arc::new(Frame::new(vec![0u8; 4], 2, 2, seq, seq, 0, 0))
}

#[test]
fn ring_buffer_keeps_most_recent() {
    let mut b = FrameBuffer::new(3);
    assert!(b.is_empty());
    for s in 1..=5 {
        b.push(frame(s));
        assert!(b.len() <= 3);
    }
    let snap: Vec<u32> = b.snapshot().iter().map(|f| f.nframe).collect();
    assert_eq!(snap, vec![3, 4, 5]);
    assert_eq!(b.len(), 3);
    assert_eq!(b.capacity(), 3);
    b.clear();
    assert!(b.is_empty());
    assert_eq!(b.capacity(), 3);
}

#[test]
fn zero_capacity_buffer_stays_empty() {
    let mut b = FrameBuffer::new(0);
    b.push(frame(1));
    assert_eq!(b.len(), 0);
}

#[test]
fn snapshot_shares_frames() {
    let mut b = FrameBuffer::new(2);
    let f = frame(9);
    b.push(f.clone());
    let snap = b.snapshot();
    assert!(Arc::ptr_eq(&snap[0], &f));
    assert_eq!(b.len(), 1);
}

#[test]
fn frame_from_raw_checks_size() {
    assert!(FrameProcessor::frame_from_raw(vec![0u8; 12], 4, 3, 1, 1, 0, 0).is_some());
    assert!(FrameProcessor::frame_from_raw(vec![0u8; 13], 4, 3, 1, 1, 0, 0).is_some());
    assert!(FrameProcessor::frame_from_raw(vec![0u8; 11], 4, 3, 1, 1, 0, 0).is_none());
    let f = FrameProcessor::frame_from_raw(vec![7u8; 4], 2, 2, 3, 4, 5, 6).unwrap();
    assert_eq!((f.nframe, f.acq_nframe, f.timestamp_raw, f.exposure_time), (3, 4, 5, 6));
    assert_eq!(f.data, vec![7u8; 4]);
}

#[test]
fn decimal_rendering() {
    assert_eq!(to_decimal(0), "0");
    assert_eq!(to_decimal(7), "7");
    assert_eq!(to_decimal(10), "10");
    assert_eq!(to_decimal(1234567890123), "1234567890123");
    assert_eq!(to_decimal(u64::MAX), u64::MAX.to_string());
}

#[test]
fn white_space_matches_std() {
    for c in ['\t', '\n', ' ', '\u{a0}', '\u{2003}', '\u{3000}', 'a', '{', '\u{200b}'] {
        assert_eq!(white_space(c), c.is_whitespace(), "{:?}", c);
    }
}

#[test]
fn clip_directory_name() {
    assert_eq!(clip_dir("data", &TriggerEvent { obj_id: 1, frame: 100 }), "data/obj_id_1_frame_100");
    assert_eq!(clip_dir("", &TriggerEvent { obj_id: 0, frame: 0 }), "/obj_id_0_frame_0");
}

#[test]
fn offsets_round_up_to_32() {
    assert_eq!(get_offset_for_resolution((4096, 3000), 1920, 1080), Ok((1088, 960)));
    assert_eq!(get_offset_for_resolution((2048, 2048), 2016, 2016), Ok((32, 32)));
    assert_eq!(get_offset_for_resolution((100, 100), 100, 100), Ok((0, 0)));
    assert_eq!(get_offset_for_resolution((100, 100), 0, 2), Ok((64, 64)));
}

#[test]
fn network_config_rules() {
    let mut n = NetworkConfig {
        address: String::from("10.0.0.2"),
        sub_port: String::from("6000"),
        req_port: String::from("6001"),
    };
    assert_eq!(n.subscriber_endpoint(), "tcp://10.0.0.2:6000");
    assert!(n.validate().is_ok());
    n.override_with("127.0.0.1", "7000", "5557");
    assert_eq!(n.address, "10.0.0.2");
    assert_eq!(n.sub_port, "7000");
    assert_eq!(n.req_port, "6001");
    n.sub_port = String::new();
    assert!(matches!(n.validate(), Err(AppError::Config(ref m)) if m == "Network ports cannot be empty"));
}

#[test]
fn output_config_rules() {
    let mut o = OutputConfig { save_folder: String::from("clips") };
    assert!(o.validate().is_ok());
    o.override_with("output");
    assert_eq!(o.save_folder, "clips");
    o.override_with("elsewhere");
    assert_eq!(o.save_folder, "elsewhere");
    o.save_folder.clear();
    assert!(matches!(o.validate(), Err(AppError::Config(ref m)) if m == "Save folder cannot be empty"));
}

#[test]
fn error_constructors() {
    assert!(matches!(CameraError::initialization("a"), CameraError::Initialization(ref m) if m == "a"));
    assert!(matches!(CameraError::configuration("b"), CameraError::Configuration(ref m) if m == "b"));
    assert!(matches!(CameraError::start_acquisition("c"), CameraError::StartAcquisition(ref m) if m == "c"));
    assert!(matches!(CameraError::stop_acquisition("d"), CameraError::StopAcquisition(ref m) if m == "d"));
    assert!(matches!(CameraError::frame_capture("e"), CameraError::FrameCapture(ref m) if m == "e"));
    assert!(matches!(CameraError::not_found(String::from("f")), CameraError::NotFound(ref m) if m == "f"));
    assert!(matches!(AppError::config("g"), AppError::Config(ref m) if m == "g"));
    assert!(matches!(AppError::frame_processing("h"), AppError::FrameProcessing(ref m) if m == "h"));
    assert!(matches!(AppError::video_saving("i"), AppError::VideoSaving(ref m) if m == "i"));
    assert!(matches!(AppError::unknown("j"), AppError::Unknown(ref m) if m == "j"));
    let e: AppError = CameraError::not_found("k").into();
    assert!(matches!(e, AppError::Camera(CameraError::NotFound(ref m)) if m == "k"));
}
