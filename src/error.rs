//! Error types of the camera side and of the application as a whole.

use vstd::prelude::*;
use vstd::std_specs::convert::IntoSpec;

verus! {

/// Failures of the camera (the frame source).
#[derive(Debug)]
pub enum CameraError {
    Initialization(String),
    Configuration(String),
    StartAcquisition(String),
    StopAcquisition(String),
    FrameCapture(String),
    NotFound(String),
}

impl CameraError {
    pub fn initialization<M: Into<String>>(msg: M) -> (r: CameraError)
        ensures
            r is Initialization,
            M::obeys_into_spec() ==> r == CameraError::Initialization(msg.into_spec()),
    {
        CameraError::Initialization(msg.into())
    }

    pub fn configuration<M: Into<String>>(msg: M) -> (r: CameraError)
        ensures
            r is Configuration,
            M::obeys_into_spec() ==> r == CameraError::Configuration(msg.into_spec()),
    {
        CameraError::Configuration(msg.into())
    }

    pub fn start_acquisition<M: Into<String>>(msg: M) -> (r: CameraError)
        ensures
            r is StartAcquisition,
            M::obeys_into_spec() ==> r == CameraError::StartAcquisition(msg.into_spec()),
    {
        CameraError::StartAcquisition(msg.into())
    }

    pub fn stop_acquisition<M: Into<String>>(msg: M) -> (r: CameraError)
        ensures
            r is StopAcquisition,
            M::obeys_into_spec() ==> r == CameraError::StopAcquisition(msg.into_spec()),
    {
        CameraError::StopAcquisition(msg.into())
    }

    pub fn frame_capture<M: Into<String>>(msg: M) -> (r: CameraError)
        ensures
            r is FrameCapture,
            M::obeys_into_spec() ==> r == CameraError::FrameCapture(msg.into_spec()),
    {
        CameraError::FrameCapture(msg.into())
    }

    pub fn not_found<M: Into<String>>(msg: M) -> (r: CameraError)
        ensures
            r is NotFound,
            M::obeys_into_spec() ==> r == CameraError::NotFound(msg.into_spec()),
    {
        CameraError::NotFound(msg.into())
    }
}

/// Errors of the application as a whole. Failures of outside services are
/// kept as their description.
#[derive(Debug)]
pub enum AppError {
    Camera(CameraError),
    Config(String),
    FrameProcessing(String),
    VideoSaving(String),
    ZmqCommunication(String),
    Io(String),
    Serialization(String),
    Unknown(String),
}

impl From<CameraError> for AppError {
    fn from(e: CameraError) -> (r: AppError) {
        AppError::Camera(e)
    }
}

impl vstd::std_specs::convert::FromSpecImpl<CameraError> for AppError {
    open spec fn obeys_from_spec() -> bool {
        true
    }

    open spec fn from_spec(e: CameraError) -> AppError {
        AppError::Camera(e)
    }
}

impl AppError {
    pub fn config<M: Into<String>>(msg: M) -> (r: AppError)
        ensures
            r is Config,
            M::obeys_into_spec() ==> r == AppError::Config(msg.into_spec()),
    {
        AppError::Config(msg.into())
    }

    pub fn frame_processing<M: Into<String>>(msg: M) -> (r: AppError)
        ensures
            r is FrameProcessing,
            M::obeys_into_spec() ==> r == AppError::FrameProcessing(msg.into_spec()),
    {
        AppError::FrameProcessing(msg.into())
    }

    pub fn video_saving<M: Into<String>>(msg: M) -> (r: AppError)
        ensures
            r is VideoSaving,
            M::obeys_into_spec() ==> r == AppError::VideoSaving(msg.into_spec()),
    {
        AppError::VideoSaving(msg.into())
    }

    pub fn unknown<M: Into<String>>(msg: M) -> (r: AppError)
        ensures
            r is Unknown,
            M::obeys_into_spec() ==> r == AppError::Unknown(msg.into_spec()),
    {
        AppError::Unknown(msg.into())
    }
}

} // verus!
