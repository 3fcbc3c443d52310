//! Formats that camera backends offer to the frontends, and the operations
//! every backend provides.

use crate::hostmem::Iovec;
use std::sync::Arc;
use vstd::prelude::*;

verus! {

/// Frame intervals are counted in units of 100ns.
pub const INTERVALS_PER_SEC: u32 = 10_000_000;

/// Why a camera format request was turned down.
#[derive(Debug, Clone, Copy, PartialEq, Eq)]
pub enum CameraError {
    /// The format has a frame rate of zero.
    InvalidFps,
    /// No format is registered under this index.
    InvalidFormatIndex(u8),
    /// No frame size is registered under this index.
    InvalidFrameIndex(u8),
    /// The backend could not carry out the operation.
    Backend,
}

/// Pixel encoding of a frame.
#[derive(Debug, Clone, Copy, PartialEq, Eq)]
pub enum FmtType {
    Uncompressed,
    Mjpg,
}

impl Default for FmtType {
    fn default() -> (r: Self)
        ensures
            r == FmtType::Uncompressed,
    {
        FmtType::Uncompressed
    }
}

/// Frame size, encoding and frame rate.
#[derive(Debug, Clone, Copy, PartialEq, Eq)]
pub struct CamBasicFmt {
    pub width: u32,
    pub height: u32,
    pub fps: u32,
    pub fmttype: FmtType,
}

impl Default for CamBasicFmt {
    fn default() -> (r: Self)
        ensures
            r == (CamBasicFmt { width: 0, height: 0, fps: 0, fmttype: FmtType::Uncompressed }),
    {
        CamBasicFmt { width: 0, height: 0, fps: 0, fmttype: FmtType::Uncompressed }
    }
}

impl CamBasicFmt {
    /// Time between two frames, in units of 100ns.
    pub fn get_frame_intervals(&self) -> (r: Result<u32, CameraError>)
        ensures
            self.fps == 0 ==> r == Err::<u32, CameraError>(CameraError::InvalidFps),
            self.fps != 0 ==> r == Ok::<u32, CameraError>((INTERVALS_PER_SEC / self.fps) as u32),
    {
        if self.fps == 0 {
            return Err(CameraError::InvalidFps);
        }
        Ok(INTERVALS_PER_SEC / self.fps)
    }
}

/// Processing-unit settings.
#[derive(Debug, Clone, Copy, PartialEq, Eq)]
pub struct CamPUFmt {
    pub bright: u64,
    pub contrast: u64,
    pub hue: u64,
    pub saturatio: u64,
}

impl Default for CamPUFmt {
    fn default() -> (r: Self)
        ensures
            r == (CamPUFmt { bright: 0, contrast: 0, hue: 0, saturatio: 0 }),
    {
        CamPUFmt { bright: 0, contrast: 0, hue: 0, saturatio: 0 }
    }
}

/// Camera-terminal settings.
#[derive(Debug, Clone, Copy, PartialEq, Eq)]
pub struct CamLensFmt {
    pub focus: u64,
    pub zoom: u64,
}

impl Default for CamLensFmt {
    fn default() -> (r: Self)
        ensures
            r == (CamLensFmt { focus: 0, zoom: 0 }),
    {
        CamLensFmt { focus: 0, zoom: 0 }
    }
}

/// Everything a camera can be configured with.
#[derive(Debug, Clone, Copy, PartialEq, Eq)]
pub struct CamFmt {
    pub basic_fmt: CamBasicFmt,
    pub pu_fmt: CamPUFmt,
    pub lens_fmt: CamLensFmt,
}

impl CamFmt {
    /// The format with every setting at zero and uncompressed frames.
    pub fn new() -> (r: Self)
        ensures
            r.basic_fmt == (CamBasicFmt {
                width: 0,
                height: 0,
                fps: 0,
                fmttype: FmtType::Uncompressed,
            }),
            r.pu_fmt == (CamPUFmt { bright: 0, contrast: 0, hue: 0, saturatio: 0 }),
            r.lens_fmt == (CamLensFmt { focus: 0, zoom: 0 }),
    {
        CamFmt {
            basic_fmt: CamBasicFmt::default(),
            pu_fmt: CamPUFmt::default(),
            lens_fmt: CamLensFmt::default(),
        }
    }
}

impl Default for CamFmt {
    fn default() -> (r: Self)
        ensures
            r.basic_fmt == (CamBasicFmt {
                width: 0,
                height: 0,
                fps: 0,
                fmttype: FmtType::Uncompressed,
            }),
            r.pu_fmt == (CamPUFmt { bright: 0, contrast: 0, hue: 0, saturatio: 0 }),
            r.lens_fmt == (CamLensFmt { focus: 0, zoom: 0 }),
    {
        CamFmt::new()
    }
}

/// One frame size with its frame interval.
#[derive(Debug, Clone, Copy, PartialEq, Eq)]
pub struct CameraFrame {
    pub width: u32,
    pub height: u32,
    pub interval: u32,
}

/// The frame sizes a backend offers in one encoding.
#[derive(Debug, Clone, PartialEq, Eq)]
pub struct CameraFormatList {
    pub format: FmtType,
    pub frame: Vec<CameraFrame>,
}

/// Something to call back from whichever thread the backend runs on.
pub trait CameraCallback: Send + Sync {
    fn call(&self);
}

/// Called when frame data has arrived.
pub type CameraNotifyCallback = Arc<dyn CameraCallback>;

/// Called when the backend has broken down.
pub type CameraBrokenCallback = Arc<dyn CameraCallback>;

/// What every camera backend provides, whatever device stands behind it.
pub trait CameraHostdevOps: Send + Sync {
    fn init(&self) -> Result<(), CameraError>;

    fn is_camera(&self) -> Result<bool, CameraError>;

    fn get_fmt(&self) -> Result<(), CameraError>;

    /// Sets a specific format.
    fn set_fmt(&mut self, fmt: &CamBasicFmt) -> Result<(), CameraError>;

    fn set_ctl(&self) -> Result<(), CameraError>;

    /// Turns the stream on, so that frames start to arrive.
    fn video_stream_on(&mut self) -> Result<(), CameraError>;

    /// Turns the stream off.
    fn video_stream_off(&mut self) -> Result<(), CameraError>;

    /// Lists all formats that the backend supports.
    fn list_format(&mut self) -> Result<Vec<CameraFormatList>, CameraError>;

    /// Resets the device.
    fn reset(&mut self);

    /// Total size of the current frame.
    fn get_frame_size(&self) -> usize;

    /// Copies `len` bytes of the current frame, from `frame_offset` on, to the
    /// ranges `iovecs` of the window `mem`, and returns how many were copied.
    fn get_frame(
        &self,
        mem: &mut [u8],
        base: u64,
        iovecs: &[Iovec],
        frame_offset: usize,
        len: usize,
    ) -> Result<usize, CameraError>;

    /// Moves on to the next frame once the current one has been read.
    fn next_frame(&mut self) -> Result<(), CameraError>;

    /// Registers the callback for arriving data.
    fn register_notify_cb(&mut self, cb: CameraNotifyCallback);

    /// Registers the callback for a broken backend.
    fn register_broken_cb(&mut self, cb: CameraBrokenCallback);
}

/// The encoding registered under `format_index`, if there is one.
pub open spec fn format_of_index(format_index: u8) -> Option<FmtType> {
    if format_index == 1 {
        Some(FmtType::Mjpg)
    } else if format_index == 2 {
        Some(FmtType::Uncompressed)
    } else {
        None
    }
}

/// Width and height registered under `frame_index`, if there are any.
pub open spec fn frame_size_of_index(frame_index: u8) -> Option<(u32, u32)> {
    if frame_index == 1 {
        Some((960u32, 540u32))
    } else if frame_index == 2 {
        Some((1280u32, 720u32))
    } else if frame_index == 3 {
        Some((640u32, 480u32))
    } else {
        None
    }
}

/// Frame rate of the format and frame size under the two indexes: compressed
/// frames always come at 30 per second, uncompressed ones slower the larger
/// they are.
pub open spec fn fps_of_index(format_index: u8, frame_index: u8) -> u32 {
    if format_index == 1 {
        30
    } else if frame_index == 1 {
        5
    } else if frame_index == 2 {
        10
    } else {
        30
    }
}

/// The format that the pair of indexes selects. The format index is looked at
/// first, so a pair with two bad indexes reports the format index.
pub open spec fn format_by_index(format_index: u8, frame_index: u8) -> Result<
    CamBasicFmt,
    CameraError,
> {
    match format_of_index(format_index) {
        None => Err(CameraError::InvalidFormatIndex(format_index)),
        Some(fmttype) => match frame_size_of_index(frame_index) {
            None => Err(CameraError::InvalidFrameIndex(frame_index)),
            Some(size) => Ok(
                CamBasicFmt {
                    width: size.0,
                    height: size.1,
                    fps: fps_of_index(format_index, frame_index),
                    fmttype,
                },
            ),
        },
    }
}

/// Looks up the format that a frontend selected by its two one-based indexes.
pub fn get_format_by_index(format_index: u8, frame_index: u8) -> (r: Result<
    CamBasicFmt,
    CameraError,
>)
    ensures
        r == format_by_index(format_index, frame_index),
{
    let fmttype = if format_index == 1 {
        FmtType::Mjpg
    } else if format_index == 2 {
        FmtType::Uncompressed
    } else {
        return Err(CameraError::InvalidFormatIndex(format_index));
    };

    let width_height_list: [(u32, u32); 3] = [(960, 540), (1280, 720), (640, 480)];
    let fps_list: [u32; 3] = [5, 10, 30];
    if frame_index == 0 || frame_index > 3 {
        return Err(CameraError::InvalidFrameIndex(frame_index));
    }
    let slot: usize = (frame_index - 1) as usize;
    let fps: u32 = if format_index == 1 {
        30
    } else {
        fps_list[slot]
    };

    Ok(
        CamBasicFmt {
            width: width_height_list[slot].0,
            height: width_height_list[slot].1,
            fmttype,
            fps,
        },
    )
}

} // verus!
