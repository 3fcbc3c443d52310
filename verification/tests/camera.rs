use std::sync::atomic::{AtomicUsize, Ordering};
use std::sync::Arc;

use vmm_io::camera_backend::{
    get_format_by_index, CamBasicFmt, CamFmt, CamLensFmt, CamPUFmt, CameraBrokenCallback,
    CameraCallback, CameraError, CameraFormatList, CameraFrame, CameraHostdevOps, CameraNotifyCallback, FmtType,
    INTERVALS_PER_SEC,
};
use vmm_io::hostmem::{iov_from_buf_direct, Iovec};

#[test]
fn format_index_selects_encoding_and_rate() {
    assert_eq!(
        get_format_by_index(1, 1),
        Ok(CamBasicFmt { width: 960, height: 540, fps: 30, fmttype: FmtType::Mjpg })
    );
    assert_eq!(
        get_format_by_index(1, 3),
        Ok(CamBasicFmt { width: 640, height: 480, fps: 30, fmttype: FmtType::Mjpg })
    );
    assert_eq!(
        get_format_by_index(2, 1),
        Ok(CamBasicFmt { width: 960, height: 540, fps: 5, fmttype: FmtType::Uncompressed })
    );
    assert_eq!(
        get_format_by_index(2, 2),
        Ok(CamBasicFmt { width: 1280, height: 720, fps: 10, fmttype: FmtType::Uncompressed })
    );
    assert_eq!(
        get_format_by_index(2, 3),
        Ok(CamBasicFmt { width: 640, height: 480, fps: 30, fmttype: FmtType::Uncompressed })
    );
}

#[test]
fn bad_indexes_are_reported() {
    assert_eq!(get_format_by_index(0, 1), Err(CameraError::InvalidFormatIndex(0)));
    assert_eq!(get_format_by_index(3, 1), Err(CameraError::InvalidFormatIndex(3)));
    assert_eq!(get_format_by_index(1, 0), Err(CameraError::InvalidFrameIndex(0)));
    assert_eq!(get_format_by_index(2, 4), Err(CameraError::InvalidFrameIndex(4)));
    assert_eq!(get_format_by_index(2, 255), Err(CameraError::InvalidFrameIndex(255)));
    // The format index is looked at first.
    assert_eq!(get_format_by_index(9, 9), Err(CameraError::InvalidFormatIndex(9)));
}

#[test]
fn frame_interval_is_units_per_second_over_rate() {
    let mut fmt = CamBasicFmt::default();
    assert_eq!(fmt.get_frame_intervals(), Err(CameraError::InvalidFps));
    fmt.fps = 30;
    assert_eq!(fmt.get_frame_intervals(), Ok(333_333));
    fmt.fps = 5;
    assert_eq!(fmt.get_frame_intervals(), Ok(2_000_000));
    fmt.fps = 7;
    assert_eq!(fmt.get_frame_intervals(), Ok(INTERVALS_PER_SEC / 7));
    fmt.fps = u32::MAX;
    assert_eq!(fmt.get_frame_intervals(), Ok(0));
}

#[test]
fn new_format_is_all_zero() {
    let fmt = CamFmt::new();
    assert_eq!(
        fmt.basic_fmt,
        CamBasicFmt { width: 0, height: 0, fps: 0, fmttype: FmtType::Uncompressed }
    );
    assert_eq!(fmt.pu_fmt, CamPUFmt { bright: 0, contrast: 0, hue: 0, saturatio: 0 });
    assert_eq!(fmt.lens_fmt, CamLensFmt { focus: 0, zoom: 0 });
    assert_eq!(fmt, CamFmt::default());
    assert_eq!(FmtType::default(), FmtType::Uncompressed);
}

struct Counter(Arc<AtomicUsize>);

impl CameraCallback for Counter {
    fn call(&self) {
        self.0.fetch_add(1, Ordering::SeqCst);
    }
}

struct StillCamera {
    frame: Vec<u8>,
    fmt: CamBasicFmt,
    streaming: bool,
    notify: Option<CameraNotifyCallback>,
    broken: Option<CameraBrokenCallback>,
}

impl CameraHostdevOps for StillCamera {
    fn init(&self) -> Result<(), CameraError> {
        Ok(())
    }
    fn is_camera(&self) -> Result<bool, CameraError> {
        Ok(true)
    }
    fn get_fmt(&self) -> Result<(), CameraError> {
        Ok(())
    }
    fn set_fmt(&mut self, fmt: &CamBasicFmt) -> Result<(), CameraError> {
        self.fmt = *fmt;
        Ok(())
    }
    fn set_ctl(&self) -> Result<(), CameraError> {
        Ok(())
    }
    fn video_stream_on(&mut self) -> Result<(), CameraError> {
        self.streaming = true;
        if let Some(cb) = &self.notify {
            cb.call();
        }
        Ok(())
    }
    fn video_stream_off(&mut self) -> Result<(), CameraError> {
        self.streaming = false;
        Ok(())
    }
    fn list_format(&mut self) -> Result<Vec<CameraFormatList>, CameraError> {
        let mut frames = Vec::new();
        for index in 1..=3 {
            let fmt = get_format_by_index(2, index)?;
            frames.push(CameraFrame {
                width: fmt.width,
                height: fmt.height,
                interval: fmt.get_frame_intervals()?,
            });
        }
        Ok(vec![CameraFormatList { format: FmtType::Uncompressed, frame: frames }])
    }
    fn reset(&mut self) {
        self.streaming = false;
        if let Some(cb) = &self.broken {
            cb.call();
        }
    }
    fn get_frame_size(&self) -> usize {
        self.frame.len()
    }
    fn get_frame(
        &self,
        mem: &mut [u8],
        base: u64,
        iovecs: &[Iovec],
        frame_offset: usize,
        len: usize,
    ) -> Result<usize, CameraError> {
        if frame_offset + len > self.frame.len() {
            return Err(CameraError::Backend);
        }
        iov_from_buf_direct(mem, base, iovecs, &self.frame[frame_offset..frame_offset + len])
            .map_err(|_| CameraError::Backend)
    }
    fn next_frame(&mut self) -> Result<(), CameraError> {
        Ok(())
    }
    fn register_notify_cb(&mut self, cb: CameraNotifyCallback) {
        self.notify = Some(cb);
    }
    fn register_broken_cb(&mut self, cb: CameraBrokenCallback) {
        self.broken = Some(cb);
    }
}

#[test]
fn a_backend_delivers_frames_into_guest_ranges() {
    let mut cam = StillCamera {
        frame: (0..16u8).collect(),
        fmt: CamBasicFmt::default(),
        streaming: false,
        notify: None,
        broken: None,
    };
    let seen = Arc::new(AtomicUsize::new(0));
    cam.register_notify_cb(Arc::new(Counter(seen.clone())));
    cam.register_broken_cb(Arc::new(Counter(seen.clone())));
    cam.set_fmt(&get_format_by_index(2, 2).unwrap()).unwrap();
    cam.video_stream_on().unwrap();
    assert_eq!(seen.load(Ordering::SeqCst), 1);
    assert_eq!(cam.get_frame_size(), 16);

    let mut mem = vec![0xffu8; 32];
    let iovecs = [
        Iovec { iov_base: 0x1000 + 4, iov_len: 3 },
        Iovec { iov_base: 0x1000 + 20, iov_len: 8 },
    ];
    assert_eq!(cam.get_frame(&mut mem, 0x1000, &iovecs, 2, 6), Ok(6));
    assert_eq!(&mem[4..7], &[2, 3, 4]);
    assert_eq!(&mem[20..23], &[5, 6, 7]);
    assert_eq!(mem[23], 0xff);
    assert_eq!(mem[7], 0xff);

    cam.reset();
    assert_eq!(seen.load(Ordering::SeqCst), 2);

    let formats = cam.list_format().unwrap();
    assert_eq!(formats.len(), 1);
    assert_eq!(
        formats[0].frame,
        vec![
            CameraFrame { width: 960, height: 540, interval: 2_000_000 },
            CameraFrame { width: 1280, height: 720, interval: 1_000_000 },
            CameraFrame { width: 640, height: 480, interval: 333_333 },
        ]
    );
}
