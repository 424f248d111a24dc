//! The camera module's decisions: its parameters and how the values written
//! to its outputs change them, the command line of the capture program, and
//! the state machine that switches between the disabled picture and the
//! live stream.
use vstd::prelude::*;
use vstd::string::*;
use crate::ieee::{FloatBits, is_nan_bits, ieee_min, ieee_max, order_key, ZERO_BITS, SIGN_BIT};
use crate::transform::ieee_le;
use crate::text::{decimal, decimal_string, resolution_spec, parse_resolution};

verus! {

/// Bit pattern of `1.0`.
pub const ONE_F64_BITS: u64 = 0x3FF0_0000_0000_0000u64;
/// Bit pattern of `60.0`.
pub const SIXTY_F64_BITS: u64 = 0x404E_0000_0000_0000u64;
/// Bit pattern of `100.0`.
pub const HUNDRED_F64_BITS: u64 = 0x4059_0000_0000_0000u64;

/// The integer part of a number that is at least zero: the significand
/// `1.m` scaled by `2^(e - 1023)` and cut toward zero (zero when `e < 1023`,
/// which covers both zeros and every value below one).
pub open spec fn float_trunc(b: u64) -> u64 {
    let mag = b & 0x7FFF_FFFF_FFFF_FFFFu64;
    let e = mag >> 52u64;
    if e < 1023 {
        0
    } else {
        ((mag & 0x000F_FFFF_FFFF_FFFFu64) | 0x0010_0000_0000_0000u64) >> ((1075 - e) as u64)
    }
}

/// `x as u8` for a number between zero and one hundred.
pub fn small_float_to_u8(x: FloatBits) -> (r: u8)
    requires
        ieee_le(ZERO_BITS, x.bits),
        ieee_le(x.bits, HUNDRED_F64_BITS),
    ensures
        r as u64 == float_trunc(x.bits),
        r <= 100,
{
    let b = x.bits;
    let mag = b & 0x7FFF_FFFF_FFFF_FFFFu64;
    let e = mag >> 52u64;
    proof {
        // a number in range has no sign bit unless it is a zero, and its
        // magnitude is at most that of one hundred
        assert(mag <= HUNDRED_F64_BITS) by {
            if b >= SIGN_BIT {
                assert(b & 0x7FFF_FFFF_FFFF_FFFFu64 == b - SIGN_BIT) by (bit_vector)
                    requires b >= 0x8000_0000_0000_0000u64;
            } else {
                assert(b & 0x7FFF_FFFF_FFFF_FFFFu64 == b) by (bit_vector)
                    requires b < 0x8000_0000_0000_0000u64;
            }
        }
        assert(e <= 1029) by (bit_vector)
            requires mag <= 0x4059_0000_0000_0000u64, e == mag >> 52u64;
    }
    if e < 1023 {
        return 0;
    }
    let shift: u64 = 1075 - e;
    let v = ((mag & 0x000F_FFFF_FFFF_FFFFu64) | 0x0010_0000_0000_0000u64) >> shift;
    assert(v <= 100) by (bit_vector)
        requires
            mag <= 0x4059_0000_0000_0000u64,
            e == mag >> 52u64,
            1023 <= e,
            shift == 1075 - e,
            v == ((mag & 0x000F_FFFF_FFFF_FFFFu64) | 0x0010_0000_0000_0000u64) >> shift;
    v as u8
}

/// The camera's settings.
#[derive(Clone, Copy, Debug)]
pub struct CameraParams {
    pub enabled: bool,
    /// from 0 to 100 inclusive
    pub q: u8,
    /// from 1 to 60 inclusive
    pub framerate: u8,
    /// resolution width
    pub w: usize,
    /// resolution height
    pub h: usize,
}

/// The arguments of the capture program for `p`.
pub open spec fn libcamera_args(p: CameraParams) -> Seq<Seq<char>> {
    seq![
        "--rotation"@, "180"@,
        "--codec"@, "mjpeg"@,
        "--tuning-file"@, "/usr/share/libcamera/ipa/rpi/vc4/imx219_noir.json"@,
        "--mode"@, "3280:2464:10:U"@,
        "-q"@, decimal(p.q as nat),
        "--framerate"@, decimal(p.framerate as nat),
        "--width"@, decimal(p.w as nat),
        "--height"@, decimal(p.h as nat),
        "-t"@, "0"@,
        "-n"@,
        "--flush"@,
        "-o"@, "-"@
    ]
}

/// `q.max(0.0).min(100.0) as u8`: the quality a written value sets.
pub open spec fn quality_of(q: u64) -> u64 {
    float_trunc(ieee_min(ieee_max(q, ZERO_BITS), HUNDRED_F64_BITS))
}

/// `f.max(1.0).min(60.0) as u8`: the frame rate a written value sets.
pub open spec fn framerate_of(f: u64) -> u64 {
    float_trunc(ieee_min(ieee_max(f, ONE_F64_BITS), SIXTY_F64_BITS))
}

/// The texts of a list of strings.
pub open spec fn arg_texts(v: Seq<String>) -> Seq<Seq<char>> {
    v.map_values(|s: String| s@)
}

/// A clamped value is a number within the bounds.
proof fn lemma_clamped_in_range(x: u64, lo: u64, hi: u64)
    requires
        ieee_le(lo, hi),
    ensures
        ieee_le(lo, ieee_min(ieee_max(x, lo), hi)),
        ieee_le(ieee_min(ieee_max(x, lo), hi), hi),
{
}

impl CameraParams {
    /// Disabled, quality 50, five frames a second, 640 by 480.
    pub fn default() -> (r: Self)
        ensures
            r == (CameraParams { enabled: false, q: 50, framerate: 5, w: 640, h: 480 }),
    {
        CameraParams { enabled: false, q: 50, framerate: 5, w: 640, h: 480 }
    }

    /// The command-line arguments of the capture program.
    pub fn get_libcamera_params(&self) -> (r: Vec<String>)
        ensures
            arg_texts(r@) == libcamera_args(*self),
    {
        let mut params: Vec<String> = Vec::with_capacity(50);
        params.push(String::from_str("--rotation"));
        params.push(String::from_str("180"));
        params.push(String::from_str("--codec"));
        params.push(String::from_str("mjpeg"));
        params.push(String::from_str("--tuning-file"));
        params.push(String::from_str("/usr/share/libcamera/ipa/rpi/vc4/imx219_noir.json"));
        params.push(String::from_str("--mode"));
        params.push(String::from_str("3280:2464:10:U"));
        params.push(String::from_str("-q"));
        params.push(decimal_string(self.q as u64));
        params.push(String::from_str("--framerate"));
        params.push(decimal_string(self.framerate as u64));
        params.push(String::from_str("--width"));
        params.push(decimal_string(self.w as u64));
        params.push(String::from_str("--height"));
        params.push(decimal_string(self.h as u64));
        params.push(String::from_str("-t"));
        params.push(String::from_str("0"));
        params.push(String::from_str("-n"));
        params.push(String::from_str("--flush"));
        params.push(String::from_str("-o"));
        params.push(String::from_str("-"));
        proof {
            assert(arg_texts(params@) =~= libcamera_args(*self));
        }
        params
    }

    /// These settings with the camera switched on or off.
    pub fn with_enabled(&self, enabled: bool) -> (r: Self)
        ensures
            r == (CameraParams { enabled, ..*self }),
    {
        CameraParams { enabled, ..*self }
    }

    /// These settings with the quality that the written value `q` sets.
    pub fn with_quality(&self, q: FloatBits) -> (r: Self)
        ensures
            r == (CameraParams { q: quality_of(q.bits) as u8, ..*self }),
            r.q <= 100,
    {
        let c = q.max(&FloatBits::zero()).min(&FloatBits::from_bits(HUNDRED_F64_BITS));
        proof {
            lemma_clamped_in_range(q.bits, ZERO_BITS, HUNDRED_F64_BITS);
        }
        let v = small_float_to_u8(c);
        CameraParams { q: v, ..*self }
    }

    /// These settings with the frame rate that the written value `f` sets.
    pub fn with_framerate(&self, f: FloatBits) -> (r: Self)
        ensures
            r == (CameraParams { framerate: framerate_of(f.bits) as u8, ..*self }),
            1 <= r.framerate <= 60,
    {
        let c = f.max(&FloatBits::from_bits(ONE_F64_BITS)).min(&FloatBits::from_bits(SIXTY_F64_BITS));
        proof {
            lemma_clamped_in_range(f.bits, ONE_F64_BITS, SIXTY_F64_BITS);
            let cb = c.bits;
            // between one and sixty the integer part is between one and sixty
            assert(1 <= float_trunc(cb) <= 60) by {
                let mag = cb & 0x7FFF_FFFF_FFFF_FFFFu64;
                assert(cb < SIGN_BIT);
                assert(mag == cb) by (bit_vector)
                    requires cb < 0x8000_0000_0000_0000u64, mag == cb & 0x7FFF_FFFF_FFFF_FFFFu64;
                assert(0x3FF0_0000_0000_0000u64 <= mag && mag <= 0x404E_0000_0000_0000u64);
                let e = mag >> 52u64;
                assert(1023 <= e && e <= 1028) by (bit_vector)
                    requires 0x3FF0_0000_0000_0000u64 <= mag, mag <= 0x404E_0000_0000_0000u64, e == mag >> 52u64;
                let v = ((mag & 0x000F_FFFF_FFFF_FFFFu64) | 0x0010_0000_0000_0000u64) >> ((1075 - e) as u64);
                assert(1 <= v && v <= 60) by (bit_vector)
                    requires
                        0x3FF0_0000_0000_0000u64 <= mag,
                        mag <= 0x404E_0000_0000_0000u64,
                        e == mag >> 52u64,
                        1023 <= e <= 1028,
                        v == ((mag & 0x000F_FFFF_FFFF_FFFFu64) | 0x0010_0000_0000_0000u64) >> ((1075 - e) as u64);
            }
        }
        let v = small_float_to_u8(c);
        CameraParams { framerate: v, ..*self }
    }

    /// These settings with the resolution written as `WIDTHxHEIGHT`, or
    /// `None` when the text is not such a resolution.
    pub fn with_resolution(&self, resolution: &str) -> (r: Option<Self>)
        ensures
            match resolution_spec(resolution@) {
                Some((w, h)) => r == Some(CameraParams { w, h, ..*self }),
                None => r is None,
            },
    {
        match parse_resolution(resolution) {
            Some((w, h)) => Some(CameraParams { w, h, ..*self }),
            None => None,
        }
    }
}

/// What the camera is doing.
#[derive(Clone, Copy, Debug)]
pub enum CameraMode {
    /// Showing the disabled picture; `holds_frames` while it still holds the
    /// frame channel (it hands it back when the settings change).
    Disabled { holds_frames: bool },
    /// The capture program is (or is about to be) streaming.
    Streaming,
}

/// Something the camera task has to do.
pub enum CameraAction {
    /// Show a generated test picture with a caption.
    ShowTestFrame { w: usize, h: usize, q: u8, text: String },
    /// Hand the frame channel back: a `StreamFinished` event follows.
    ReturnFrames,
    /// Stop the capture program: a `StreamFinished` event follows.
    CancelStream,
    /// Run `program` with `args`, splitting its output into frames.
    StartStream { program: String, args: Vec<String> },
}

/// What happened to the camera task.
pub enum CameraEvent {
    ParamsUpdated(CameraParams),
    StreamFinished,
}

/// The camera task's state: the current settings and what it is doing.
pub struct CameraManager {
    pub params: CameraParams,
    pub mode: CameraMode,
}

/// The content of an action.
pub enum ActionView {
    ShowTestFrame { w: usize, h: usize, q: u8, text: Seq<char> },
    ReturnFrames,
    CancelStream,
    StartStream { program: Seq<char>, args: Seq<Seq<char>> },
}

pub open spec fn action_view(a: CameraAction) -> ActionView {
    match a {
        CameraAction::ShowTestFrame { w, h, q, text } => ActionView::ShowTestFrame { w, h, q, text: text@ },
        CameraAction::ReturnFrames => ActionView::ReturnFrames,
        CameraAction::CancelStream => ActionView::CancelStream,
        CameraAction::StartStream { program, args } => ActionView::StartStream { program: program@, args: arg_texts(args@) },
    }
}

pub open spec fn actions_view(v: Seq<CameraAction>) -> Seq<ActionView> {
    v.map_values(|a: CameraAction| action_view(a))
}

/// The picture shown while the camera is off.
pub open spec fn disabled_frame(p: CameraParams) -> ActionView {
    ActionView::ShowTestFrame { w: p.w, h: p.h, q: p.q, text: "camera disabled"@ }
}

/// The picture shown while the stream starts.
pub open spec fn starting_frame(p: CameraParams) -> ActionView {
    ActionView::ShowTestFrame { w: p.w, h: p.h, q: p.q, text: "starting camera stream..."@ }
}

/// The state and actions that an event leads to.
pub open spec fn camera_step(params: CameraParams, mode: CameraMode, e: CameraEvent)
    -> (CameraParams, CameraMode, Seq<ActionView>)
{
    match e {
        CameraEvent::ParamsUpdated(p) => match mode {
            CameraMode::Disabled { holds_frames } => if holds_frames {
                (p, CameraMode::Disabled { holds_frames: false }, seq![ActionView::ReturnFrames])
            } else {
                (p, mode, Seq::empty())
            },
            CameraMode::Streaming => (p, mode, seq![ActionView::CancelStream]),
        },
        CameraEvent::StreamFinished => if !params.enabled {
            (params, CameraMode::Disabled { holds_frames: true }, seq![disabled_frame(params)])
        } else {
            (params, CameraMode::Streaming, seq![
                starting_frame(params),
                ActionView::StartStream { program: "libcamera-vid"@, args: libcamera_args(params) },
            ])
        },
    }
}

impl CameraManager {
    /// The camera starts disabled with the default settings, showing the
    /// disabled picture.
    pub fn start() -> (r: (Self, Vec<CameraAction>))
        ensures
            r.0.params == CameraParams::default_spec(),
            r.0.mode == (CameraMode::Disabled { holds_frames: true }),
            actions_view(r.1@) == seq![disabled_frame(CameraParams::default_spec())],
    {
        let params = CameraParams::default();
        let mut actions: Vec<CameraAction> = Vec::new();
        actions.push(CameraAction::ShowTestFrame {
            w: params.w, h: params.h, q: params.q, text: String::from_str("camera disabled"),
        });
        proof {
            assert(actions_view(actions@) =~= seq![disabled_frame(params)]);
        }
        (CameraManager { params, mode: CameraMode::Disabled { holds_frames: true } }, actions)
    }

    /// Takes an event: updates the state and returns what to do.
    pub fn step(&mut self, e: CameraEvent) -> (r: Vec<CameraAction>)
        ensures
            (final(self).params, final(self).mode, actions_view(r@)) == camera_step(old(self).params, old(self).mode, e),
    {
        match e {
            CameraEvent::ParamsUpdated(p) => {
                self.params = p;
                let mut actions: Vec<CameraAction> = Vec::new();
                match self.mode {
                    CameraMode::Disabled { holds_frames } => {
                        if holds_frames {
                            self.mode = CameraMode::Disabled { holds_frames: false };
                            actions.push(CameraAction::ReturnFrames);
                        }
                    },
                    CameraMode::Streaming => {
                        actions.push(CameraAction::CancelStream);
                    },
                }
                proof {
                    assert(actions_view(actions@) =~= camera_step(old(self).params, old(self).mode, e).2);
                }
                actions
            },
            CameraEvent::StreamFinished => {
                let p = self.params;
                let mut actions: Vec<CameraAction> = Vec::new();
                if !p.enabled {
                    self.mode = CameraMode::Disabled { holds_frames: true };
                    actions.push(CameraAction::ShowTestFrame {
                        w: p.w, h: p.h, q: p.q, text: String::from_str("camera disabled"),
                    });
                } else {
                    self.mode = CameraMode::Streaming;
                    actions.push(CameraAction::ShowTestFrame {
                        w: p.w, h: p.h, q: p.q, text: String::from_str("starting camera stream..."),
                    });
                    actions.push(CameraAction::StartStream {
                        program: String::from_str("libcamera-vid"),
                        args: p.get_libcamera_params(),
                    });
                }
                proof {
                    assert(actions_view(actions@) =~= camera_step(old(self).params, old(self).mode, e).2);
                }
                actions
            },
        }
    }
}

impl CameraParams {
    pub open spec fn default_spec() -> CameraParams {
        CameraParams { enabled: false, q: 50, framerate: 5, w: 640, h: 480 }
    }
}

/// A finished stream leaves the camera streaming exactly when the settings
/// ask for it; a settings change never starts a stream by itself, and a
/// stream is only started with the current settings' arguments.
pub proof fn law_camera_follows_settings(params: CameraParams, mode: CameraMode, e: CameraEvent)
    ensures
        e is StreamFinished ==> (camera_step(params, mode, e).1 is Streaming <==> params.enabled),
        e is ParamsUpdated ==> forall|i: int| 0 <= i < camera_step(params, mode, e).2.len() ==>
            !(#[trigger] camera_step(params, mode, e).2[i] is StartStream),
        forall|i: int| 0 <= i < camera_step(params, mode, e).2.len() ==>
            (#[trigger] camera_step(params, mode, e).2[i] matches ActionView::StartStream { args, .. }
                ==> args == libcamera_args(camera_step(params, mode, e).0)),
{
}

} // verus!
