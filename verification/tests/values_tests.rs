use ioc::camera::{CameraAction, CameraEvent, CameraManager, CameraMode, CameraParams, small_float_to_u8};
use ioc::error::{ChildProcessError, GpioError, IocBuildError};
use ioc::ieee::FloatBits;
use ioc::jpeg_split::JpegSplitter;
use ioc::mjpeg::{content_type, frame_from_update, frame_part, stream_start};
use ioc::modules::{duty_cycle, EndpointConfig, FeedbackConfig, FeedbackItemConfig, GpioConfig, PinConfig};
use ioc::server_io::{forward_input, input_start, output_written, InputForward};
use ioc::server_state::{ServerInputConfig, ServerInputState, ServerOutputState, StateUpdate};
use ioc::text::{decimal_string, parse_resolution, parse_usize};
use ioc::transform::{clamp, hbridge_outputs, LimiterParams};
use ioc::value::{Value, ValueKind};
use ioc::ws_message::{update_from_client, update_message, WsStateUpdate};
use ioc::test_frame::TestFrameGenerator;
use ioc::ws_state::{WsInputFloatConfig, WsInputStateValue, WsInputStringConfig, WsOutputStateValue,
    WsStateInputConfig, WsStateOutputConfig, WsStateStore, WsStateValue, WsInputBoolConfig};

fn f(x: f64) -> FloatBits {
    FloatBits::from_bits(x.to_bits())
}

fn v(x: FloatBits) -> f64 {
    f64::from_bits(x.bits)
}

fn s(x: &str) -> String {
    x.to_string()
}

#[test]
fn ieee_comparisons_follow_f64() {
    let cases = [0.0, -0.0, 1.5, -2.0, f64::INFINITY, f64::NEG_INFINITY, f64::NAN, 1e-300, -1e300];
    for a in cases {
        for b in cases {
            assert_eq!(f(a).lt(&f(b)), a < b, "{a} < {b}");
            assert_eq!(f(a).ieee_eq(&f(b)), a == b, "{a} == {b}");
        }
        assert_eq!(f(a).is_nan(), a.is_nan());
    }
    assert_eq!(v(f(f64::NAN).min(&f(3.0))), 3.0);
    assert_eq!(v(f(2.0).max(&f(f64::NAN))), 2.0);
    assert_eq!(v(f(2.0).max(&f(5.0))), 5.0);
    assert_eq!(v(f(2.5).neg()), -2.5);
}

#[test]
fn hbridge_splits_direction() {
    let (fw, rv, en) = hbridge_outputs(f(0.4));
    assert_eq!((v(fw), v(rv), v(en)), (0.4, 0.0, 1.0));
    let (fw, rv, en) = hbridge_outputs(f(-0.7));
    assert_eq!((v(fw), v(rv), v(en)), (0.0, 0.7, 1.0));
    let (fw, rv, en) = hbridge_outputs(f(0.0));
    assert_eq!((v(fw), v(rv), v(en)), (0.0, 0.0, 0.0));
    let (fw, rv, en) = hbridge_outputs(f(f64::NAN));
    assert_eq!((v(fw), v(rv), v(en)), (0.0, 0.0, 0.0));
}

#[test]
fn clamp_keeps_values_in_range() {
    assert_eq!(v(clamp(f(5.0), f(-1.0), f(1.0))), 1.0);
    assert_eq!(v(clamp(f(-5.0), f(-1.0), f(1.0))), -1.0);
    assert_eq!(v(clamp(f(0.25), f(-1.0), f(1.0))), 0.25);
    assert_eq!(v(clamp(f(f64::NAN), f(-1.0), f(1.0))), 1.0);
    assert_eq!(v(duty_cycle(f(1.7))), 1.0);
    assert_eq!(v(duty_cycle(f(-0.5))), 0.0);
}

#[test]
fn limiter_starts_inside_its_range() {
    let mut p = LimiterParams::default();
    assert_eq!(p.period_ms, 25);
    assert_eq!(v(p.initial_position(f(123.0)).map_err(|e| e.describe()).unwrap()), 123.0);
    p.min = f(0.0);
    p.max = f(10.0);
    assert_eq!(v(p.initial_position(f(123.0)).map_err(|e| e.describe()).unwrap()), 10.0);
    assert_eq!(v(p.initial_position(f(-4.0)).map_err(|e| e.describe()).unwrap()), 0.0);
    assert_eq!(v(p.initial_position(f(f64::NAN)).map_err(|e| e.describe()).unwrap()), 0.0);
    p.ddmin = f(f64::NAN);
    match p.initial_position(f(1.0)) {
        Err(IocBuildError::Message(m)) => assert_eq!(m, "must have ddmin < ddmax and non NaN values in limiter"),
        _ => panic!("expected error"),
    }
}

#[test]
fn decimal_text_and_parsing() {
    assert_eq!(decimal_string(0), "0");
    assert_eq!(decimal_string(7), "7");
    assert_eq!(decimal_string(640), "640");
    assert_eq!(decimal_string(u64::MAX), u64::MAX.to_string());
    assert_eq!(parse_usize("1920"), Some(1920));
    assert_eq!(parse_usize("+12"), Some(12));
    assert_eq!(parse_usize(""), None);
    assert_eq!(parse_usize("+"), None);
    assert_eq!(parse_usize("-1"), None);
    assert_eq!(parse_usize("12a"), None);
    assert_eq!(parse_usize("99999999999999999999999"), None);
    assert_eq!(parse_usize(&usize::MAX.to_string()), Some(usize::MAX));
}

#[test]
fn resolution_needs_exactly_one_x() {
    assert_eq!(parse_resolution("1280x720"), Some((1280, 720)));
    assert_eq!(parse_resolution("1280x720x1"), None);
    assert_eq!(parse_resolution("1280"), None);
    assert_eq!(parse_resolution("x720"), None);
    assert_eq!(parse_resolution("1280X720"), None);
}

#[test]
fn mjpeg_framing() {
    assert_eq!(stream_start(), b"--lolthisismyboundlol\r\n".to_vec());
    assert_eq!(content_type(), "multipart/x-mixed-replace;boundary=\"lolthisismyboundlol\"");
    assert!(frame_part(&vec![]).is_empty());
    let part = frame_part(&vec![1, 2, 3]);
    let mut expected = b"Content-Type: image/jpeg\r\nContent-Length: 3\r\n\r\n".to_vec();
    expected.extend_from_slice(&[1, 2, 3]);
    expected.extend_from_slice(b"\r\n--lolthisismyboundlol\r\n");
    assert_eq!(part, expected);
}

#[test]
fn mjpeg_frame_comes_from_binary_output() {
    let update = StateUpdate {
        inputs: vec![],
        outputs: vec![
            (s("other"), ServerOutputState::Binary { value: Some(vec![9]) }),
            (s("cam"), ServerOutputState::Binary { value: Some(vec![1, 2]) }),
        ],
    };
    assert_eq!(frame_from_update(&update, &s("cam")), Some(vec![1, 2]));
    assert_eq!(frame_from_update(&update, &s("none")), None);
    let empty = StateUpdate { inputs: vec![], outputs: vec![(s("cam"), ServerOutputState::Binary { value: None })] };
    assert_eq!(frame_from_update(&empty, &s("cam")), None);
}

#[test]
fn camera_arguments() {
    let p = CameraParams::default();
    assert!(!p.enabled);
    let args = p.get_libcamera_params();
    assert_eq!(
        args,
        vec![
            "--rotation", "180", "--codec", "mjpeg", "--tuning-file",
            "/usr/share/libcamera/ipa/rpi/vc4/imx219_noir.json", "--mode", "3280:2464:10:U",
            "-q", "50", "--framerate", "5", "--width", "640", "--height", "480",
            "-t", "0", "-n", "--flush", "-o", "-",
        ]
    );
}

#[test]
fn camera_settings_from_written_values() {
    let p = CameraParams::default();
    assert_eq!(p.with_quality(f(37.9)).q, 37);
    assert_eq!(p.with_quality(f(250.0)).q, 100);
    assert_eq!(p.with_quality(f(-3.0)).q, 0);
    assert_eq!(p.with_quality(f(f64::NAN)).q, 0);
    assert_eq!(p.with_quality(f(100.0)).q, 100);
    assert_eq!(p.with_framerate(f(0.2)).framerate, 1);
    assert_eq!(p.with_framerate(f(75.0)).framerate, 60);
    assert_eq!(p.with_framerate(f(29.97)).framerate, 29);
    for q in [0.0, 0.5, 1.0, 12.25, 63.999, 64.0, 99.99] {
        assert_eq!(small_float_to_u8(f(q)), q as u8);
    }
    let r = p.with_resolution("1920x1080").unwrap();
    assert_eq!((r.w, r.h), (1920, 1080));
    assert!(p.with_resolution("big").is_none());
    assert!(p.with_enabled(true).enabled);
}

#[test]
fn camera_state_machine() {
    let (mut cam, start) = CameraManager::start();
    assert!(matches!(cam.mode, CameraMode::Disabled { holds_frames: true }));
    assert!(matches!(&start[0], CameraAction::ShowTestFrame { text, .. } if text == "camera disabled"));
    let on = cam.params.with_enabled(true);
    let acts = cam.step(CameraEvent::ParamsUpdated(on));
    assert!(matches!(acts[0], CameraAction::ReturnFrames));
    let acts = cam.step(CameraEvent::StreamFinished);
    assert!(matches!(cam.mode, CameraMode::Streaming));
    assert_eq!(acts.len(), 2);
    match &acts[1] {
        CameraAction::StartStream { program, args } => {
            assert_eq!(program, "libcamera-vid");
            assert_eq!(args, &cam.params.get_libcamera_params());
        }
        _ => panic!("expected a stream start"),
    }
    let off = cam.params.with_enabled(false);
    let acts = cam.step(CameraEvent::ParamsUpdated(off));
    assert!(matches!(acts[0], CameraAction::CancelStream));
    cam.step(CameraEvent::StreamFinished);
    assert!(matches!(cam.mode, CameraMode::Disabled { holds_frames: true }));
}

#[test]
fn jpeg_splitter_emits_whole_images() {
    let image = vec![0xFF, 0xD8, 0xFF, 0xE0, 0x00, 0x04, 0xAA, 0xBB, 0xFF, 0xDA, 0x12, 0xFF, 0x00, 0x34, 0xFF, 0xD9];
    let mut stream = vec![0x00, 0x01];
    stream.extend_from_slice(&image);
    stream.extend_from_slice(&image);
    let mut sp = JpegSplitter::new();
    let mut frames = Vec::new();
    for chunk in stream.chunks(5) {
        frames.extend(sp.feed(chunk));
    }
    assert_eq!(frames, vec![image.clone(), image]);
}

#[test]
fn server_input_start_and_forwarding() {
    let start = StateUpdate { inputs: vec![(s("x"), ServerInputState::Bool { value: true })], outputs: vec![] };
    let bool_cfg = ServerInputConfig::Bool { start: false };
    assert!(matches!(input_start(&bool_cfg, &s("x"), &start), Ok(ServerInputState::Bool { value: true })));
    let float_cfg = ServerInputConfig::Float { start: f(0.0), min: f(0.0), max: f(1.0), step: f(0.1) };
    match input_start(&float_cfg, &s("x"), &start) {
        Err(IocBuildError::Message(m)) => assert_eq!(m, "Expected Float input for key: x"),
        _ => panic!("expected kind error"),
    }
    match input_start(&bool_cfg, &s("y"), &start) {
        Err(IocBuildError::Message(m)) => assert_eq!(m, "No input found for key: y"),
        _ => panic!("expected missing error"),
    }
    assert!(matches!(forward_input(ValueKind::Bool, &s("x"), &start), InputForward::Forward(ServerInputState::Bool { value: true })));
    assert!(matches!(forward_input(ValueKind::String, &s("x"), &start), InputForward::WrongKind));
    assert!(matches!(forward_input(ValueKind::Bool, &s("q"), &start), InputForward::Absent));
    let w = output_written(&s("temp"), ServerOutputState::Float { value: Some(f(1.0)) });
    assert!(w.inputs.is_empty());
    assert_eq!(w.outputs[0].0, "temp");
}

#[test]
fn web_socket_messages() {
    let from_client = vec![(s("speed"), WsStateUpdate::Float { value: f(0.5) }), (s("name"), WsStateUpdate::String { value: s("bob") })];
    let update = update_from_client(&from_client);
    assert!(update.outputs.is_empty());
    match &update.inputs[0].1 {
        ServerInputState::Float { value, min, max, step } => {
            assert_eq!((v(*value), v(*min), v(*max), v(*step)), (0.5, 0.0, 0.0, 0.0));
        }
        _ => panic!("wrong kind"),
    }
    assert!(matches!(&update.inputs[1].1, ServerInputState::String { value, max_length: 0 } if value == "bob"));
    let st = StateUpdate {
        inputs: vec![(s("a"), ServerInputState::Bool { value: true })],
        outputs: vec![
            (s("o1"), ServerOutputState::Float { value: None }),
            (s("o2"), ServerOutputState::Array { value: Some(vec![Value::Bool(false)]) }),
        ],
    };
    let (ins, outs) = update_message(&st);
    assert_eq!(ins.len(), 1);
    assert_eq!(outs.len(), 1);
    assert_eq!(outs[0].0, "o2");
}

#[test]
fn ws_state_clamps_and_truncates() {
    let inputs = vec![
        (s("f"), WsStateInputConfig::Float(WsInputFloatConfig { start: f(0.0), min: f(-1.0), max: f(1.0), step: f(0.1) })),
        (s("t"), WsStateInputConfig::String(WsInputStringConfig { start: s(""), max_length: 3 })),
        (s("b"), WsStateInputConfig::Bool(WsInputBoolConfig { start: false })),
    ];
    let outputs = vec![(s("o"), WsStateOutputConfig::Float)];
    let mut st = WsStateStore::new(&inputs, &outputs);
    let set = vec![
        (s("f"), WsStateValue::Float { f: f(9.0) }),
        (s("t"), WsStateValue::String { s: s("abcdef") }),
        (s("b"), WsStateValue::String { s: s("wrong kind") }),
    ];
    let changes = st.set_inputs(&set);
    assert_eq!(changes.len(), 2);
    assert!(matches!(&st.inputs[0].1, WsInputStateValue::Float { f: x, .. } if v(*x) == 1.0));
    assert!(matches!(&st.inputs[1].1, WsInputStateValue::String { s: x, .. } if x == "abc"));
    assert!(matches!(&st.inputs[2].1, WsInputStateValue::Bool { b: false }));
    assert!(st.set_inputs(&set).is_empty());
    let w = vec![(s("o"), WsStateValue::Float { f: f(2.0) })];
    assert_eq!(st.set_outputs(&w).len(), 1);
    assert!(st.set_outputs(&w).is_empty());
    assert!(matches!(&st.output_snapshot()[0].1, WsOutputStateValue::Float { f: Some(x) } if v(*x) == 2.0));
    assert_eq!(st.input_snapshot().len(), 3);
}

#[test]
fn modules_inputs_and_outputs() {
    let gpio = GpioConfig {
        pins: vec![
            (s("button"), PinConfig::DigitalIn { pin: 4, pull_up: true }),
            (s("led"), PinConfig::DigitalOut { pin: 17 }),
            (s("motor"), PinConfig::SoftPwmOut { pin: 18, frequency: f(50.0) }),
        ],
    };
    let (ins, outs) = gpio.io_kinds();
    assert_eq!(ins, vec![(s("button"), ValueKind::Bool)]);
    assert_eq!(outs, vec![(s("led"), ValueKind::Bool), (s("motor"), ValueKind::Float)]);
    let fb = FeedbackConfig { items: vec![(s("loop"), FeedbackItemConfig::Bool { start: true })] };
    let pipes = fb.pipes();
    assert_eq!(pipes[0].name, "loop");
    assert_eq!(pipes[0].kind, ValueKind::Bool);
    assert!(matches!(pipes[0].start, Value::Bool(true)));
    let ws = EndpointConfig::WebSocket { inputs: vec![s("a"), s("a"), s("b")], outputs: vec![] };
    let (i, o) = ws.subscription().unwrap();
    assert_eq!(i, vec![s("a"), s("b")]);
    assert!(o.is_empty());
    let mj = EndpointConfig::Mjpeg { output: s("cam") };
    assert_eq!(mj.subscription(), Some((vec![], vec![s("cam")])));
    assert!(EndpointConfig::Static { directory: s("/srv") }.subscription().is_none());
}

#[test]
fn error_types() {
    let e = IocBuildError::from_errs(vec![IocBuildError::message("a"), IocBuildError::messages(&[s("b"), s("c")])]);
    match &e {
        IocBuildError::Messages(ms) => assert_eq!(ms, &vec![s("a"), s("b"), s("c")]),
        _ => panic!("expected messages"),
    }
    assert_eq!(e.describe(), "IocBuildError (multiple): \na\nb\nc");
    assert_eq!(IocBuildError::from_string(s("x")).describe(), "IocBuildError: x");
    let g = GpioError::from_cause("pin busy");
    assert_eq!(g.message, "RpiGpioBuildError - Cause: pin busy");
    assert_eq!(g.describe(), "RpiGpioBuildError - Cause: pin busy");
    assert!(matches!(g.into_build_error(), IocBuildError::Message(m) if m == "RpiGpioBuildError - Cause: pin busy"));
    let c = ChildProcessError::new(s("boom"), 5u8);
    assert_eq!((c.message.as_str(), c.x), ("boom", 5));
}

#[test]
fn test_frame_layout_and_encoding() {
    let gen = TestFrameGenerator::new(320, 240).with_q(80).with_text("hello");
    assert!(gen.supported());
    assert!(!TestFrameGenerator::new(100, 100).supported());
    assert_eq!(gen.q, 80);
    assert_eq!(gen.text.as_deref(), Some("hello"));
    let layout = gen.layout();
    assert_eq!(layout.bar_width, 45);
    assert_eq!(layout.bar_height, 180);
    assert_eq!((layout.text_x, layout.text_y), (160, 80));
    assert_eq!(layout.shades.len(), 320);
    assert_eq!(layout.shades[0], 0);
    assert_eq!(layout.shades[319], 255);
    for x in 0..320usize {
        let expected = ((x * 255) as f64 / 319.0) as u8;
        assert_eq!(layout.shades[x], expected);
    }
    let white = vec![255u8; 320 * 240 * 3];
    let jpeg = gen.encode(&white);
    assert!(jpeg.len() > 4);
    assert_eq!(&jpeg[..2], &[0xFF, 0xD8]);
    assert_eq!(&jpeg[jpeg.len() - 2..], &[0xFF, 0xD9]);
    let mut sp = JpegSplitter::new();
    let frames = sp.feed(&jpeg);
    assert_eq!(frames, vec![jpeg.clone()]);
}

#[test]
fn decimal_text_reads_back() {
    for n in [0usize, 9, 10, 99, 100, 65535, 1234567890] {
        assert_eq!(parse_usize(&decimal_string(n as u64)), Some(n));
    }
    assert_eq!(ioc::modules::bmp180_inputs()[0].0, "temperature_c");
}

#[test]
fn restart_marker_d7_has_no_size() {
    let stream = vec![0xFFu8, 0xD8, 0xFF, 0xDA, 0x00, 0x02, 0x11, 0xFF, 0xD7, 0xFF, 0xD9];
    let mut sp = JpegSplitter::new();
    let frames = sp.feed(&stream);
    assert_eq!(frames, vec![stream.clone()]);
    let plain = vec![0xFFu8, 0xD8, 0xFF, 0xD7, 0xFF, 0xD9];
    let mut sp2 = JpegSplitter::new();
    assert_eq!(sp2.feed(&plain), vec![plain.clone()]);
}

#[test]
fn ws_inputs_stay_within_limits_over_a_run() {
    let inputs = vec![
        (s("f"), WsStateInputConfig::Float(WsInputFloatConfig { start: f(0.5), min: f(0.0), max: f(1.0), step: f(0.1) })),
        (s("t"), WsStateInputConfig::String(WsInputStringConfig { start: s("ab"), max_length: 2 })),
    ];
    let outputs = vec![(s("o"), WsStateOutputConfig::Bool)];
    let mut st = WsStateStore::new(&inputs, &outputs);
    let runs = [(5.0, "hello"), (-3.0, "x"), (f64::NAN, "xyz"), (0.25, "")];
    for (x, t) in runs {
        st.set_inputs(&vec![(s("f"), WsStateValue::Float { f: f(x) }), (s("t"), WsStateValue::String { s: s(t) })]);
        st.set_outputs(&vec![(s("o"), WsStateValue::Bool { b: true })]);
        match &st.inputs[0].1 {
            WsInputStateValue::Float { f: x, min, max, step } => {
                assert!(v(*x) >= 0.0 && v(*x) <= 1.0);
                assert_eq!((v(*min), v(*max), v(*step)), (0.0, 1.0, 0.1));
            },
            _ => panic!("kind changed"),
        }
        match &st.inputs[1].1 {
            WsInputStateValue::String { s: x, max_length } => {
                assert!(x.chars().count() <= 2);
                assert_eq!(*max_length, 2);
            },
            _ => panic!("kind changed"),
        }
        assert_eq!((st.inputs[0].0.as_str(), st.inputs[1].0.as_str()), ("f", "t"));
    }
}
