use ioc::config::{
    ClampConfig, DampedOscillatorSimConfig, HBridgeTransformerConfig, HeadingConfig, IocTransformerConfig,
    LimiterConfig, LinearTransformerConfig, PidCtrlConfig, PipeConfig, SumTransformerConfig, WindowAverageConfig,
    kind_name,
};
use ioc::error::IocBuildError;
use ioc::ieee::FloatBits;
use ioc::value::ValueKind;

fn f(x: f64) -> FloatBits {
    FloatBits::from_bits(x.to_bits())
}

fn s(x: &str) -> String {
    x.to_string()
}

fn upstream() -> Vec<(String, ValueKind)> {
    vec![
        (s("a"), ValueKind::Float),
        (s("b"), ValueKind::Float),
        (s("flag"), ValueKind::Bool),
        (s("vec"), ValueKind::Array),
        (s("text"), ValueKind::String),
    ]
}

fn message(r: Result<Vec<(String, ValueKind)>, IocBuildError>) -> String {
    match r {
        Err(IocBuildError::Message(m)) => m,
        _ => panic!("expected a single message"),
    }
}

fn names(r: &Vec<(String, ValueKind)>) -> Vec<String> {
    r.iter().map(|e| e.0.clone()).collect()
}

#[test]
fn kind_names_match_debug_text() {
    assert_eq!(kind_name(ValueKind::Float), "Float");
    assert_eq!(kind_name(ValueKind::Object), "Object");
}

#[test]
fn pipe_of_matching_kinds_builds() {
    let pipe = PipeConfig { from: s("a"), to: s("out") };
    let outputs = vec![(s("out"), ValueKind::Float)];
    assert!(matches!(pipe.try_build(&upstream(), &outputs), Ok(ValueKind::Float)));
}

#[test]
fn pipe_of_mismatched_kinds_fails() {
    let pipe = PipeConfig { from: s("flag"), to: s("out") };
    let outputs = vec![(s("out"), ValueKind::Float)];
    match pipe.try_build(&upstream(), &outputs) {
        Err(IocBuildError::Message(m)) => assert_eq!(
            m,
            "got mismatched types when trying to build Pipe from flag to out. types were Bool and Float respectively"
        ),
        _ => panic!("expected mismatch"),
    }
}

#[test]
fn pipe_of_objects_carries_objects() {
    let pipe = PipeConfig { from: s("o"), to: s("p") };
    let inputs = vec![(s("o"), ValueKind::Object)];
    let outputs = vec![(s("p"), ValueKind::Object)];
    assert!(matches!(pipe.try_build(&inputs, &outputs), Ok(ValueKind::Object)));
}

#[test]
fn pipe_with_both_ends_missing_reports_both() {
    let pipe = PipeConfig { from: s("x"), to: s("y") };
    match pipe.try_build(&upstream(), &vec![]) {
        Err(IocBuildError::Messages(ms)) => assert_eq!(
            ms,
            vec![
                s("can't build Pipe from x to y. input x not found."),
                s("can't build Pipe from x to y. output y not found."),
            ]
        ),
        _ => panic!("expected two messages"),
    }
}

#[test]
fn sum_collects_every_problem() {
    let sum = SumTransformerConfig { inputs: vec![s("a"), s("flag"), s("missing")] };
    match sum.try_build(&upstream()) {
        Err(IocBuildError::Messages(ms)) => assert_eq!(
            ms,
            vec![s("Expected input 'flag' to be a Float but got Bool"), s("No input named 'missing'")]
        ),
        _ => panic!("expected messages"),
    }
    let ok = SumTransformerConfig { inputs: vec![s("a"), s("b")] };
    assert_eq!(names(&ok.try_build(&upstream()).map_err(|e| e.describe()).unwrap()), vec![s("value")]);
}

#[test]
fn sum_needs_each_input_once() {
    let sum = SumTransformerConfig { inputs: vec![s("a"), s("b"), s("a")] };
    assert_eq!(sum.needs_inputs(), vec![s("a"), s("b")]);
}

#[test]
fn hbridge_provides_three_floats() {
    let h = HBridgeTransformerConfig { input: s("a") };
    let r = h.try_build(&upstream()).map_err(|e| e.describe()).unwrap();
    assert_eq!(names(&r), vec![s("forward"), s("reverse"), s("enable")]);
    assert!(r.iter().all(|e| e.1 == ValueKind::Float));
    let bad = HBridgeTransformerConfig { input: s("flag") };
    assert_eq!(message(bad.try_build(&upstream())), "unable to build hbridge from non-float input of type Bool");
    let missing = HBridgeTransformerConfig { input: s("zzz") };
    assert_eq!(message(missing.try_build(&upstream())), "no input with name zzz");
}

#[test]
fn linear_checks_ranges() {
    let wrong_len = LinearTransformerConfig { input: s("a"), from: vec![f(0.0)], to: vec![f(0.0), f(1.0)] };
    assert_eq!(
        message(wrong_len.try_build(&upstream())),
        "LinearTransform must have exactly two values for the 'from' and 'to' fields"
    );
    let no_width = LinearTransformerConfig { input: s("a"), from: vec![f(2.0), f(2.0)], to: vec![f(0.0), f(1.0)] };
    assert_eq!(message(no_width.try_build(&upstream())), "can't build linear transform where from_range has no width");
    let bad_input = LinearTransformerConfig { input: s("text"), from: vec![f(2.0), f(2.0)], to: vec![f(0.0), f(1.0)] };
    assert_eq!(
        message(bad_input.try_build(&upstream())),
        "unable to build linear transformer from non-float input of type String"
    );
    let ok = LinearTransformerConfig { input: s("a"), from: vec![f(0.0), f(10.0)], to: vec![f(1.0), f(0.0)] };
    assert_eq!(names(&ok.try_build(&upstream()).map_err(|e| e.describe()).unwrap()), vec![s("value")]);
}

#[test]
fn clamp_checks_bounds_before_input() {
    let bad = ClampConfig { input: s("missing"), min: f(1.0), max: f(0.0) };
    assert_eq!(message(bad.try_build(&upstream())), "unable to build clamp transformer. must have min <= max");
    let ok = ClampConfig { input: s("a"), min: f(0.0), max: f(1.0) };
    assert!(ok.try_build(&upstream()).is_ok());
}

#[test]
fn heading_needs_an_array() {
    let h = HeadingConfig { input: s("a") };
    assert_eq!(message(h.try_build(&upstream())), "unable to build clamp transformer from non-array input of type Float");
    let ok = HeadingConfig { input: s("vec") };
    assert!(ok.try_build(&upstream()).is_ok());
}

#[test]
fn pid_reports_first_problem_in_order() {
    let pid = PidCtrlConfig { p: s("a"), i: s("flag"), d: s("missing"), set_point: s("a"), process_var: s("b"), period_ms: 20 };
    assert_eq!(message(pid.try_build(&upstream())), "unable to build pid controller from non-float input of type Bool");
    let ok = PidCtrlConfig { p: s("a"), i: s("a"), d: s("b"), set_point: s("a"), process_var: s("b"), period_ms: 20 };
    assert!(ok.try_build(&upstream()).is_ok());
    let mut needs = ok.needs_inputs();
    needs.sort();
    assert_eq!(needs, vec![s("a"), s("b")]);
}

#[test]
fn limiter_checks_input_then_bounds() {
    let mut lim = LimiterConfig {
        input: s("a"),
        amin: f(-1.0),
        amax: f(1.0),
        vmin: f(-2.0),
        vmax: f(2.0),
        min: f(0.0),
        max: f(10.0),
        period_ms: 25,
    };
    assert!(lim.try_build(&upstream()).is_ok());
    lim.vmin = f(f64::NAN);
    assert_eq!(message(lim.try_build(&upstream())), "must have dmin < dmax and non NaN values in limiter");
    lim.vmin = f(-2.0);
    lim.max = f(-1.0);
    assert_eq!(message(lim.try_build(&upstream())), "must have min < max and non NaN values in limiter");
    lim.max = f(10.0);
    lim.amax = f(-5.0);
    assert_eq!(message(lim.try_build(&upstream())), "must have ddmin < ddmax and non NaN values in limiter");
    lim.input = s("vec");
    assert_eq!(message(lim.try_build(&upstream())), "unable to build limiter from non-float input of type Array");
}

#[test]
fn window_average_and_simulation_lookups() {
    let w = WindowAverageConfig { input: s("flag"), period_ms: 100 };
    assert_eq!(message(w.try_build(&upstream())), "unable to build windowed average filter from non-float input of type Bool");
    let sim = DampedOscillatorSimConfig { m: s("a"), k: s("b"), c: s("flag"), f: s("zzz"), period_ms: 10, steps_per_frame: 4 };
    assert_eq!(message(sim.try_build(&upstream())), "expected flag to be a Float but got Bool");
    let sim2 = DampedOscillatorSimConfig { m: s("a"), k: s("b"), c: s("a"), f: s("zzz"), period_ms: 10, steps_per_frame: 4 };
    assert_eq!(message(sim2.try_build(&upstream())), "could not find input zzz");
    let ok = DampedOscillatorSimConfig { m: s("a"), k: s("b"), c: s("a"), f: s("b"), period_ms: 10, steps_per_frame: 4 };
    assert_eq!(names(&ok.try_build(&upstream()).map_err(|e| e.describe()).unwrap()), vec![s("x"), s("v")]);
}

#[test]
fn transformer_enum_dispatches() {
    let t = IocTransformerConfig::HBridge(HBridgeTransformerConfig { input: s("b") });
    assert_eq!(t.try_build(&upstream()).map_err(|e| e.describe()).unwrap().len(), 3);
    assert_eq!(t.needs_inputs(), vec![s("b")]);
    let w = IocTransformerConfig::WindowAverage(WindowAverageConfig { input: s("a"), period_ms: 5 });
    assert_eq!(names(&w.try_build(&upstream()).map_err(|e| e.describe()).unwrap()), vec![s("value")]);
}

#[test]
fn linear_domain_must_increase() {
    let reversed = LinearTransformerConfig { input: s("a"), from: vec![f(10.0), f(0.0)], to: vec![f(0.0), f(1.0)] };
    assert_eq!(message(reversed.try_build(&upstream())), "LinearTransform must have from[0] < from[1]");
    let nan = LinearTransformerConfig { input: s("a"), from: vec![f(f64::NAN), f(1.0)], to: vec![f(0.0), f(1.0)] };
    assert_eq!(message(nan.try_build(&upstream())), "LinearTransform must have from[0] < from[1]");
    let inverse = LinearTransformerConfig { input: s("a"), from: vec![f(0.0), f(1.0)], to: vec![f(1.0), f(0.0)] };
    assert!(inverse.try_build(&upstream()).is_ok());
}

#[test]
fn limiter_limits_must_straddle_zero() {
    let mut lim = LimiterConfig {
        input: s("a"),
        amin: f(-1.0),
        amax: f(1.0),
        vmin: f(0.5),
        vmax: f(2.0),
        min: f(0.0),
        max: f(10.0),
        period_ms: 25,
    };
    assert_eq!(message(lim.try_build(&upstream())), "must have vmin < 0 and vmax > 0 in limiter");
    lim.vmin = f(-0.5);
    lim.amax = f(0.0);
    assert_eq!(message(lim.try_build(&upstream())), "must have amin < 0 and amax > 0 in limiter");
    lim.amax = f(3.0);
    assert!(lim.try_build(&upstream()).is_ok());
}
