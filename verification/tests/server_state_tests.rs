use ioc::ieee::FloatBits;
use ioc::server_state::{ServerInputConfig, ServerInputState, ServerOutputConfig, ServerOutputState, StateUpdate};
use ioc::state_store::{ServerState, names_distinct};
use ioc::subscriptions::{StateSubscriptionKey, StateSubscriptions, same_names};
use ioc::value::{objects_equal, Value};

fn f(x: f64) -> FloatBits {
    FloatBits::from_bits(x.to_bits())
}

fn s(x: &str) -> String {
    x.to_string()
}

fn store() -> ServerState {
    let inputs = vec![
        (s("speed"), ServerInputConfig::Float { start: f(0.5), min: f(-1.0), max: f(1.0), step: f(0.25) }),
        (s("lights"), ServerInputConfig::Bool { start: false }),
        (s("label"), ServerInputConfig::String { start: s("hello"), max_length: 10 }),
    ];
    let outputs = vec![
        (s("temperature"), ServerOutputConfig::Float),
        (s("frame"), ServerOutputConfig::Binary),
    ];
    ServerState::from_configs(&inputs, &outputs)
}

fn float_value(state: &ServerInputState) -> f64 {
    match state {
        ServerInputState::Float { value, .. } => f64::from_bits(value.bits),
        _ => panic!("not a float"),
    }
}

fn client_float(name: &str, x: f64) -> (String, ServerInputState) {
    (s(name), ServerInputState::Float { value: f(x), min: f(0.0), max: f(0.0), step: f(0.0) })
}

#[test]
fn starts_from_configuration() {
    let st = store();
    assert_eq!(st.inputs.len(), 3);
    assert_eq!(st.outputs.len(), 2);
    assert_eq!(float_value(&st.inputs[0].1), 0.5);
    assert!(matches!(st.inputs[1].1, ServerInputState::Bool { value: false }));
    assert!(matches!(st.outputs[0].1, ServerOutputState::Float { value: None }));
    assert_eq!(st.subscriptions.channel_size, 100);
    assert!(st.subscriptions.keys.is_empty());
}

#[test]
fn update_changes_input_and_keeps_limits() {
    let mut st = store();
    let update = StateUpdate { inputs: vec![client_float("speed", 0.75)], outputs: vec![] };
    assert!(st.accepts(&update));
    let deliveries = st.handle_update(&update);
    assert!(deliveries.is_empty());
    match &st.inputs[0].1 {
        ServerInputState::Float { value, min, max, step } => {
            assert_eq!(f64::from_bits(value.bits), 0.75);
            assert_eq!(f64::from_bits(min.bits), -1.0);
            assert_eq!(f64::from_bits(max.bits), 1.0);
            assert_eq!(f64::from_bits(step.bits), 0.25);
        }
        _ => panic!("kind changed"),
    }
}

#[test]
fn read_after_write_through_snapshot() {
    let mut st = store();
    let update = StateUpdate {
        inputs: vec![client_float("speed", -0.25)],
        outputs: vec![(s("temperature"), ServerOutputState::Float { value: Some(f(21.5)) })],
    };
    st.handle_update(&update);
    let (_, start) = st.handle_subscribe(vec![s("speed")], vec![s("temperature")]);
    assert_eq!(start.inputs.len(), 1);
    assert_eq!(start.inputs[0].0, "speed");
    assert_eq!(float_value(&start.inputs[0].1), -0.25);
    match &start.outputs[0].1 {
        ServerOutputState::Float { value: Some(v) } => assert_eq!(f64::from_bits(v.bits), 21.5),
        _ => panic!("output not written"),
    }
}

#[test]
fn same_update_twice_changes_nothing_more() {
    let mut st = store();
    let (sub, _) = st.handle_subscribe(vec![s("lights")], vec![]);
    let update = StateUpdate { inputs: vec![(s("lights"), ServerInputState::Bool { value: true })], outputs: vec![] };
    let first = st.handle_update(&update);
    assert_eq!(first.len(), 1);
    assert_eq!(first[0].0, sub);
    let second = st.handle_update(&update);
    assert!(second.is_empty());
    assert!(matches!(st.inputs[1].1, ServerInputState::Bool { value: true }));
}

#[test]
fn nan_float_always_counts_as_a_change() {
    let mut st = store();
    st.handle_subscribe(vec![s("speed")], vec![]);
    let update = StateUpdate { inputs: vec![client_float("speed", f64::NAN)], outputs: vec![] };
    assert_eq!(st.handle_update(&update).len(), 1);
    assert_eq!(st.handle_update(&update).len(), 1);
}

#[test]
fn negative_zero_equals_zero_and_is_no_change() {
    let inputs = vec![(s("x"), ServerInputConfig::Float { start: f(0.0), min: f(-1.0), max: f(1.0), step: f(0.1) })];
    let mut st = ServerState::from_configs(&inputs, &vec![]);
    st.handle_subscribe(vec![s("x")], vec![]);
    let update = StateUpdate { inputs: vec![client_float("x", -0.0)], outputs: vec![] };
    assert!(st.handle_update(&update).is_empty());
}

#[test]
fn outputs_always_report_writes() {
    let mut st = store();
    st.handle_subscribe(vec![], vec![s("temperature")]);
    let update = StateUpdate { inputs: vec![], outputs: vec![(s("temperature"), ServerOutputState::Float { value: Some(f(3.0)) })] };
    assert_eq!(st.handle_update(&update).len(), 1);
    assert_eq!(st.handle_update(&update).len(), 1);
}

#[test]
fn subscribers_hear_only_their_names() {
    let mut st = store();
    let (a, _) = st.handle_subscribe(vec![s("speed")], vec![]);
    let (b, _) = st.handle_subscribe(vec![s("lights")], vec![s("temperature")]);
    assert_ne!(a, b);
    let update = StateUpdate {
        inputs: vec![client_float("speed", 0.1), (s("lights"), ServerInputState::Bool { value: true })],
        outputs: vec![(s("temperature"), ServerOutputState::Float { value: Some(f(7.0)) })],
    };
    let deliveries = st.handle_update(&update);
    assert_eq!(deliveries.len(), 2);
    assert_eq!(deliveries[0].0, a);
    assert_eq!(deliveries[0].1.inputs.len(), 1);
    assert_eq!(deliveries[0].1.inputs[0].0, "speed");
    assert!(deliveries[0].1.outputs.is_empty());
    assert_eq!(deliveries[1].0, b);
    assert_eq!(deliveries[1].1.inputs[0].0, "lights");
    assert_eq!(deliveries[1].1.outputs[0].0, "temperature");
}

#[test]
fn unknown_names_are_ignored() {
    let mut st = store();
    st.handle_subscribe(vec![s("speed")], vec![s("temperature")]);
    let update = StateUpdate { inputs: vec![client_float("nothing", 0.3)], outputs: vec![] };
    assert!(st.accepts(&update));
    assert!(st.handle_update(&update).is_empty());
    assert_eq!(float_value(&st.inputs[0].1), 0.5);
}

#[test]
fn mismatched_kinds_are_not_accepted() {
    let st = store();
    let update = StateUpdate { inputs: vec![(s("speed"), ServerInputState::Bool { value: true })], outputs: vec![] };
    assert!(!st.accepts(&update));
    let dup = StateUpdate { inputs: vec![client_float("speed", 0.1), client_float("speed", 0.2)], outputs: vec![] };
    assert!(!st.accepts(&dup));
    assert!(!names_distinct(&dup.inputs));
}

#[test]
fn subscribing_twice_to_the_same_names_reuses_the_subscription() {
    let mut subs = StateSubscriptions::with_capacities(4, 8);
    let a = subs.subscribe(vec![s("x"), s("y")], vec![s("o")]);
    let b = subs.subscribe(vec![s("y"), s("x"), s("x")], vec![s("o")]);
    let c = subs.subscribe(vec![s("x")], vec![s("o")]);
    assert_eq!(a, 0);
    assert_eq!(b, 0);
    assert_eq!(c, 1);
    assert_eq!(subs.keys.len(), 2);
    assert!(same_names(&vec![s("a"), s("b")], &vec![s("b"), s("a"), s("a")]));
    assert!(!same_names(&vec![s("a")], &vec![s("a"), s("b")]));
}

#[test]
fn filter_keeps_subscribed_part_or_nothing() {
    let key = StateSubscriptionKey { inputs: vec![s("a")], outputs: vec![] };
    let update = StateUpdate {
        inputs: vec![(s("b"), ServerInputState::Bool { value: true })],
        outputs: vec![(s("a"), ServerOutputState::Bool { value: Some(true) })],
    };
    assert!(key.filter_state_update(&update).is_none());
    let update2 = StateUpdate {
        inputs: vec![(s("a"), ServerInputState::Binary { value: vec![1, 2, 3] }), (s("b"), ServerInputState::Bool { value: true })],
        outputs: vec![],
    };
    let got = key.filter_state_update(&update2).unwrap();
    assert_eq!(got.inputs.len(), 1);
    match &got.inputs[0].1 {
        ServerInputState::Binary { value } => assert_eq!(value, &vec![1u8, 2, 3]),
        _ => panic!("wrong state"),
    }
}

#[test]
fn array_and_object_inputs_compare_by_content() {
    let inputs = vec![
        (s("arr"), ServerInputConfig::Array { start: vec![Value::Bool(true), Value::Float(f(1.0))] }),
        (s("obj"), ServerInputConfig::Object { start: vec![(s("k"), Value::String(s("v")))] }),
    ];
    let mut st = ServerState::from_configs(&inputs, &vec![]);
    st.handle_subscribe(vec![s("arr"), s("obj")], vec![]);
    let same = StateUpdate {
        inputs: vec![
            (s("arr"), ServerInputState::Array { value: vec![Value::Bool(true), Value::Float(f(1.0))] }),
            (s("obj"), ServerInputState::Object { value: vec![(s("k"), Value::String(s("v")))] }),
        ],
        outputs: vec![],
    };
    assert!(st.handle_update(&same).is_empty());
    let different = StateUpdate {
        inputs: vec![(s("arr"), ServerInputState::Array { value: vec![Value::Bool(false)] })],
        outputs: vec![],
    };
    assert_eq!(st.handle_update(&different).len(), 1);
}

#[test]
fn fresh_subscription_sees_configuration() {
    let mut st = store();
    let (_, start) = st.handle_subscribe(vec![s("lights"), s("nope"), s("speed")], vec![s("frame")]);
    assert_eq!(start.inputs.len(), 2);
    assert_eq!(start.inputs[0].0, "lights");
    assert!(matches!(start.inputs[0].1, ServerInputState::Bool { value: false }));
    assert_eq!(start.inputs[1].0, "speed");
    assert_eq!(float_value(&start.inputs[1].1), 0.5);
    assert_eq!(start.outputs.len(), 1);
    assert!(matches!(start.outputs[0].1, ServerOutputState::Binary { value: None }));
}

#[test]
fn updates_of_configured_kinds_stay_accepted() {
    let mut st = store();
    let update = StateUpdate {
        inputs: vec![client_float("speed", 0.25), (s("lights"), ServerInputState::Bool { value: true })],
        outputs: vec![(s("temperature"), ServerOutputState::Float { value: Some(f(21.0)) })],
    };
    for _ in 0..3 {
        assert!(st.accepts(&update));
        st.handle_update(&update);
        st.handle_subscribe(vec![s("speed")], vec![]);
    }
    let wrong = StateUpdate { inputs: vec![(s("speed"), ServerInputState::Bool { value: true })], outputs: vec![] };
    assert!(!st.accepts(&wrong));
    assert_eq!(st.inputs.iter().map(|e| e.0.as_str()).collect::<Vec<_>>(), vec!["speed", "lights", "label"]);
}

#[test]
fn equal_objects_have_the_same_names() {
    let a = vec![(s("x"), Value::Bool(true)), (s("y"), Value::Float(f(1.0)))];
    let b = vec![(s("y"), Value::Float(f(1.0))), (s("x"), Value::Bool(true))];
    let c = vec![(s("y"), Value::Float(f(1.0))), (s("z"), Value::Bool(true))];
    assert!(objects_equal(&a, &b));
    assert!(objects_equal(&b, &a));
    assert!(!objects_equal(&a, &c));
}
