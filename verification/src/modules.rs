//! The inputs and outputs that the configured modules provide: the feedback
//! module, the GPIO pins, the server's endpoints, and the small settings of
//! the camera and sensor modules.
use vstd::prelude::*;
use vstd::string::*;
use crate::error::GpioError;
use crate::ieee::{FloatBits, ZERO_BITS, ONE_BITS};
use crate::keyed::{keys_unique, name_set, names_unique};
use crate::value::{Value, ValueKind, ValueView, value_view, copy_value, copy_bytes, copy_values, copy_members,
    array_view, members_view};
use crate::transform::{clamp, clamp_spec};
use crate::subscriptions::same_names;
use crate::config::distinct_names;
use crate::server_state::{ServerInputConfig, ServerOutputConfig};

verus! {

/// One feedback item: its kind and start value.
pub enum FeedbackItemConfig {
    String { start: String },
    Binary { start: Vec<u8> },
    Bool { start: bool },
    Float { start: FloatBits },
    Array { start: Vec<Value> },
    Object { start: Vec<(String, Value)> },
}

/// A feedback module: each named item gives an input and an output of the
/// same name and kind, and every value written to the output reappears on
/// the input.
pub struct FeedbackConfig {
    pub items: Vec<(String, FeedbackItemConfig)>,
}

pub open spec fn feedback_kind(c: FeedbackItemConfig) -> ValueKind {
    match c {
        FeedbackItemConfig::String { .. } => ValueKind::String,
        FeedbackItemConfig::Binary { .. } => ValueKind::Binary,
        FeedbackItemConfig::Bool { .. } => ValueKind::Bool,
        FeedbackItemConfig::Float { .. } => ValueKind::Float,
        FeedbackItemConfig::Array { .. } => ValueKind::Array,
        FeedbackItemConfig::Object { .. } => ValueKind::Object,
    }
}

/// The start value of a feedback item.
pub open spec fn feedback_start(c: FeedbackItemConfig) -> ValueView {
    match c {
        FeedbackItemConfig::String { start } => ValueView::String(start@),
        FeedbackItemConfig::Binary { start } => ValueView::Binary(start@),
        FeedbackItemConfig::Bool { start } => ValueView::Bool(start),
        FeedbackItemConfig::Float { start } => ValueView::Float(start.bits),
        FeedbackItemConfig::Array { start } => ValueView::Array(array_view(start)),
        FeedbackItemConfig::Object { start } => ValueView::Object(members_view(start)),
    }
}

/// The names and kinds of a list of named kinds.
pub open spec fn kinds_view(v: Seq<(String, ValueKind)>) -> Seq<(Seq<char>, ValueKind)> {
    v.map_values(|e: (String, ValueKind)| (e.0@, e.1))
}

/// One feedback pipe: its name, kind and start value.
pub struct FeedbackPipe {
    pub name: String,
    pub kind: ValueKind,
    pub start: Value,
}

impl FeedbackItemConfig {
    pub fn kind(&self) -> (r: ValueKind)
        ensures
            r == feedback_kind(*self),
    {
        match self {
            FeedbackItemConfig::String { .. } => ValueKind::String,
            FeedbackItemConfig::Binary { .. } => ValueKind::Binary,
            FeedbackItemConfig::Bool { .. } => ValueKind::Bool,
            FeedbackItemConfig::Float { .. } => ValueKind::Float,
            FeedbackItemConfig::Array { .. } => ValueKind::Array,
            FeedbackItemConfig::Object { .. } => ValueKind::Object,
        }
    }

    /// The start value, as a value.
    pub fn start_value(&self) -> (r: Value)
        ensures
            value_view(r) == feedback_start(*self),
    {
        match self {
            FeedbackItemConfig::String { start } => Value::String(start.clone()),
            FeedbackItemConfig::Binary { start } => Value::Binary(copy_bytes(start)),
            FeedbackItemConfig::Bool { start } => Value::Bool(*start),
            FeedbackItemConfig::Float { start } => Value::Float(*start),
            FeedbackItemConfig::Array { start } => {
                let v = copy_values(start);
                proof {
                    assert(value_view(Value::Array(v)) == ValueView::Array(array_view(v)));
                }
                Value::Array(v)
            },
            FeedbackItemConfig::Object { start } => {
                let v = copy_members(start);
                proof {
                    assert(value_view(Value::Object(v)) == ValueView::Object(members_view(v)));
                }
                Value::Object(v)
            },
        }
    }
}

impl FeedbackConfig {
    /// The pipes the module builds, one per item in order: each gives an
    /// input and an output with the item's name and kind, starting at the
    /// item's start value.
    pub fn pipes(&self) -> (r: Vec<FeedbackPipe>)
        ensures
            r@.len() == self.items@.len(),
            forall|i: int| 0 <= i < r@.len() ==> {
                &&& (#[trigger] r@[i]).name@ == self.items@[i].0@
                &&& r@[i].kind == feedback_kind(self.items@[i].1)
                &&& value_view(r@[i].start) == feedback_start(self.items@[i].1)
            },
    {
        let mut r: Vec<FeedbackPipe> = Vec::with_capacity(self.items.len());
        let mut i: usize = 0;
        while i < self.items.len()
            invariant
                i <= self.items.len(),
                r@.len() == i,
                forall|j: int| 0 <= j < i ==> {
                    &&& (#[trigger] r@[j]).name@ == self.items@[j].0@
                    &&& r@[j].kind == feedback_kind(self.items@[j].1)
                    &&& value_view(r@[j].start) == feedback_start(self.items@[j].1)
                },
            decreases self.items.len() - i,
        {
            let item = &self.items[i];
            r.push(FeedbackPipe { name: item.0.clone(), kind: item.1.kind(), start: item.1.start_value() });
            i = i + 1;
        }
        r
    }
}

/// How a GPIO pin is used.
pub enum PinConfig {
    /// An output that sets the pin high for `true` and low for `false`.
    DigitalOut { pin: u8 },
    /// An input that reads `true` while the pin is high.
    DigitalIn { pin: u8, pull_up: bool },
    /// An output that takes a duty cycle between 0.0 and 1.0 and drives the
    /// pin with a software PWM signal of the given frequency.
    SoftPwmOut { pin: u8, frequency: FloatBits },
}

/// A GPIO module with named pins.
pub struct GpioConfig {
    pub pins: Vec<(String, PinConfig)>,
}

/// The named inputs that a pin list provides.
pub open spec fn gpio_inputs(pins: Seq<(String, PinConfig)>) -> Seq<(Seq<char>, ValueKind)>
    decreases pins.len(),
{
    if pins.len() == 0 {
        Seq::empty()
    } else {
        let rest = gpio_inputs(pins.drop_last());
        match pins.last().1 {
            PinConfig::DigitalIn { .. } => rest.push((pins.last().0@, ValueKind::Bool)),
            _ => rest,
        }
    }
}

/// The named outputs that a pin list provides.
pub open spec fn gpio_outputs(pins: Seq<(String, PinConfig)>) -> Seq<(Seq<char>, ValueKind)>
    decreases pins.len(),
{
    if pins.len() == 0 {
        Seq::empty()
    } else {
        let rest = gpio_outputs(pins.drop_last());
        match pins.last().1 {
            PinConfig::DigitalOut { .. } => rest.push((pins.last().0@, ValueKind::Bool)),
            PinConfig::SoftPwmOut { .. } => rest.push((pins.last().0@, ValueKind::Float)),
            _ => rest,
        }
    }
}

impl GpioConfig {
    /// The named inputs and outputs the pins provide: a digital input reads
    /// Bools, a digital output takes Bools, a PWM output takes Floats.
    pub fn io_kinds(&self) -> (r: (Vec<(String, ValueKind)>, Vec<(String, ValueKind)>))
        ensures
            kinds_view(r.0@) == gpio_inputs(self.pins@),
            kinds_view(r.1@) == gpio_outputs(self.pins@),
    {
        let mut inputs: Vec<(String, ValueKind)> = Vec::new();
        let mut outputs: Vec<(String, ValueKind)> = Vec::new();
        let mut i: usize = 0;
        proof {
            assert(self.pins@.take(0) =~= Seq::<(String, PinConfig)>::empty());
            assert(kinds_view(inputs@) =~= gpio_inputs(self.pins@.take(0)));
            assert(kinds_view(outputs@) =~= gpio_outputs(self.pins@.take(0)));
        }
        while i < self.pins.len()
            invariant
                i <= self.pins.len(),
                kinds_view(inputs@) == gpio_inputs(self.pins@.take(i as int)),
                kinds_view(outputs@) == gpio_outputs(self.pins@.take(i as int)),
            decreases self.pins.len() - i,
        {
            proof {
                assert(self.pins@.take(i + 1).drop_last() =~= self.pins@.take(i as int));
            }
            let ghost bi = inputs@;
            let ghost bo = outputs@;
            match &self.pins[i].1 {
                PinConfig::DigitalIn { .. } => {
                    inputs.push((self.pins[i].0.clone(), ValueKind::Bool));
                    proof {
                        assert(kinds_view(inputs@) =~= kinds_view(bi).push((self.pins@[i as int].0@, ValueKind::Bool)));
                    }
                },
                PinConfig::DigitalOut { .. } => {
                    outputs.push((self.pins[i].0.clone(), ValueKind::Bool));
                    proof {
                        assert(kinds_view(outputs@) =~= kinds_view(bo).push((self.pins@[i as int].0@, ValueKind::Bool)));
                    }
                },
                PinConfig::SoftPwmOut { .. } => {
                    outputs.push((self.pins[i].0.clone(), ValueKind::Float));
                    proof {
                        assert(kinds_view(outputs@) =~= kinds_view(bo).push((self.pins@[i as int].0@, ValueKind::Float)));
                    }
                },
            }
            i = i + 1;
        }
        proof {
            assert(self.pins@.take(self.pins@.len() as int) =~= self.pins@);
        }
        (inputs, outputs)
    }
}

/// The duty cycle a PWM output sets for a written value: `v.min(1.0).max(0.0)`.
pub fn duty_cycle(v: FloatBits) -> (r: FloatBits)
    ensures
        r.bits == clamp_spec(v.bits, ZERO_BITS, ONE_BITS),
{
    clamp(v, FloatBits::zero(), FloatBits::one())
}

impl GpioError {
    /// The error for a failure of the GPIO driver, described by `cause`.
    pub fn from_cause(cause: &str) -> (r: Self)
        ensures
            r.message@ == "RpiGpioBuildError - Cause: "@ + cause@,
    {
        let mut m = String::from_str("RpiGpioBuildError - Cause: ");
        m.append(cause);
        GpioError { message: m }
    }
}

/// A digital output driven by one GPIO pin.
pub struct DigitalBoolOutputConfig {
    pub pin: u8,
}

/// A software PWM output on one GPIO pin.
pub struct SoftPwmFloatOutputConfig {
    pub pin: u8,
    pub frequency_hertz: FloatBits,
}

/// The camera module has no settings of its own.
pub struct CameraConfig {}

/// The accelerometer and magnetometer module has no settings of its own.
pub struct Lsm303dlhcDeviceConfig {}

/// The named inputs that the accelerometer and magnetometer module provides:
/// two Arrays holding 3-vectors.
pub fn lsm303dlhc_inputs() -> (r: Vec<(String, ValueKind)>)
    ensures
        kinds_view(r@) == seq![("accelerometer"@, ValueKind::Array), ("magnetometer"@, ValueKind::Array)],
{
    let mut v: Vec<(String, ValueKind)> = Vec::new();
    v.push((String::from_str("accelerometer"), ValueKind::Array));
    v.push((String::from_str("magnetometer"), ValueKind::Array));
    proof {
        assert(kinds_view(v@) =~= seq![("accelerometer"@, ValueKind::Array), ("magnetometer"@, ValueKind::Array)]);
    }
    v
}

/// The named inputs that the temperature and pressure module provides.
pub fn bmp180_inputs() -> (r: Vec<(String, ValueKind)>)
    ensures
        kinds_view(r@) == seq![("temperature_c"@, ValueKind::Float), ("pressure_h_pa"@, ValueKind::Float)],
{
    let mut v: Vec<(String, ValueKind)> = Vec::new();
    v.push((String::from_str("temperature_c"), ValueKind::Float));
    v.push((String::from_str("pressure_h_pa"), ValueKind::Float));
    proof {
        assert(kinds_view(v@) =~= seq![("temperature_c"@, ValueKind::Float), ("pressure_h_pa"@, ValueKind::Float)]);
    }
    v
}

/// The inputs and outputs of the camera module: the MJPEG frames as a
/// Binary input; switching it on and off, its quality and its frame rate as
/// outputs.
pub fn camera_io() -> (r: (Vec<(String, ValueKind)>, Vec<(String, ValueKind)>))
    ensures
        kinds_view(r.0@) == seq![("mjpeg"@, ValueKind::Binary)],
        kinds_view(r.1@) == seq![("enable"@, ValueKind::Bool), ("quality"@, ValueKind::Float), ("framerate"@, ValueKind::Float)],
{
    let mut i: Vec<(String, ValueKind)> = Vec::new();
    i.push((String::from_str("mjpeg"), ValueKind::Binary));
    let mut o: Vec<(String, ValueKind)> = Vec::new();
    o.push((String::from_str("enable"), ValueKind::Bool));
    o.push((String::from_str("quality"), ValueKind::Float));
    o.push((String::from_str("framerate"), ValueKind::Float));
    proof {
        assert(kinds_view(i@) =~= seq![("mjpeg"@, ValueKind::Binary)]);
        assert(kinds_view(o@) =~= seq![("enable"@, ValueKind::Bool), ("quality"@, ValueKind::Float), ("framerate"@, ValueKind::Float)]);
    }
    (i, o)
}

/// A server endpoint.
pub enum EndpointConfig {
    /// A web socket that reads and writes the named inputs and outputs.
    WebSocket { inputs: Vec<String>, outputs: Vec<String> },
    /// Static files from a directory.
    Static { directory: String },
    /// An MJPEG stream of the frames written to a Binary output.
    Mjpeg { output: String },
}

/// The subscription an endpoint makes to the server state, as sets of names.
pub open spec fn endpoint_subscription(e: EndpointConfig) -> Option<(Set<Seq<char>>, Set<Seq<char>>)> {
    match e {
        EndpointConfig::WebSocket { inputs, outputs } => Some((name_set(inputs@), name_set(outputs@))),
        EndpointConfig::Static { .. } => None,
        EndpointConfig::Mjpeg { output } => Some((Set::empty(), set![output@])),
    }
}

impl EndpointConfig {
    /// The input and output names the endpoint subscribes to, each once;
    /// a static endpoint subscribes to nothing.
    pub fn subscription(&self) -> (r: Option<(Vec<String>, Vec<String>)>)
        ensures
            match r {
                Some((i, o)) => names_unique(i@) && names_unique(o@)
                    && endpoint_subscription(*self) == Some((name_set(i@), name_set(o@))),
                None => endpoint_subscription(*self) is None,
            },
    {
        match self {
            EndpointConfig::WebSocket { inputs, outputs } => {
                let ir = refs_of(inputs);
                let orr = refs_of(outputs);
                let i = distinct_names(&ir);
                let o = distinct_names(&orr);
                proof {
                    assert(name_set(i@) =~= name_set(inputs@)) by {
                        assert forall|k: Seq<char>| name_set(i@).contains(k) <==> name_set(inputs@).contains(k) by {
                            if name_set(inputs@).contains(k) {
                                let j = choose|j: int| 0 <= j < inputs@.len() && (#[trigger] inputs@[j])@ == k;
                                assert(ir@[j]@ == k);
                            }
                            if name_set(i@).contains(k) {
                                let j = choose|j: int| 0 <= j < ir@.len() && (#[trigger] ir@[j])@ == k;
                                assert(inputs@[j]@ == k);
                            }
                        }
                    }
                    assert(name_set(o@) =~= name_set(outputs@)) by {
                        assert forall|k: Seq<char>| name_set(o@).contains(k) <==> name_set(outputs@).contains(k) by {
                            if name_set(outputs@).contains(k) {
                                let j = choose|j: int| 0 <= j < outputs@.len() && (#[trigger] outputs@[j])@ == k;
                                assert(orr@[j]@ == k);
                            }
                            if name_set(o@).contains(k) {
                                let j = choose|j: int| 0 <= j < orr@.len() && (#[trigger] orr@[j])@ == k;
                                assert(outputs@[j]@ == k);
                            }
                        }
                    }
                }
                Some((i, o))
            },
            EndpointConfig::Static { .. } => None,
            EndpointConfig::Mjpeg { output } => {
                let i: Vec<String> = Vec::new();
                let mut o: Vec<String> = Vec::new();
                o.push(output.clone());
                proof {
                    assert(name_set(i@) =~= Set::<Seq<char>>::empty());
                    assert(name_set(o@) =~= set![output@]) by {
                        assert(o@[0]@ == output@);
                    }
                }
                Some((i, o))
            },
        }
    }
}

/// References to each string of a list, in order.
fn refs_of(v: &Vec<String>) -> (r: Vec<&String>)
    ensures
        r@.len() == v@.len(),
        forall|j: int| 0 <= j < v@.len() ==> *(#[trigger] r@[j]) == v@[j],
{
    let mut r: Vec<&String> = Vec::with_capacity(v.len());
    let mut i: usize = 0;
    while i < v.len()
        invariant
            i <= v.len(),
            r@.len() == i,
            forall|j: int| 0 <= j < i ==> *(#[trigger] r@[j]) == v@[j],
        decreases v.len() - i,
    {
        r.push(&v[i]);
        i = i + 1;
    }
    r
}

/// The web server module: its port, the inputs and outputs it serves, and
/// its endpoints by path.
pub struct ServerConfig {
    pub port: u16,
    pub root_context: String,
    pub inputs: Vec<(String, ServerInputConfig)>,
    pub outputs: Vec<(String, ServerOutputConfig)>,
    pub endpoints: Vec<(String, EndpointConfig)>,
    pub state_channel_size: Option<usize>,
    pub io_channel_size: Option<usize>,
}

impl ServerConfig {
    /// The size of the state's command channel: as configured, else 16.
    pub fn state_channel_size_or_default(&self) -> (r: usize)
        ensures
            r == match self.state_channel_size {
                Some(n) => n,
                None => 16usize,
            },
    {
        match self.state_channel_size {
            Some(n) => n,
            None => 16,
        }
    }
}

} // verus!
