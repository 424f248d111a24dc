//! The web server's global state: the current value of every input and output
//! it serves, how updates change it, and which subscribers hear about which
//! changes.
use vstd::prelude::*;
use crate::ieee::{FloatBits, ieee_eq};
use crate::keyed::{key_index, keys_unique, find_key, lemma_key_index, lemma_key_index_unique,
    name_set, names_unique, contains_name};
use crate::value::{Value, ValueKind, ValueView, value_view, view_wf, array_view, members_view, array_eq,
    object_eq, copy_value, copy_values, copy_members, copy_bytes, bytes_equal, arrays_equal, objects_equal};

verus! {

/// Configuration of one input that the server provides.
pub enum ServerInputConfig {
    Float { start: FloatBits, min: FloatBits, max: FloatBits, step: FloatBits },
    Bool { start: bool },
    String { start: String, max_length: usize },
    Binary { start: Vec<u8> },
    Array { start: Vec<Value> },
    Object { start: Vec<(String, Value)> },
}

/// Configuration of one output that the server accepts.
#[derive(Clone, Copy, Debug, PartialEq, Eq, Structural)]
pub enum ServerOutputConfig {
    Float,
    Bool,
    String,
    Binary,
    Array,
    Object,
}

/// The current state of an input: its value and the limits shown to clients.
pub enum ServerInputState {
    Float { value: FloatBits, min: FloatBits, max: FloatBits, step: FloatBits },
    Bool { value: bool },
    String { value: String, max_length: usize },
    Binary { value: Vec<u8> },
    Array { value: Vec<Value> },
    Object { value: Vec<(String, Value)> },
}

/// The current state of an output: its last value, if any was written yet.
pub enum ServerOutputState {
    Float { value: Option<FloatBits> },
    Bool { value: Option<bool> },
    String { value: Option<String> },
    Binary { value: Option<Vec<u8>> },
    Array { value: Option<Vec<Value>> },
    Object { value: Option<Vec<(String, Value)>> },
}

/// A set of named input and output states: a change, or a part of the state.
pub struct StateUpdate {
    pub inputs: Vec<(String, ServerInputState)>,
    pub outputs: Vec<(String, ServerOutputState)>,
}

/// The content of an input state.
pub enum InputView {
    Float { value: u64, min: u64, max: u64, step: u64 },
    Bool(bool),
    String { value: Seq<char>, max_length: usize },
    Binary(Seq<u8>),
    Array(Seq<ValueView>),
    Object(Seq<(Seq<char>, ValueView)>),
}

/// The content of an output state.
pub enum OutputView {
    Float(Option<u64>),
    Bool(Option<bool>),
    String(Option<Seq<char>>),
    Binary(Option<Seq<u8>>),
    Array(Option<Seq<ValueView>>),
    Object(Option<Seq<(Seq<char>, ValueView)>>),
}

pub open spec fn input_view(s: ServerInputState) -> InputView {
    match s {
        ServerInputState::Float { value, min, max, step } =>
            InputView::Float { value: value.bits, min: min.bits, max: max.bits, step: step.bits },
        ServerInputState::Bool { value } => InputView::Bool(value),
        ServerInputState::String { value, max_length } => InputView::String { value: value@, max_length },
        ServerInputState::Binary { value } => InputView::Binary(value@),
        ServerInputState::Array { value } => InputView::Array(array_view(value)),
        ServerInputState::Object { value } => InputView::Object(members_view(value)),
    }
}

pub open spec fn output_view(s: ServerOutputState) -> OutputView {
    match s {
        ServerOutputState::Float { value } => OutputView::Float(match value { Some(v) => Some(v.bits), None => None }),
        ServerOutputState::Bool { value } => OutputView::Bool(value),
        ServerOutputState::String { value } => OutputView::String(match value { Some(v) => Some(v@), None => None }),
        ServerOutputState::Binary { value } => OutputView::Binary(match value { Some(v) => Some(v@), None => None }),
        ServerOutputState::Array { value } => OutputView::Array(match value { Some(v) => Some(array_view(v)), None => None }),
        ServerOutputState::Object { value } => OutputView::Object(match value { Some(v) => Some(members_view(v)), None => None }),
    }
}

/// Every object in an input state, at every depth, has distinct member names.
pub open spec fn input_view_wf(v: InputView) -> bool {
    match v {
        InputView::Array(xs) => view_wf(ValueView::Array(xs)),
        InputView::Object(ms) => view_wf(ValueView::Object(ms)),
        _ => true,
    }
}

/// Every object in an output state, at every depth, has distinct member names.
pub open spec fn output_view_wf(v: OutputView) -> bool {
    match v {
        OutputView::Array(Some(xs)) => view_wf(ValueView::Array(xs)),
        OutputView::Object(Some(ms)) => view_wf(ValueView::Object(ms)),
        _ => true,
    }
}

pub open spec fn input_kind(s: ServerInputState) -> ValueKind {
    match s {
        ServerInputState::Float { .. } => ValueKind::Float,
        ServerInputState::Bool { .. } => ValueKind::Bool,
        ServerInputState::String { .. } => ValueKind::String,
        ServerInputState::Binary { .. } => ValueKind::Binary,
        ServerInputState::Array { .. } => ValueKind::Array,
        ServerInputState::Object { .. } => ValueKind::Object,
    }
}

pub open spec fn output_kind(s: ServerOutputState) -> ValueKind {
    match s {
        ServerOutputState::Float { .. } => ValueKind::Float,
        ServerOutputState::Bool { .. } => ValueKind::Bool,
        ServerOutputState::String { .. } => ValueKind::String,
        ServerOutputState::Binary { .. } => ValueKind::Binary,
        ServerOutputState::Array { .. } => ValueKind::Array,
        ServerOutputState::Object { .. } => ValueKind::Object,
    }
}

/// The initial state that an input configuration describes.
pub open spec fn initial_input(c: ServerInputConfig) -> InputView {
    match c {
        ServerInputConfig::Float { start, min, max, step } =>
            InputView::Float { value: start.bits, min: min.bits, max: max.bits, step: step.bits },
        ServerInputConfig::Bool { start } => InputView::Bool(start),
        ServerInputConfig::String { start, max_length } => InputView::String { value: start@, max_length },
        ServerInputConfig::Binary { start } => InputView::Binary(start@),
        ServerInputConfig::Array { start } => InputView::Array(array_view(start)),
        ServerInputConfig::Object { start } => InputView::Object(members_view(start)),
    }
}

/// The initial (empty) state that an output configuration describes.
pub open spec fn initial_output(c: ServerOutputConfig) -> OutputView {
    match c {
        ServerOutputConfig::Float => OutputView::Float(None),
        ServerOutputConfig::Bool => OutputView::Bool(None),
        ServerOutputConfig::String => OutputView::String(None),
        ServerOutputConfig::Binary => OutputView::Binary(None),
        ServerOutputConfig::Array => OutputView::Array(None),
        ServerOutputConfig::Object => OutputView::Object(None),
    }
}

/// Whether an update of an input to `upd` changes its current state `cur`
/// (the two have the same kind): `cur != upd` on the values.
pub open spec fn input_differs(cur: ServerInputState, upd: ServerInputState) -> bool {
    match (cur, upd) {
        (ServerInputState::Float { value: c, .. }, ServerInputState::Float { value: u, .. }) => !ieee_eq(c.bits, u.bits),
        (ServerInputState::Bool { value: c }, ServerInputState::Bool { value: u }) => c != u,
        (ServerInputState::String { value: c, .. }, ServerInputState::String { value: u, .. }) => c@ != u@,
        (ServerInputState::Binary { value: c }, ServerInputState::Binary { value: u }) => c@ != u@,
        (ServerInputState::Array { value: c }, ServerInputState::Array { value: u }) => !array_eq(c, u),
        (ServerInputState::Object { value: c }, ServerInputState::Object { value: u }) => !object_eq(c, u),
        _ => false,
    }
}

/// The state of an input after taking the value of `upd`: the new value, with
/// the limits of the current state `cur`.
pub open spec fn input_after(cur: ServerInputState, upd: ServerInputState) -> InputView {
    match (cur, upd) {
        (ServerInputState::Float { min, max, step, .. }, ServerInputState::Float { value: u, .. }) =>
            InputView::Float { value: u.bits, min: min.bits, max: max.bits, step: step.bits },
        (ServerInputState::String { max_length, .. }, ServerInputState::String { value: u, .. }) =>
            InputView::String { value: u@, max_length },
        _ => input_view(upd),
    }
}

/// The named contents of a list of input states.
pub open spec fn inputs_view(s: Seq<(String, ServerInputState)>) -> Seq<(Seq<char>, InputView)> {
    s.map_values(|e: (String, ServerInputState)| (e.0@, input_view(e.1)))
}

/// The named contents of a list of output states.
pub open spec fn outputs_view(s: Seq<(String, ServerOutputState)>) -> Seq<(Seq<char>, OutputView)> {
    s.map_values(|e: (String, ServerOutputState)| (e.0@, output_view(e.1)))
}

/// The input changes that applying the input updates `us` to the states
/// `store` records, in the order of `us`: each update of a known input that
/// differs from its current value.
pub open spec fn input_changes(store: Seq<(String, ServerInputState)>, us: Seq<(String, ServerInputState)>)
    -> Seq<(Seq<char>, InputView)>
    decreases us.len(),
{
    if us.len() == 0 {
        Seq::empty()
    } else {
        let rest = input_changes(store, us.drop_last());
        let k = us.last().0@;
        match key_index(store, k) {
            Some(j) => if input_differs(store[j].1, us.last().1) {
                rest.push((k, input_after(store[j].1, us.last().1)))
            } else {
                rest
            },
            None => rest,
        }
    }
}

/// The output changes that applying the output updates `us` records, in the
/// order of `us`: every update of a known output.
pub open spec fn output_changes(store: Seq<(String, ServerOutputState)>, us: Seq<(String, ServerOutputState)>)
    -> Seq<(Seq<char>, OutputView)>
    decreases us.len(),
{
    if us.len() == 0 {
        Seq::empty()
    } else {
        let rest = output_changes(store, us.drop_last());
        let k = us.last().0@;
        if key_index(store, k) is Some {
            rest.push((k, output_view(us.last().1)))
        } else {
            rest
        }
    }
}

/// The state of the input at position `j` of `store` after the updates `us`.
pub open spec fn input_updated(store: Seq<(String, ServerInputState)>, us: Seq<(String, ServerInputState)>, j: int)
    -> InputView
{
    match key_index(us, store[j].0@) {
        Some(u) => if input_differs(store[j].1, us[u].1) {
            input_after(store[j].1, us[u].1)
        } else {
            input_view(store[j].1)
        },
        None => input_view(store[j].1),
    }
}

/// The state of the output at position `j` of `store` after the updates `us`.
pub open spec fn output_updated(store: Seq<(String, ServerOutputState)>, us: Seq<(String, ServerOutputState)>, j: int)
    -> OutputView
{
    match key_index(us, store[j].0@) {
        Some(u) => output_view(us[u].1),
        None => output_view(store[j].1),
    }
}

/// A copy of an input state.
pub fn copy_input_state(s: &ServerInputState) -> (r: ServerInputState)
    ensures
        input_view(r) == input_view(*s),
        input_kind(r) == input_kind(*s),
{
    match s {
        ServerInputState::Float { value, min, max, step } =>
            ServerInputState::Float { value: *value, min: *min, max: *max, step: *step },
        ServerInputState::Bool { value } => ServerInputState::Bool { value: *value },
        ServerInputState::String { value, max_length } =>
            ServerInputState::String { value: value.clone(), max_length: *max_length },
        ServerInputState::Binary { value } => ServerInputState::Binary { value: copy_bytes(value) },
        ServerInputState::Array { value } => ServerInputState::Array { value: copy_values(value) },
        ServerInputState::Object { value } => ServerInputState::Object { value: copy_members(value) },
    }
}

/// A copy of an output state.
pub fn copy_output_state(s: &ServerOutputState) -> (r: ServerOutputState)
    ensures
        output_view(r) == output_view(*s),
        output_kind(r) == output_kind(*s),
{
    match s {
        ServerOutputState::Float { value } => ServerOutputState::Float { value: *value },
        ServerOutputState::Bool { value } => ServerOutputState::Bool { value: *value },
        ServerOutputState::String { value } => ServerOutputState::String {
            value: match value { Some(v) => Some(v.clone()), None => None },
        },
        ServerOutputState::Binary { value } => ServerOutputState::Binary {
            value: match value { Some(v) => Some(copy_bytes(v)), None => None },
        },
        ServerOutputState::Array { value } => ServerOutputState::Array {
            value: match value { Some(v) => Some(copy_values(v)), None => None },
        },
        ServerOutputState::Object { value } => ServerOutputState::Object {
            value: match value { Some(v) => Some(copy_members(v)), None => None },
        },
    }
}

impl ServerInputState {
    pub fn kind(&self) -> (r: ValueKind)
        ensures
            r == input_kind(*self),
    {
        match self {
            ServerInputState::Float { .. } => ValueKind::Float,
            ServerInputState::Bool { .. } => ValueKind::Bool,
            ServerInputState::String { .. } => ValueKind::String,
            ServerInputState::Binary { .. } => ValueKind::Binary,
            ServerInputState::Array { .. } => ValueKind::Array,
            ServerInputState::Object { .. } => ValueKind::Object,
        }
    }

    /// The initial state that an input configuration describes.
    pub fn from_config(config: &ServerInputConfig) -> (r: Self)
        ensures
            input_view(r) == initial_input(*config),
    {
        match config {
            ServerInputConfig::Float { start, min, max, step } =>
                ServerInputState::Float { value: *start, min: *min, max: *max, step: *step },
            ServerInputConfig::Bool { start } => ServerInputState::Bool { value: *start },
            ServerInputConfig::String { start, max_length } =>
                ServerInputState::String { value: start.clone(), max_length: *max_length },
            ServerInputConfig::Array { start } => ServerInputState::Array { value: copy_values(start) },
            ServerInputConfig::Binary { start } => ServerInputState::Binary { value: copy_bytes(start) },
            ServerInputConfig::Object { start } => ServerInputState::Object { value: copy_members(start) },
        }
    }

    /// Whether taking the value of `upd` changes this state (same kind).
    pub fn differs(&self, upd: &ServerInputState) -> (r: bool)
        ensures
            r == input_differs(*self, *upd),
    {
        match (self, upd) {
            (ServerInputState::Float { value: c, .. }, ServerInputState::Float { value: u, .. }) => !c.ieee_eq(u),
            (ServerInputState::Bool { value: c }, ServerInputState::Bool { value: u }) => *c != *u,
            (ServerInputState::String { value: c, .. }, ServerInputState::String { value: u, .. }) => !(*c == *u),
            (ServerInputState::Binary { value: c }, ServerInputState::Binary { value: u }) => !bytes_equal(c, u),
            (ServerInputState::Array { value: c }, ServerInputState::Array { value: u }) => !arrays_equal(c, u),
            (ServerInputState::Object { value: c }, ServerInputState::Object { value: u }) => !objects_equal(c, u),
            _ => false,
        }
    }

    /// This state after taking the value of `upd` (same kind).
    pub fn after(&self, upd: &ServerInputState) -> (r: ServerInputState)
        requires
            input_kind(*self) == input_kind(*upd),
        ensures
            input_view(r) == input_after(*self, *upd),
            input_kind(r) == input_kind(*self),
    {
        match (self, upd) {
            (ServerInputState::Float { min, max, step, .. }, ServerInputState::Float { value: u, .. }) =>
                ServerInputState::Float { value: *u, min: *min, max: *max, step: *step },
            (ServerInputState::String { max_length, .. }, ServerInputState::String { value: u, .. }) =>
                ServerInputState::String { value: u.clone(), max_length: *max_length },
            _ => copy_input_state(upd),
        }
    }
}

impl ServerOutputState {
    pub fn kind(&self) -> (r: ValueKind)
        ensures
            r == output_kind(*self),
    {
        match self {
            ServerOutputState::Float { .. } => ValueKind::Float,
            ServerOutputState::Bool { .. } => ValueKind::Bool,
            ServerOutputState::String { .. } => ValueKind::String,
            ServerOutputState::Binary { .. } => ValueKind::Binary,
            ServerOutputState::Array { .. } => ValueKind::Array,
            ServerOutputState::Object { .. } => ValueKind::Object,
        }
    }

    /// The initial state of an output: no value yet.
    pub fn from_config(config: &ServerOutputConfig) -> (r: Self)
        ensures
            output_view(r) == initial_output(*config),
    {
        match config {
            ServerOutputConfig::Float => ServerOutputState::Float { value: None },
            ServerOutputConfig::Bool => ServerOutputState::Bool { value: None },
            ServerOutputConfig::String => ServerOutputState::String { value: None },
            ServerOutputConfig::Binary => ServerOutputState::Binary { value: None },
            ServerOutputConfig::Array => ServerOutputState::Array { value: None },
            ServerOutputConfig::Object => ServerOutputState::Object { value: None },
        }
    }
}

} // verus!
