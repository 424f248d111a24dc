//! How the server's inputs and outputs meet its state: an input starts from
//! its subscription's snapshot and follows the updates that name it; an
//! output writes each value it receives as an update.
use vstd::prelude::*;
use vstd::string::*;
use crate::error::{IocBuildError, ErrorView, error_view};
use crate::keyed::{key_index, find_key};
use crate::value::ValueKind;
use crate::config::{kind_text, kind_name};
use crate::server_state::{ServerInputConfig, ServerOutputConfig, ServerInputState, ServerOutputState,
    StateUpdate, InputView, input_view, input_kind, output_view, copy_input_state, copy_output_state,
    inputs_view, outputs_view, OutputView};

verus! {

/// The kind of value an input configuration describes.
pub open spec fn config_kind(c: ServerInputConfig) -> ValueKind {
    match c {
        ServerInputConfig::Float { .. } => ValueKind::Float,
        ServerInputConfig::Bool { .. } => ValueKind::Bool,
        ServerInputConfig::String { .. } => ValueKind::String,
        ServerInputConfig::Binary { .. } => ValueKind::Binary,
        ServerInputConfig::Array { .. } => ValueKind::Array,
        ServerInputConfig::Object { .. } => ValueKind::Object,
    }
}

/// The kind of value an input configuration describes.
pub fn input_config_kind(c: &ServerInputConfig) -> (r: ValueKind)
    ensures
        r == config_kind(*c),
{
    match c {
        ServerInputConfig::Float { .. } => ValueKind::Float,
        ServerInputConfig::Bool { .. } => ValueKind::Bool,
        ServerInputConfig::String { .. } => ValueKind::String,
        ServerInputConfig::Binary { .. } => ValueKind::Binary,
        ServerInputConfig::Array { .. } => ValueKind::Array,
        ServerInputConfig::Object { .. } => ValueKind::Object,
    }
}

/// The start of the input `key` of kind `kind` in a subscription's snapshot:
/// its state, or the error.
pub open spec fn input_start_spec(kind: ValueKind, key: Seq<char>, start: StateUpdate) -> Result<InputView, ErrorView> {
    match key_index(start.inputs@, key) {
        Some(j) => if input_kind(start.inputs@[j].1) == kind {
            Ok(input_view(start.inputs@[j].1))
        } else {
            Err(ErrorView::Message("Expected "@ + kind_text(kind) + " input for key: "@ + key))
        },
        None => Err(ErrorView::Message("No input found for key: "@ + key)),
    }
}

/// The state an input of `config` starts from, taken from its
/// subscription's snapshot.
pub fn input_start(config: &ServerInputConfig, key: &String, start: &StateUpdate) -> (r: Result<ServerInputState, IocBuildError>)
    ensures
        match input_start_spec(config_kind(*config), key@, *start) {
            Ok(v) => r matches Ok(s) && input_view(s) == v,
            Err(e) => r matches Err(err) && error_view(err) == e,
        },
{
    let kind = input_config_kind(config);
    match find_key(&start.inputs, key) {
        Some(j) => {
            if start.inputs[j].1.kind() == kind {
                Ok(copy_input_state(&start.inputs[j].1))
            } else {
                let mut m = String::from_str("Expected ");
                let kn = kind_name(kind);
                m.append(kn.as_str());
                m.append(" input for key: ");
                m.append(key.as_str());
                Err(IocBuildError::from_string(m))
            }
        },
        None => {
            let mut m = String::from_str("No input found for key: ");
            m.append(key.as_str());
            Err(IocBuildError::from_string(m))
        },
    }
}

/// What an input does with an update.
pub enum InputForward {
    /// The update carries a new state of the input: pass its value on.
    Forward(ServerInputState),
    /// The update carries a state of another kind for the input: warn.
    WrongKind,
    /// The update does not name the input.
    Absent,
}

/// What the input `key` of kind `kind` does with `update`.
pub open spec fn forward_spec(kind: ValueKind, key: Seq<char>, update: StateUpdate) -> Option<Option<InputView>> {
    match key_index(update.inputs@, key) {
        Some(j) => if input_kind(update.inputs@[j].1) == kind {
            Some(Some(input_view(update.inputs@[j].1)))
        } else {
            Some(None)
        },
        None => None,
    }
}

/// What the input `key` of kind `kind` does with `update`.
pub fn forward_input(kind: ValueKind, key: &String, update: &StateUpdate) -> (r: InputForward)
    ensures
        match r {
            InputForward::Forward(s) => forward_spec(kind, key@, *update) == Some(Some(input_view(s))),
            InputForward::WrongKind => forward_spec(kind, key@, *update) == Some(None::<InputView>),
            InputForward::Absent => forward_spec(kind, key@, *update) is None,
        },
{
    match find_key(&update.inputs, key) {
        Some(j) => {
            if update.inputs[j].1.kind() == kind {
                InputForward::Forward(copy_input_state(&update.inputs[j].1))
            } else {
                InputForward::WrongKind
            }
        },
        None => InputForward::Absent,
    }
}

/// The update that an output writes when it receives a value: that one
/// output, no inputs.
pub fn output_written(key: &String, state: ServerOutputState) -> (r: StateUpdate)
    ensures
        r.inputs@.len() == 0,
        outputs_view(r.outputs@) == seq![(key@, output_view(state))],
{
    let mut outputs: Vec<(String, ServerOutputState)> = Vec::new();
    outputs.push((key.clone(), state));
    proof {
        assert(outputs_view(outputs@) =~= seq![(key@, output_view(state))]);
    }
    StateUpdate { inputs: Vec::new(), outputs }
}

/// An input of the right kind follows what its own updates carry: the start
/// it reads is its snapshot's state, and each update that names it with its
/// kind is passed on as is.
pub proof fn law_input_follows_state(kind: ValueKind, key: Seq<char>, update: StateUpdate)
    ensures
        forward_spec(kind, key, update) matches Some(Some(v)) ==>
            input_start_spec(kind, key, update) == Ok::<InputView, ErrorView>(v),
        forward_spec(kind, key, update) is None ==> input_start_spec(kind, key, update) is Err,
{
}

} // verus!
