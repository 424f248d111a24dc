//! The values that web socket clients send and receive, and how they map to
//! and from the server's input and output states.
use vstd::prelude::*;
use crate::ieee::{FloatBits, ZERO_BITS};
use crate::value::{Value, ValueView, array_view, members_view, copy_values, copy_members, copy_bytes};
use crate::server_state::{ServerInputState, ServerOutputState, StateUpdate, InputView, input_view,
    input_after, inputs_view, outputs_view, output_view, OutputView};

verus! {

/// A value as a web socket message carries it.
pub enum WsStateUpdate {
    Bool { value: bool },
    Float { value: FloatBits },
    String { value: String },
    Binary { value: Vec<u8> },
    Array { value: Vec<Value> },
    Object { value: Vec<(String, Value)> },
}

/// The content of a message value.
pub open spec fn ws_view(u: WsStateUpdate) -> ValueView {
    match u {
        WsStateUpdate::Bool { value } => ValueView::Bool(value),
        WsStateUpdate::Float { value } => ValueView::Float(value.bits),
        WsStateUpdate::String { value } => ValueView::String(value@),
        WsStateUpdate::Binary { value } => ValueView::Binary(value@),
        WsStateUpdate::Array { value } => ValueView::Array(array_view(value)),
        WsStateUpdate::Object { value } => ValueView::Object(members_view(value)),
    }
}

/// The value of an input state, without its limits.
pub open spec fn input_value(s: ServerInputState) -> ValueView {
    match s {
        ServerInputState::Float { value, .. } => ValueView::Float(value.bits),
        ServerInputState::Bool { value } => ValueView::Bool(value),
        ServerInputState::String { value, .. } => ValueView::String(value@),
        ServerInputState::Binary { value } => ValueView::Binary(value@),
        ServerInputState::Array { value } => ValueView::Array(array_view(value)),
        ServerInputState::Object { value } => ValueView::Object(members_view(value)),
    }
}

/// The value of an output state, if it has one.
pub open spec fn output_value(s: ServerOutputState) -> Option<ValueView> {
    match s {
        ServerOutputState::Float { value } => match value { Some(v) => Some(ValueView::Float(v.bits)), None => None },
        ServerOutputState::Bool { value } => match value { Some(v) => Some(ValueView::Bool(v)), None => None },
        ServerOutputState::String { value } => match value { Some(v) => Some(ValueView::String(v@)), None => None },
        ServerOutputState::Binary { value } => match value { Some(v) => Some(ValueView::Binary(v@)), None => None },
        ServerOutputState::Array { value } => match value { Some(v) => Some(ValueView::Array(array_view(v))), None => None },
        ServerOutputState::Object { value } => match value { Some(v) => Some(ValueView::Object(members_view(v))), None => None },
    }
}

/// The input state that a client's value stands for: the value, with zero
/// limits (the store keeps its own limits when it takes the value).
pub open spec fn client_input(u: WsStateUpdate) -> InputView {
    match u {
        WsStateUpdate::Float { value } => InputView::Float { value: value.bits, min: ZERO_BITS, max: ZERO_BITS, step: ZERO_BITS },
        WsStateUpdate::Bool { value } => InputView::Bool(value),
        WsStateUpdate::String { value } => InputView::String { value: value@, max_length: 0 },
        WsStateUpdate::Binary { value } => InputView::Binary(value@),
        WsStateUpdate::Array { value } => InputView::Array(array_view(value)),
        WsStateUpdate::Object { value } => InputView::Object(members_view(value)),
    }
}

impl WsStateUpdate {
    /// The input state a client's value stands for.
    pub fn to_input_state(&self) -> (r: ServerInputState)
        ensures
            input_view(r) == client_input(*self),
            input_value(r) == ws_view(*self),
    {
        match self {
            WsStateUpdate::Float { value } => ServerInputState::Float {
                value: *value, min: FloatBits::zero(), max: FloatBits::zero(), step: FloatBits::zero(),
            },
            WsStateUpdate::Bool { value } => ServerInputState::Bool { value: *value },
            WsStateUpdate::String { value } => ServerInputState::String { value: value.clone(), max_length: 0 },
            WsStateUpdate::Binary { value } => ServerInputState::Binary { value: copy_bytes(value) },
            WsStateUpdate::Array { value } => ServerInputState::Array { value: copy_values(value) },
            WsStateUpdate::Object { value } => ServerInputState::Object { value: copy_members(value) },
        }
    }

    /// The value of an input state, as a message carries it.
    pub fn from_input_state(s: &ServerInputState) -> (r: Self)
        ensures
            ws_view(r) == input_value(*s),
    {
        match s {
            ServerInputState::Float { value, .. } => WsStateUpdate::Float { value: *value },
            ServerInputState::Bool { value } => WsStateUpdate::Bool { value: *value },
            ServerInputState::String { value, .. } => WsStateUpdate::String { value: value.clone() },
            ServerInputState::Binary { value } => WsStateUpdate::Binary { value: copy_bytes(value) },
            ServerInputState::Array { value } => WsStateUpdate::Array { value: copy_values(value) },
            ServerInputState::Object { value } => WsStateUpdate::Object { value: copy_members(value) },
        }
    }

    /// The value of an output state, as a message carries it; nothing while
    /// the output has no value.
    pub fn from_output_state(s: &ServerOutputState) -> (r: Option<Self>)
        ensures
            match r {
                Some(u) => output_value(*s) == Some(ws_view(u)),
                None => output_value(*s) is None,
            },
    {
        match s {
            ServerOutputState::Float { value } => match value {
                Some(v) => Some(WsStateUpdate::Float { value: *v }),
                None => None,
            },
            ServerOutputState::Bool { value } => match value {
                Some(v) => Some(WsStateUpdate::Bool { value: *v }),
                None => None,
            },
            ServerOutputState::String { value } => match value {
                Some(v) => Some(WsStateUpdate::String { value: v.clone() }),
                None => None,
            },
            ServerOutputState::Binary { value } => match value {
                Some(v) => Some(WsStateUpdate::Binary { value: copy_bytes(v) }),
                None => None,
            },
            ServerOutputState::Array { value } => match value {
                Some(v) => Some(WsStateUpdate::Array { value: copy_values(v) }),
                None => None,
            },
            ServerOutputState::Object { value } => match value {
                Some(v) => Some(WsStateUpdate::Object { value: copy_members(v) }),
                None => None,
            },
        }
    }
}

/// The named contents of a list of message values.
pub open spec fn ws_values(v: Seq<(String, WsStateUpdate)>) -> Seq<(Seq<char>, ValueView)> {
    v.map_values(|e: (String, WsStateUpdate)| (e.0@, ws_view(e.1)))
}

/// The named input values of an update.
pub open spec fn input_values(v: Seq<(String, ServerInputState)>) -> Seq<(Seq<char>, ValueView)> {
    v.map_values(|e: (String, ServerInputState)| (e.0@, input_value(e.1)))
}

/// The named output values of an update, leaving out outputs with no value.
pub open spec fn output_values(v: Seq<(String, ServerOutputState)>) -> Seq<(Seq<char>, ValueView)>
    decreases v.len(),
{
    if v.len() == 0 {
        Seq::empty()
    } else {
        let rest = output_values(v.drop_last());
        match output_value(v.last().1) {
            Some(x) => rest.push((v.last().0@, x)),
            None => rest,
        }
    }
}

/// The update that a client's message asks for: the named inputs, no outputs.
pub fn update_from_client(values: &Vec<(String, WsStateUpdate)>) -> (r: StateUpdate)
    ensures
        inputs_view(r.inputs@) == values@.map_values(|e: (String, WsStateUpdate)| (e.0@, client_input(e.1))),
        r.outputs@.len() == 0,
{
    let mut inputs: Vec<(String, ServerInputState)> = Vec::with_capacity(values.len());
    let mut i: usize = 0;
    while i < values.len()
        invariant
            i <= values.len(),
            inputs_view(inputs@) == values@.subrange(0, i as int).map_values(|e: (String, WsStateUpdate)| (e.0@, client_input(e.1))),
        decreases values.len() - i,
    {
        let ghost before = inputs@;
        inputs.push((values[i].0.clone(), values[i].1.to_input_state()));
        proof {
            assert(inputs_view(inputs@) =~= inputs_view(before).push((values@[i as int].0@, client_input(values@[i as int].1))));
            assert(values@.subrange(0, i + 1).map_values(|e: (String, WsStateUpdate)| (e.0@, client_input(e.1)))
                =~= values@.subrange(0, i as int).map_values(|e: (String, WsStateUpdate)| (e.0@, client_input(e.1)))
                    .push((values@[i as int].0@, client_input(values@[i as int].1))));
        }
        i = i + 1;
    }
    proof {
        assert(values@.subrange(0, values@.len() as int) =~= values@);
    }
    StateUpdate { inputs, outputs: Vec::new() }
}

/// The named values that an update message carries: every input, and every
/// output that has a value.
pub fn update_message(update: &StateUpdate) -> (r: (Vec<(String, WsStateUpdate)>, Vec<(String, WsStateUpdate)>))
    ensures
        ws_values(r.0@) == input_values(update.inputs@),
        ws_values(r.1@) == output_values(update.outputs@),
{
    let mut inputs: Vec<(String, WsStateUpdate)> = Vec::with_capacity(update.inputs.len());
    let mut i: usize = 0;
    while i < update.inputs.len()
        invariant
            i <= update.inputs.len(),
            ws_values(inputs@) == input_values(update.inputs@.subrange(0, i as int)),
        decreases update.inputs.len() - i,
    {
        let ghost before = inputs@;
        inputs.push((update.inputs[i].0.clone(), WsStateUpdate::from_input_state(&update.inputs[i].1)));
        proof {
            assert(ws_values(inputs@) =~= ws_values(before).push((update.inputs@[i as int].0@, input_value(update.inputs@[i as int].1))));
            assert(input_values(update.inputs@.subrange(0, i + 1))
                =~= input_values(update.inputs@.subrange(0, i as int)).push((update.inputs@[i as int].0@, input_value(update.inputs@[i as int].1))));
        }
        i = i + 1;
    }
    let mut outputs: Vec<(String, WsStateUpdate)> = Vec::with_capacity(update.outputs.len());
    let mut j: usize = 0;
    while j < update.outputs.len()
        invariant
            j <= update.outputs.len(),
            ws_values(outputs@) == output_values(update.outputs@.subrange(0, j as int)),
        decreases update.outputs.len() - j,
    {
        let ghost before = outputs@;
        proof {
            assert(update.outputs@.subrange(0, j + 1).drop_last() =~= update.outputs@.subrange(0, j as int));
        }
        match WsStateUpdate::from_output_state(&update.outputs[j].1) {
            Some(u) => {
                outputs.push((update.outputs[j].0.clone(), u));
                proof {
                    assert(ws_values(outputs@) =~= ws_values(before).push((update.outputs@[j as int].0@, ws_view(u))));
                }
            },
            None => {},
        }
        j = j + 1;
    }
    proof {
        assert(update.inputs@.subrange(0, update.inputs@.len() as int) =~= update.inputs@);
        assert(update.outputs@.subrange(0, update.outputs@.len() as int) =~= update.outputs@);
    }
    (inputs, outputs)
}

/// A client's Float value, taken by a Float input, keeps that input's limits;
/// so does a client's String value its maximum length.
pub proof fn law_client_value_keeps_limits(cur: ServerInputState, upd: ServerInputState, u: WsStateUpdate)
    requires
        input_view(upd) == client_input(u),
    ensures
        cur is Float && u is Float ==> upd is Float && input_after(cur, upd) == (InputView::Float {
            value: u->Float_value.bits,
            min: cur->Float_min.bits,
            max: cur->Float_max.bits,
            step: cur->Float_step.bits,
        }),
        cur is String && u is String ==> upd is String && input_after(cur, upd) == (InputView::String {
            value: u->String_value@,
            max_length: cur->String_max_length,
        }),
{
    match upd {
        ServerInputState::Float { .. } => {},
        ServerInputState::Bool { .. } => {},
        ServerInputState::String { .. } => {},
        ServerInputState::Binary { .. } => {},
        ServerInputState::Array { .. } => {},
        ServerInputState::Object { .. } => {},
    }
}

/// Sending an input's value to a client and taking it back gives the input
/// the same value.
pub proof fn law_input_value_round_trip(s: ServerInputState, u: WsStateUpdate, back: ServerInputState)
    requires
        ws_view(u) == input_value(s),
        input_view(back) == client_input(u),
    ensures
        input_value(back) == input_value(s),
{
    match back {
        ServerInputState::Float { .. } => {},
        _ => {},
    }
}

} // verus!
