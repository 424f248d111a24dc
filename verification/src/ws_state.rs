//! The state behind the stand-alone web socket server: Bool, Float and String
//! inputs that clients set (Floats clamped to their limits, Strings cut to
//! their maximum length) and outputs that the controllers write.
use vstd::prelude::*;
use vstd::string::*;
use crate::ieee::{FloatBits, ieee_eq, ieee_lt, is_nan_bits};
use crate::keyed::{key_index, keys_unique, find_key, lemma_key_index, lemma_key_index_unique};
use crate::transform::{clamp, clamp_spec, ieee_le, law_clamp_within};

verus! {

/// A value that a client or a controller sets.
pub enum WsStateValue {
    Bool { b: bool },
    Float { f: FloatBits },
    String { s: String },
}

/// The state of an input: its value and limits.
pub enum WsInputStateValue {
    Bool { b: bool },
    Float { f: FloatBits, min: FloatBits, max: FloatBits, step: FloatBits },
    String { s: String, max_length: usize },
}

/// The state of an output: its last value, if any.
pub enum WsOutputStateValue {
    Bool { b: Option<bool> },
    Float { f: Option<FloatBits> },
    String { s: Option<String> },
}

/// Configuration of a Float input.
pub struct WsInputFloatConfig {
    pub start: FloatBits,
    pub min: FloatBits,
    pub max: FloatBits,
    pub step: FloatBits,
}

/// Configuration of a Bool input.
pub struct WsInputBoolConfig {
    pub start: bool,
}

/// Configuration of a String input.
pub struct WsInputStringConfig {
    pub start: String,
    pub max_length: usize,
}

/// Configuration of an input.
pub enum WsStateInputConfig {
    Bool(WsInputBoolConfig),
    Float(WsInputFloatConfig),
    String(WsInputStringConfig),
}

/// Configuration of an output: its kind.
#[derive(Clone, Copy, Debug, PartialEq, Eq, Structural)]
pub enum WsStateOutputConfig {
    Bool,
    Float,
    String,
}

/// The content of an input state.
pub enum WsInputView {
    Bool(bool),
    Float { f: u64, min: u64, max: u64, step: u64 },
    String { s: Seq<char>, max_length: usize },
}

/// The content of an output state.
pub enum WsOutputView {
    Bool(Option<bool>),
    Float(Option<u64>),
    String(Option<Seq<char>>),
}

pub open spec fn ws_input_view(v: WsInputStateValue) -> WsInputView {
    match v {
        WsInputStateValue::Bool { b } => WsInputView::Bool(b),
        WsInputStateValue::Float { f, min, max, step } => WsInputView::Float { f: f.bits, min: min.bits, max: max.bits, step: step.bits },
        WsInputStateValue::String { s, max_length } => WsInputView::String { s: s@, max_length },
    }
}

pub open spec fn ws_output_view(v: WsOutputStateValue) -> WsOutputView {
    match v {
        WsOutputStateValue::Bool { b } => WsOutputView::Bool(b),
        WsOutputStateValue::Float { f } => WsOutputView::Float(match f { Some(x) => Some(x.bits), None => None }),
        WsOutputStateValue::String { s } => WsOutputView::String(match s { Some(x) => Some(x@), None => None }),
    }
}

/// Whether a Float configuration's limits are usable: `min <= max` (a NaN
/// limit passes, as the comparison is false).
pub open spec fn float_config_ok(c: WsStateInputConfig) -> bool {
    c matches WsStateInputConfig::Float(fc) ==> !ieee_lt(fc.max.bits, fc.min.bits)
}

/// The state an input configuration starts in.
pub open spec fn ws_initial_input(c: WsStateInputConfig) -> WsInputView {
    match c {
        WsStateInputConfig::Bool(b) => WsInputView::Bool(b.start),
        WsStateInputConfig::Float(f) => WsInputView::Float { f: f.start.bits, min: f.min.bits, max: f.max.bits, step: f.step.bits },
        WsStateInputConfig::String(s) => WsInputView::String { s: s.start@, max_length: s.max_length },
    }
}

/// The state an output configuration starts in: no value.
pub open spec fn ws_initial_output(c: WsStateOutputConfig) -> WsOutputView {
    match c {
        WsStateOutputConfig::Bool => WsOutputView::Bool(None),
        WsStateOutputConfig::Float => WsOutputView::Float(None),
        WsStateOutputConfig::String => WsOutputView::String(None),
    }
}

/// The first `n` characters of `s` (all of them when it is shorter).
pub open spec fn first_chars(s: Seq<char>, n: usize) -> Seq<char> {
    if s.len() <= n { s } else { s.subrange(0, n as int) }
}

/// What setting the input `cur` to `new` changes it to, or `None` when it
/// does not change (the same value, or a value of another kind).
pub open spec fn ws_input_next(cur: WsInputStateValue, new: WsStateValue) -> Option<WsInputView> {
    match (cur, new) {
        (WsInputStateValue::Bool { b: c }, WsStateValue::Bool { b: n }) =>
            if c != n { Some(WsInputView::Bool(n)) } else { None },
        (WsInputStateValue::Float { f: c, min, max, step }, WsStateValue::Float { f: n }) => {
            let cl = clamp_spec(n.bits, min.bits, max.bits);
            if !ieee_eq(c.bits, cl) { Some(WsInputView::Float { f: cl, min: min.bits, max: max.bits, step: step.bits }) } else { None }
        },
        (WsInputStateValue::String { s: c, max_length }, WsStateValue::String { s: n }) => {
            let t = first_chars(n@, max_length);
            if c@ != t { Some(WsInputView::String { s: t, max_length }) } else { None }
        },
        _ => None,
    }
}

/// What writing `new` to the output `cur` changes it to, or `None` when it
/// does not change (the same value, or a value of another kind).
pub open spec fn ws_output_next(cur: WsOutputStateValue, new: WsStateValue) -> Option<WsOutputView> {
    match (cur, new) {
        (WsOutputStateValue::Bool { b: c }, WsStateValue::Bool { b: n }) =>
            if c != Some(n) { Some(WsOutputView::Bool(Some(n))) } else { None },
        (WsOutputStateValue::Float { f: c }, WsStateValue::Float { f: n }) =>
            if (c matches Some(x) && ieee_eq(x.bits, n.bits)) { None } else { Some(WsOutputView::Float(Some(n.bits))) },
        (WsOutputStateValue::String { s: c }, WsStateValue::String { s: n }) =>
            if (c matches Some(x) && x@ == n@) { None } else { Some(WsOutputView::String(Some(n@))) },
        _ => None,
    }
}

/// The state of the input at `j` of `store` after setting the values `us`.
pub open spec fn ws_input_updated(store: Seq<(String, WsInputStateValue)>, us: Seq<(String, WsStateValue)>, j: int) -> WsInputView {
    match key_index(us, store[j].0@) {
        Some(u) => match ws_input_next(store[j].1, us[u].1) {
            Some(v) => v,
            None => ws_input_view(store[j].1),
        },
        None => ws_input_view(store[j].1),
    }
}

/// The state of the output at `j` of `store` after writing the values `us`.
pub open spec fn ws_output_updated(store: Seq<(String, WsOutputStateValue)>, us: Seq<(String, WsStateValue)>, j: int) -> WsOutputView {
    match key_index(us, store[j].0@) {
        Some(u) => match ws_output_next(store[j].1, us[u].1) {
            Some(v) => v,
            None => ws_output_view(store[j].1),
        },
        None => ws_output_view(store[j].1),
    }
}

/// The input changes that setting `us` reports, in the order of `us`.
pub open spec fn ws_input_changes(store: Seq<(String, WsInputStateValue)>, us: Seq<(String, WsStateValue)>)
    -> Seq<(Seq<char>, WsInputView)>
    decreases us.len(),
{
    if us.len() == 0 {
        Seq::empty()
    } else {
        let rest = ws_input_changes(store, us.drop_last());
        let k = us.last().0@;
        match key_index(store, k) {
            Some(j) => match ws_input_next(store[j].1, us.last().1) {
                Some(v) => rest.push((k, v)),
                None => rest,
            },
            None => rest,
        }
    }
}

/// The output changes that writing `us` reports, in the order of `us`.
pub open spec fn ws_output_changes(store: Seq<(String, WsOutputStateValue)>, us: Seq<(String, WsStateValue)>)
    -> Seq<(Seq<char>, WsOutputView)>
    decreases us.len(),
{
    if us.len() == 0 {
        Seq::empty()
    } else {
        let rest = ws_output_changes(store, us.drop_last());
        let k = us.last().0@;
        match key_index(store, k) {
            Some(j) => match ws_output_next(store[j].1, us.last().1) {
                Some(v) => rest.push((k, v)),
                None => rest,
            },
            None => rest,
        }
    }
}

pub open spec fn ws_inputs_view(s: Seq<(String, WsInputStateValue)>) -> Seq<(Seq<char>, WsInputView)> {
    s.map_values(|e: (String, WsInputStateValue)| (e.0@, ws_input_view(e.1)))
}

pub open spec fn ws_outputs_view(s: Seq<(String, WsOutputStateValue)>) -> Seq<(Seq<char>, WsOutputView)> {
    s.map_values(|e: (String, WsOutputStateValue)| (e.0@, ws_output_view(e.1)))
}

/// The first `max_length` characters of `s`.
pub fn truncate_chars(s: &String, max_length: usize) -> (r: String)
    ensures
        r@ == first_chars(s@, max_length),
{
    let st = s.as_str();
    let n = st.unicode_len();
    if n <= max_length {
        s.clone()
    } else {
        String::from_str(st.substring_char(0, max_length))
    }
}

impl WsInputStateValue {
    /// The state an input configuration starts in.
    pub fn from_config(c: &WsStateInputConfig) -> (r: Self)
        requires
            float_config_ok(*c),
        ensures
            ws_input_view(r) == ws_initial_input(*c),
    {
        match c {
            WsStateInputConfig::Bool(cfg) => WsInputStateValue::Bool { b: cfg.start },
            WsStateInputConfig::Float(cfg) => WsInputStateValue::Float { f: cfg.start, min: cfg.min, max: cfg.max, step: cfg.step },
            WsStateInputConfig::String(cfg) => WsInputStateValue::String { s: cfg.start.clone(), max_length: cfg.max_length },
        }
    }

    /// Sets this input to `new`: returns the new state if it changes.
    pub fn next(&self, new: &WsStateValue) -> (r: Option<WsInputStateValue>)
        ensures
            match r {
                Some(v) => ws_input_next(*self, *new) == Some(ws_input_view(v)),
                None => ws_input_next(*self, *new) is None,
            },
    {
        match (self, new) {
            (WsInputStateValue::Bool { b: c }, WsStateValue::Bool { b: n }) => {
                if *c != *n { Some(WsInputStateValue::Bool { b: *n }) } else { None }
            },
            (WsInputStateValue::Float { f: c, min, max, step }, WsStateValue::Float { f: n }) => {
                let cl = clamp(*n, *min, *max);
                if !c.ieee_eq(&cl) {
                    Some(WsInputStateValue::Float { f: cl, min: *min, max: *max, step: *step })
                } else {
                    None
                }
            },
            (WsInputStateValue::String { s: c, max_length }, WsStateValue::String { s: n }) => {
                let t = truncate_chars(n, *max_length);
                if !(*c == t) {
                    Some(WsInputStateValue::String { s: t, max_length: *max_length })
                } else {
                    None
                }
            },
            _ => None,
        }
    }

    /// A copy of this state.
    pub fn copy(&self) -> (r: Self)
        ensures
            ws_input_view(r) == ws_input_view(*self),
    {
        match self {
            WsInputStateValue::Bool { b } => WsInputStateValue::Bool { b: *b },
            WsInputStateValue::Float { f, min, max, step } => WsInputStateValue::Float { f: *f, min: *min, max: *max, step: *step },
            WsInputStateValue::String { s, max_length } => WsInputStateValue::String { s: s.clone(), max_length: *max_length },
        }
    }
}

impl WsOutputStateValue {
    /// The state an output configuration starts in: no value.
    pub fn from_config(c: &WsStateOutputConfig) -> (r: Self)
        ensures
            ws_output_view(r) == ws_initial_output(*c),
    {
        match c {
            WsStateOutputConfig::Bool => WsOutputStateValue::Bool { b: None },
            WsStateOutputConfig::Float => WsOutputStateValue::Float { f: None },
            WsStateOutputConfig::String => WsOutputStateValue::String { s: None },
        }
    }

    /// Writes `new` to this output: returns the new state if it changes.
    pub fn next(&self, new: &WsStateValue) -> (r: Option<WsOutputStateValue>)
        ensures
            match r {
                Some(v) => ws_output_next(*self, *new) == Some(ws_output_view(v)),
                None => ws_output_next(*self, *new) is None,
            },
    {
        match (self, new) {
            (WsOutputStateValue::Bool { b: c }, WsStateValue::Bool { b: n }) => {
                let same = match c { Some(x) => *x == *n, None => false };
                if !same { Some(WsOutputStateValue::Bool { b: Some(*n) }) } else { None }
            },
            (WsOutputStateValue::Float { f: c }, WsStateValue::Float { f: n }) => {
                let same = match c { Some(x) => x.ieee_eq(n), None => false };
                if !same { Some(WsOutputStateValue::Float { f: Some(*n) }) } else { None }
            },
            (WsOutputStateValue::String { s: c }, WsStateValue::String { s: n }) => {
                let same = match c { Some(x) => *x == *n, None => false };
                if !same { Some(WsOutputStateValue::String { s: Some(n.clone()) }) } else { None }
            },
            _ => None,
        }
    }

    /// A copy of this state.
    pub fn copy(&self) -> (r: Self)
        ensures
            ws_output_view(r) == ws_output_view(*self),
    {
        match self {
            WsOutputStateValue::Bool { b } => WsOutputStateValue::Bool { b: *b },
            WsOutputStateValue::Float { f } => WsOutputStateValue::Float { f: *f },
            WsOutputStateValue::String { s } => WsOutputStateValue::String {
                s: match s { Some(x) => Some(x.clone()), None => None },
            },
        }
    }
}

/// `new` is `old` after setting the inputs `us`.
pub open spec fn ws_inputs_step(old: Seq<(String, WsInputStateValue)>, us: Seq<(String, WsStateValue)>, new: Seq<(String, WsInputStateValue)>) -> bool {
    &&& new.len() == old.len()
    &&& forall|j: int| 0 <= j < old.len() ==> {
        &&& (#[trigger] new[j]).0@ == old[j].0@
        &&& ws_input_view(new[j].1) == ws_input_updated(old, us, j)
    }
}

/// `new` is `old` after writing the outputs `us`.
pub open spec fn ws_outputs_step(old: Seq<(String, WsOutputStateValue)>, us: Seq<(String, WsStateValue)>, new: Seq<(String, WsOutputStateValue)>) -> bool {
    &&& new.len() == old.len()
    &&& forall|j: int| 0 <= j < old.len() ==> {
        &&& (#[trigger] new[j]).0@ == old[j].0@
        &&& ws_output_view(new[j].1) == ws_output_updated(old, us, j)
    }
}

/// Adding an entry does not change where an earlier name is found.
proof fn lemma_key_index_push<T>(s: Seq<(String, T)>, e: (String, T), k: Seq<char>)
    ensures
        key_index(s.push(e), k) == (match key_index(s, k) {
            Some(i) => Some(i),
            None => if e.0@ == k { Some(s.len() as int) } else { None },
        }),
{
    assert(s.push(e).drop_last() =~= s);
}

/// In a list with distinct names, the name at `i` is not found before `i`.
proof fn lemma_key_absent_before<T>(us: Seq<(String, T)>, i: int)
    requires
        keys_unique(us),
        0 <= i < us.len(),
    ensures
        key_index(us.take(i), us[i].0@) is None,
{
    let t = us.take(i);
    lemma_key_index(t, us[i].0@);
    if let Some(m) = key_index(t, us[i].0@) {
        assert(t[m] == us[m]);
    }
}

/// The state of the stand-alone web socket server.
pub struct WsStateStore {
    pub inputs: Vec<(String, WsInputStateValue)>,
    pub outputs: Vec<(String, WsOutputStateValue)>,
}

impl WsStateStore {
    pub open spec fn wf(&self) -> bool {
        keys_unique(self.inputs@) && keys_unique(self.outputs@)
    }

    /// The state the configured inputs and outputs start in.
    pub fn new(inputs: &Vec<(String, WsStateInputConfig)>, outputs: &Vec<(String, WsStateOutputConfig)>) -> (r: Self)
        requires
            keys_unique(inputs@),
            keys_unique(outputs@),
            forall|j: int| 0 <= j < inputs@.len() ==> float_config_ok(#[trigger] inputs@[j].1),
        ensures
            r.wf(),
            r.inputs@.len() == inputs@.len(),
            forall|j: int| 0 <= j < inputs@.len() ==> (#[trigger] r.inputs@[j]).0@ == inputs@[j].0@
                && ws_input_view(r.inputs@[j].1) == ws_initial_input(inputs@[j].1),
            r.outputs@.len() == outputs@.len(),
            forall|j: int| 0 <= j < outputs@.len() ==> (#[trigger] r.outputs@[j]).0@ == outputs@[j].0@
                && ws_output_view(r.outputs@[j].1) == ws_initial_output(outputs@[j].1),
            (forall|j: int| 0 <= j < inputs@.len() ==> ws_within_limits(ws_initial_input(#[trigger] inputs@[j].1)))
                ==> ws_inputs_within_limits(r.inputs@),
    {
        let mut ins: Vec<(String, WsInputStateValue)> = Vec::with_capacity(inputs.len());
        let mut i: usize = 0;
        while i < inputs.len()
            invariant
                i <= inputs.len(),
                ins@.len() == i,
                forall|j: int| 0 <= j < inputs@.len() ==> float_config_ok(#[trigger] inputs@[j].1),
                forall|j: int| 0 <= j < i ==> (#[trigger] ins@[j]).0@ == inputs@[j].0@
                    && ws_input_view(ins@[j].1) == ws_initial_input(inputs@[j].1),
            decreases inputs.len() - i,
        {
            ins.push((inputs[i].0.clone(), WsInputStateValue::from_config(&inputs[i].1)));
            i = i + 1;
        }
        let mut outs: Vec<(String, WsOutputStateValue)> = Vec::with_capacity(outputs.len());
        let mut i: usize = 0;
        while i < outputs.len()
            invariant
                i <= outputs.len(),
                outs@.len() == i,
                forall|j: int| 0 <= j < i ==> (#[trigger] outs@[j]).0@ == outputs@[j].0@
                    && ws_output_view(outs@[j].1) == ws_initial_output(outputs@[j].1),
            decreases outputs.len() - i,
        {
            outs.push((outputs[i].0.clone(), WsOutputStateValue::from_config(&outputs[i].1)));
            i = i + 1;
        }
        proof {
            assert forall|a: int, b: int| 0 <= a < b < ins@.len() implies (#[trigger] ins@[a]).0@ != (#[trigger] ins@[b]).0@ by {
                assert(inputs@[a].0@ != inputs@[b].0@);
            }
            assert forall|a: int, b: int| 0 <= a < b < outs@.len() implies (#[trigger] outs@[a]).0@ != (#[trigger] outs@[b]).0@ by {
                assert(outputs@[a].0@ != outputs@[b].0@);
            }
        }
        WsStateStore { inputs: ins, outputs: outs }
    }

    /// Sets the inputs to the values `us` and returns the changes; values of
    /// unknown inputs or of another kind are ignored.
    pub fn set_inputs(&mut self, us: &Vec<(String, WsStateValue)>) -> (changes: Vec<(String, WsInputStateValue)>)
        requires
            old(self).wf(),
            keys_unique(us@),
        ensures
            final(self).wf(),
            final(self).outputs == old(self).outputs,
            ws_inputs_step(old(self).inputs@, us@, final(self).inputs@),
            ws_inputs_view(changes@) == ws_input_changes(old(self).inputs@, us@),
            ws_same_inputs(old(self).inputs@, final(self).inputs@),
            ws_inputs_within_limits(old(self).inputs@) ==> ws_inputs_within_limits(final(self).inputs@),
    {
        let ghost s0 = self.inputs@;
        let mut changes: Vec<(String, WsInputStateValue)> = Vec::new();
        let mut i: usize = 0;
        proof {
            assert(us@.take(0) =~= Seq::<(String, WsStateValue)>::empty());
            assert(ws_inputs_view(changes@) =~= ws_input_changes(s0, us@.take(0)));
        }
        while i < us.len()
            invariant
                i <= us.len(),
                keys_unique(s0),
                keys_unique(us@),
                self.outputs == old(self).outputs,
                keys_unique(self.outputs@),
                s0 == old(self).inputs@,
                self.inputs@.len() == s0.len(),
                forall|j: int| 0 <= j < s0.len() ==> {
                    &&& (#[trigger] self.inputs@[j]).0@ == s0[j].0@
                    &&& ws_input_view(self.inputs@[j].1) == ws_input_updated(s0, us@.take(i as int), j)
                    &&& (key_index(us@.take(i as int), s0[j].0@) is None ==> self.inputs@[j] == s0[j])
                },
                ws_inputs_view(changes@) == ws_input_changes(s0, us@.take(i as int)),
            decreases us.len() - i,
        {
            let ghost t = us@.take(i as int);
            let ghost t1 = us@.take(i + 1);
            let ghost k = us@[i as int].0@;
            proof {
                assert(t1 =~= t.push(us@[i as int]));
                lemma_key_absent_before(us@, i as int);
                lemma_key_index_push(t, us@[i as int], k);
                assert(t1.drop_last() =~= t);
                assert forall|j: int| 0 <= j < s0.len() && s0[j].0@ != k implies
                    #[trigger] key_index(t1, s0[j].0@) == key_index(t, s0[j].0@) by {
                    lemma_key_index_push(t, us@[i as int], s0[j].0@);
                }
            }
            let ghost before = self.inputs@;
            let ghost before_changes = changes@;
            match find_key(&self.inputs, &us[i].0) {
                Some(j) => {
                    proof {
                        lemma_key_index(self.inputs@, k);
                        lemma_key_index_unique(s0, j as int);
                        assert(self.inputs@[j as int] == s0[j as int]);
                        assert(key_index(s0, k) == Some(j as int));
                    }
                    match self.inputs[j].1.next(&us[i].1) {
                        Some(v) => {
                            let reported = v.copy();
                            let key = self.inputs[j].0.clone();
                            self.inputs.set(j, (key, v));
                            changes.push((us[i].0.clone(), reported));
                            proof {
                                assert(ws_inputs_view(changes@) =~= ws_inputs_view(before_changes).push((k, ws_input_view(reported))));
                            }
                        },
                        None => {},
                    }
                    proof {
                        assert forall|m: int| 0 <= m < s0.len() implies {
                            &&& (#[trigger] self.inputs@[m]).0@ == s0[m].0@
                            &&& ws_input_view(self.inputs@[m].1) == ws_input_updated(s0, t1, m)
                            &&& (key_index(t1, s0[m].0@) is None ==> self.inputs@[m] == s0[m])
                        } by {
                            if m != j as int {
                                lemma_key_index_unique(s0, m);
                                assert(s0[m].0@ != k);
                                lemma_key_index(t, s0[m].0@);
                                if let Some(u) = key_index(t, s0[m].0@) {
                                    assert(t1[u] == t[u]);
                                }
                                assert(self.inputs@[m] == before[m]);
                            } else {
                                assert(t1[i as int] == us@[i as int]);
                            }
                        }
                    }
                },
                None => {
                    proof {
                        lemma_key_index(self.inputs@, k);
                        assert(key_index(s0, k) is None) by {
                            lemma_key_index(s0, k);
                            if let Some(m) = key_index(s0, k) {
                                assert(self.inputs@[m].0@ == k);
                            }
                        }
                        assert forall|m: int| 0 <= m < s0.len() implies {
                            &&& (#[trigger] self.inputs@[m]).0@ == s0[m].0@
                            &&& ws_input_view(self.inputs@[m].1) == ws_input_updated(s0, t1, m)
                            &&& (key_index(t1, s0[m].0@) is None ==> self.inputs@[m] == s0[m])
                        } by {
                            assert(self.inputs@[m].0@ != k);
                            lemma_key_index(t, s0[m].0@);
                            if let Some(u) = key_index(t, s0[m].0@) {
                                assert(t1[u] == t[u]);
                            }
                        }
                    }
                },
            }
            i = i + 1;
        }
        proof {
            assert(us@.take(us@.len() as int) =~= us@);
            assert forall|a: int, b: int| 0 <= a < b < self.inputs@.len() implies (#[trigger] self.inputs@[a]).0@ != (#[trigger] self.inputs@[b]).0@ by {
                assert(s0[a].0@ != s0[b].0@);
            }
            assert(ws_inputs_step(s0, us@, self.inputs@));
            lemma_ws_step_keeps_limits(s0, us@, self.inputs@);
        }
        changes
    }

    /// Writes the values `us` to the outputs and returns the changes; values
    /// of unknown outputs or of another kind are ignored.
    pub fn set_outputs(&mut self, us: &Vec<(String, WsStateValue)>) -> (changes: Vec<(String, WsOutputStateValue)>)
        requires
            old(self).wf(),
            keys_unique(us@),
        ensures
            final(self).wf(),
            final(self).inputs == old(self).inputs,
            ws_outputs_step(old(self).outputs@, us@, final(self).outputs@),
            ws_outputs_view(changes@) == ws_output_changes(old(self).outputs@, us@),
    {
        let ghost s0 = self.outputs@;
        let mut changes: Vec<(String, WsOutputStateValue)> = Vec::new();
        let mut i: usize = 0;
        proof {
            assert(us@.take(0) =~= Seq::<(String, WsStateValue)>::empty());
            assert(ws_outputs_view(changes@) =~= ws_output_changes(s0, us@.take(0)));
        }
        while i < us.len()
            invariant
                i <= us.len(),
                keys_unique(s0),
                keys_unique(us@),
                self.inputs == old(self).inputs,
                keys_unique(self.inputs@),
                s0 == old(self).outputs@,
                self.outputs@.len() == s0.len(),
                forall|j: int| 0 <= j < s0.len() ==> {
                    &&& (#[trigger] self.outputs@[j]).0@ == s0[j].0@
                    &&& ws_output_view(self.outputs@[j].1) == ws_output_updated(s0, us@.take(i as int), j)
                    &&& (key_index(us@.take(i as int), s0[j].0@) is None ==> self.outputs@[j] == s0[j])
                },
                ws_outputs_view(changes@) == ws_output_changes(s0, us@.take(i as int)),
            decreases us.len() - i,
        {
            let ghost t = us@.take(i as int);
            let ghost t1 = us@.take(i + 1);
            let ghost k = us@[i as int].0@;
            proof {
                assert(t1 =~= t.push(us@[i as int]));
                lemma_key_absent_before(us@, i as int);
                lemma_key_index_push(t, us@[i as int], k);
                assert(t1.drop_last() =~= t);
                assert forall|j: int| 0 <= j < s0.len() && s0[j].0@ != k implies
                    #[trigger] key_index(t1, s0[j].0@) == key_index(t, s0[j].0@) by {
                    lemma_key_index_push(t, us@[i as int], s0[j].0@);
                }
            }
            let ghost before = self.outputs@;
            let ghost before_changes = changes@;
            match find_key(&self.outputs, &us[i].0) {
                Some(j) => {
                    proof {
                        lemma_key_index(self.outputs@, k);
                        lemma_key_index_unique(s0, j as int);
                        assert(self.outputs@[j as int] == s0[j as int]);
                        assert(key_index(s0, k) == Some(j as int));
                    }
                    match self.outputs[j].1.next(&us[i].1) {
                        Some(v) => {
                            let reported = v.copy();
                            let key = self.outputs[j].0.clone();
                            self.outputs.set(j, (key, v));
                            changes.push((us[i].0.clone(), reported));
                            proof {
                                assert(ws_outputs_view(changes@) =~= ws_outputs_view(before_changes).push((k, ws_output_view(reported))));
                            }
                        },
                        None => {},
                    }
                    proof {
                        assert forall|m: int| 0 <= m < s0.len() implies {
                            &&& (#[trigger] self.outputs@[m]).0@ == s0[m].0@
                            &&& ws_output_view(self.outputs@[m].1) == ws_output_updated(s0, t1, m)
                            &&& (key_index(t1, s0[m].0@) is None ==> self.outputs@[m] == s0[m])
                        } by {
                            if m != j as int {
                                lemma_key_index_unique(s0, m);
                                assert(s0[m].0@ != k);
                                lemma_key_index(t, s0[m].0@);
                                if let Some(u) = key_index(t, s0[m].0@) {
                                    assert(t1[u] == t[u]);
                                }
                                assert(self.outputs@[m] == before[m]);
                            } else {
                                assert(t1[i as int] == us@[i as int]);
                            }
                        }
                    }
                },
                None => {
                    proof {
                        lemma_key_index(self.outputs@, k);
                        assert(key_index(s0, k) is None) by {
                            lemma_key_index(s0, k);
                            if let Some(m) = key_index(s0, k) {
                                assert(self.outputs@[m].0@ == k);
                            }
                        }
                        assert forall|m: int| 0 <= m < s0.len() implies {
                            &&& (#[trigger] self.outputs@[m]).0@ == s0[m].0@
                            &&& ws_output_view(self.outputs@[m].1) == ws_output_updated(s0, t1, m)
                            &&& (key_index(t1, s0[m].0@) is None ==> self.outputs@[m] == s0[m])
                        } by {
                            assert(self.outputs@[m].0@ != k);
                            lemma_key_index(t, s0[m].0@);
                            if let Some(u) = key_index(t, s0[m].0@) {
                                assert(t1[u] == t[u]);
                            }
                        }
                    }
                },
            }
            i = i + 1;
        }
        proof {
            assert(us@.take(us@.len() as int) =~= us@);
            assert forall|a: int, b: int| 0 <= a < b < self.outputs@.len() implies (#[trigger] self.outputs@[a]).0@ != (#[trigger] self.outputs@[b]).0@ by {
                assert(s0[a].0@ != s0[b].0@);
            }
        }
        changes
    }

    /// Copies of the input states, for a subscription's start.
    pub fn input_snapshot(&self) -> (r: Vec<(String, WsInputStateValue)>)
        ensures
            ws_inputs_view(r@) == ws_inputs_view(self.inputs@),
    {
        let mut r: Vec<(String, WsInputStateValue)> = Vec::with_capacity(self.inputs.len());
        let mut i: usize = 0;
        while i < self.inputs.len()
            invariant
                i <= self.inputs.len(),
                ws_inputs_view(r@) == ws_inputs_view(self.inputs@.subrange(0, i as int)),
            decreases self.inputs.len() - i,
        {
            let ghost before = r@;
            r.push((self.inputs[i].0.clone(), self.inputs[i].1.copy()));
            proof {
                assert(self.inputs@.subrange(0, i + 1) =~= self.inputs@.subrange(0, i as int).push(self.inputs@[i as int]));
                assert(ws_inputs_view(r@) =~= ws_inputs_view(before).push((self.inputs@[i as int].0@, ws_input_view(self.inputs@[i as int].1))));
                assert(ws_inputs_view(r@) =~= ws_inputs_view(self.inputs@.subrange(0, i + 1)));
            }
            i = i + 1;
        }
        proof {
            assert(self.inputs@.subrange(0, self.inputs@.len() as int) =~= self.inputs@);
        }
        r
    }

    /// Copies of the output states, for a subscription's start.
    pub fn output_snapshot(&self) -> (r: Vec<(String, WsOutputStateValue)>)
        ensures
            ws_outputs_view(r@) == ws_outputs_view(self.outputs@),
    {
        let mut r: Vec<(String, WsOutputStateValue)> = Vec::with_capacity(self.outputs.len());
        let mut i: usize = 0;
        while i < self.outputs.len()
            invariant
                i <= self.outputs.len(),
                ws_outputs_view(r@) == ws_outputs_view(self.outputs@.subrange(0, i as int)),
            decreases self.outputs.len() - i,
        {
            let ghost before = r@;
            r.push((self.outputs[i].0.clone(), self.outputs[i].1.copy()));
            proof {
                assert(self.outputs@.subrange(0, i + 1) =~= self.outputs@.subrange(0, i as int).push(self.outputs@[i as int]));
                assert(ws_outputs_view(r@) =~= ws_outputs_view(before).push((self.outputs@[i as int].0@, ws_output_view(self.outputs@[i as int].1))));
                assert(ws_outputs_view(r@) =~= ws_outputs_view(self.outputs@.subrange(0, i + 1)));
            }
            i = i + 1;
        }
        proof {
            assert(self.outputs@.subrange(0, self.outputs@.len() as int) =~= self.outputs@);
        }
        r
    }
}

/// A Float input set by a client holds a number within its limits (for
/// numeric limits with `min <= max`), and a String input holds at most its
/// maximum length of characters.
pub proof fn law_ws_input_within_limits(cur: WsInputStateValue, new: WsStateValue)
    ensures
        ws_input_next(cur, new) matches Some(WsInputView::Float { f, min, max, .. }) ==>
            (ieee_le(min, max) ==> ieee_le(min, f) && ieee_le(f, max)),
        ws_input_next(cur, new) matches Some(WsInputView::String { s, max_length }) ==> s.len() <= max_length,
{
    if let Some(WsInputView::Float { f, min, max, .. }) = ws_input_next(cur, new) {
        if let (WsInputStateValue::Float { .. }, WsStateValue::Float { f: n }) = (cur, new) {
            if ieee_le(min, max) {
                law_clamp_within(n.bits, min, max);
            }
        }
    }
}

/// Setting an input to the value it was just set to changes nothing (for a
/// Float input with numeric limits `min <= max`).
pub proof fn law_ws_input_set_twice(cur: WsInputStateValue, new: WsStateValue, mid: WsInputStateValue)
    requires
        ws_input_next(cur, new) matches Some(v) && ws_input_view(mid) == v,
        cur matches WsInputStateValue::Float { min, max, .. } ==> ieee_le(min.bits, max.bits),
    ensures
        ws_input_next(mid, new) is None,
{
    match (cur, new) {
        (WsInputStateValue::Float { f: c, min, max, step }, WsStateValue::Float { f: n }) => {
            law_clamp_within(n.bits, min.bits, max.bits);
            let cl = clamp_spec(n.bits, min.bits, max.bits);
            law_clamp_within(cl, min.bits, max.bits);
            match mid {
                WsInputStateValue::Float { .. } => {},
                _ => {},
            }
        },
        (WsInputStateValue::String { s: c, max_length }, WsStateValue::String { s: n }) => {
            match mid {
                WsInputStateValue::String { .. } => {},
                _ => {},
            }
        },
        (WsInputStateValue::Bool { .. }, WsStateValue::Bool { .. }) => {
            match mid {
                WsInputStateValue::Bool { .. } => {},
                _ => {},
            }
        },
        _ => {},
    }
}

/// Whether `now` is what an input that was `before` holds once a client has
/// set it to `set`, a value of its kind: a Bool exactly the value set, a
/// String its first `max_length` characters, a Float the value clamped to
/// its limits (as an IEEE number); the limits stay those of `before`.
pub open spec fn ws_holds_written(before: WsInputStateValue, set: WsStateValue, now: WsInputView) -> bool {
    match (before, set) {
        (WsInputStateValue::Bool { .. }, WsStateValue::Bool { b: n }) => now == WsInputView::Bool(n),
        (WsInputStateValue::String { max_length, .. }, WsStateValue::String { s: n }) =>
            now == (WsInputView::String { s: first_chars(n@, max_length), max_length }),
        (WsInputStateValue::Float { min, max, step, .. }, WsStateValue::Float { f: n }) => {
            let c = clamp_spec(n.bits, min.bits, max.bits);
            now matches WsInputView::Float { f, min: min2, max: max2, step: step2 }
                && min2 == min.bits && max2 == max.bits && step2 == step.bits
                && (f == c || ieee_eq(f, c))
        },
        _ => true,
    }
}

/// Read after write, for every kind and every pair of values: after a client
/// sets a known input to a value of its kind, the input holds that value (a
/// Bool either way round), and keeps its limits.
pub proof fn law_ws_input_holds_written_value(
    old: Seq<(String, WsInputStateValue)>,
    us: Seq<(String, WsStateValue)>,
    new: Seq<(String, WsInputStateValue)>,
    j: int,
    u: int,
)
    requires
        ws_inputs_step(old, us, new),
        0 <= j < old.len(),
        key_index(us, old[j].0@) == Some(u),
    ensures
        new[j].0@ == old[j].0@,
        ws_holds_written(old[j].1, us[u].1, ws_input_view(new[j].1)),
{
    assert(ws_input_view(new[j].1) == ws_input_updated(old, us, j));
}

/// An input's value lies within its limits: a Float between its limits
/// (when they are numbers with `min <= max`), a String no longer than its
/// maximum length.
pub open spec fn ws_within_limits(v: WsInputView) -> bool {
    match v {
        WsInputView::Bool(_) => true,
        WsInputView::Float { f, min, max, .. } => ieee_le(min, max) ==> ieee_le(min, f) && ieee_le(f, max),
        WsInputView::String { s, max_length } => s.len() <= max_length,
    }
}

/// Two input states of the same kind with the same limits.
pub open spec fn ws_same_limits(a: WsInputView, b: WsInputView) -> bool {
    match (a, b) {
        (WsInputView::Bool(_), WsInputView::Bool(_)) => true,
        (WsInputView::Float { min, max, step, .. }, WsInputView::Float { min: min2, max: max2, step: step2, .. }) =>
            min == min2 && max == max2 && step == step2,
        (WsInputView::String { max_length, .. }, WsInputView::String { max_length: max_length2, .. }) =>
            max_length == max_length2,
        _ => false,
    }
}

/// Every input of `s` holds a value within its limits.
pub open spec fn ws_inputs_within_limits(s: Seq<(String, WsInputStateValue)>) -> bool {
    forall|j: int| 0 <= j < s.len() ==> ws_within_limits(ws_input_view(#[trigger] s[j].1))
}

/// `new` has the names, kinds and limits of `old`, entry by entry.
pub open spec fn ws_same_inputs(old: Seq<(String, WsInputStateValue)>, new: Seq<(String, WsInputStateValue)>) -> bool {
    &&& new.len() == old.len()
    &&& forall|j: int| 0 <= j < old.len() ==>
        (#[trigger] new[j]).0@ == old[j].0@ && ws_same_limits(ws_input_view(old[j].1), ws_input_view(new[j].1))
}

/// One setting of the inputs keeps every name, kind and limit, and keeps
/// every value within its limits.
pub proof fn lemma_ws_step_keeps_limits(
    old: Seq<(String, WsInputStateValue)>,
    us: Seq<(String, WsStateValue)>,
    new: Seq<(String, WsInputStateValue)>,
)
    requires
        ws_inputs_step(old, us, new),
    ensures
        ws_same_inputs(old, new),
        ws_inputs_within_limits(old) ==> ws_inputs_within_limits(new),
{
    assert forall|j: int| 0 <= j < old.len() implies
        (#[trigger] new[j]).0@ == old[j].0@ && ws_same_limits(ws_input_view(old[j].1), ws_input_view(new[j].1))
        && (ws_within_limits(ws_input_view(old[j].1)) ==> ws_within_limits(ws_input_view(new[j].1))) by {
        assert(ws_input_view(new[j].1) == ws_input_updated(old, us, j));
        if let Some(u) = key_index(us, old[j].0@) {
            law_ws_input_within_limits(old[j].1, us[u].1);
        }
    }
}

/// Over any run of commands, starting from inputs within their limits:
/// every input keeps its name, kind and limits, and every Float input holds
/// a number within its (numeric, ordered) limits and every String input at
/// most its maximum length of characters. A command either sets inputs
/// (`set_inputs`) or leaves them as they are (writing outputs, subscribing).
pub proof fn law_ws_inputs_stay_within_limits(
    states: Seq<Seq<(String, WsInputStateValue)>>,
    cmds: Seq<Seq<(String, WsStateValue)>>,
)
    requires
        states.len() == cmds.len() + 1,
        ws_inputs_within_limits(states[0]),
        forall|i: int| 0 <= i < cmds.len() ==>
            ws_inputs_step(states[i], #[trigger] cmds[i], states[i + 1]) || states[i + 1] == states[i],
    ensures
        forall|i: int| 0 <= i < states.len() ==>
            ws_inputs_within_limits(#[trigger] states[i]) && ws_same_inputs(states[0], states[i]),
    decreases cmds.len(),
{
    if cmds.len() > 0 {
        let n = cmds.len() - 1;
        let s2 = states.drop_last();
        let c2 = cmds.drop_last();
        assert forall|i: int| 0 <= i < c2.len() implies
            ws_inputs_step(s2[i], #[trigger] c2[i], s2[i + 1]) || s2[i + 1] == s2[i] by {
            assert(s2[i] == states[i] && s2[i + 1] == states[i + 1] && c2[i] == cmds[i]);
        }
        law_ws_inputs_stay_within_limits(s2, c2);
        assert(s2[n] == states[n]);
        assert(ws_inputs_within_limits(states[n]) && ws_same_inputs(states[0], states[n]));
        let last = states[n + 1];
        if ws_inputs_step(states[n], cmds[n], last) {
            lemma_ws_step_keeps_limits(states[n], cmds[n], last);
        }
        assert(ws_inputs_within_limits(last));
        assert forall|j: int| 0 <= j < states[0].len() implies
            (#[trigger] last[j]).0@ == states[0][j].0@
            && ws_same_limits(ws_input_view(states[0][j].1), ws_input_view(last[j].1)) by {
            let a = ws_input_view(states[0][j].1);
            let b = ws_input_view(states[n][j].1);
            let c = ws_input_view(last[j].1);
            assert(ws_same_limits(a, b));
            assert(ws_same_limits(b, c) || b == c);
        }
        assert forall|i: int| 0 <= i < states.len() implies
            ws_inputs_within_limits(#[trigger] states[i]) && ws_same_inputs(states[0], states[i]) by {
            if i < states.len() - 1 {
                assert(s2[i] == states[i]);
            }
        }
    }
}

/// The value an input state holds, without its limits.
pub open spec fn ws_plain(v: WsInputStateValue) -> WsStateValue {
    match v {
        WsInputStateValue::Bool { b } => WsStateValue::Bool { b },
        WsInputStateValue::Float { f, .. } => WsStateValue::Float { f },
        WsInputStateValue::String { s, .. } => WsStateValue::String { s },
    }
}

/// Whether two input states are of the same kind.
pub open spec fn ws_same_kind(a: WsInputStateValue, b: WsInputStateValue) -> bool {
    match (a, b) {
        (WsInputStateValue::Bool { .. }, WsInputStateValue::Bool { .. }) => true,
        (WsInputStateValue::Float { .. }, WsInputStateValue::Float { .. }) => true,
        (WsInputStateValue::String { .. }, WsInputStateValue::String { .. }) => true,
        _ => false,
    }
}

/// The content of a plain value.
pub open spec fn ws_value_view(v: WsStateValue) -> WsOutputView {
    match v {
        WsStateValue::Bool { b } => WsOutputView::Bool(Some(b)),
        WsStateValue::Float { f } => WsOutputView::Float(Some(f.bits)),
        WsStateValue::String { s } => WsOutputView::String(Some(s@)),
    }
}

impl WsInputStateValue {
    /// The value this state holds, without its limits.
    pub fn plain_value(&self) -> (r: WsStateValue)
        ensures
            ws_value_view(r) == ws_value_view(ws_plain(*self)),
    {
        match self {
            WsInputStateValue::Bool { b } => WsStateValue::Bool { b: *b },
            WsInputStateValue::Float { f, .. } => WsStateValue::Float { f: *f },
            WsInputStateValue::String { s, .. } => WsStateValue::String { s: s.clone() },
        }
    }

    /// What an input of this kind passes on from a changed state: its value
    /// when the state is of the same kind, nothing otherwise.
    pub fn forward(&self, changed: &WsInputStateValue) -> (r: Option<WsStateValue>)
        ensures
            match r {
                Some(v) => ws_same_kind(*self, *changed) && ws_value_view(v) == ws_value_view(ws_plain(*changed)),
                None => !ws_same_kind(*self, *changed),
            },
    {
        match (self, changed) {
            (WsInputStateValue::Bool { .. }, WsInputStateValue::Bool { .. }) => Some(changed.plain_value()),
            (WsInputStateValue::Float { .. }, WsInputStateValue::Float { .. }) => Some(changed.plain_value()),
            (WsInputStateValue::String { .. }, WsInputStateValue::String { .. }) => Some(changed.plain_value()),
            _ => None,
        }
    }
}

/// The values an output writes when it receives `v`: just that one.
pub fn output_command(key: &String, v: WsStateValue) -> (r: Vec<(String, WsStateValue)>)
    ensures
        r@.len() == 1,
        r@[0].0@ == key@,
        r@[0].1 == v,
        keys_unique(r@),
{
    let mut r: Vec<(String, WsStateValue)> = Vec::new();
    r.push((key.clone(), v));
    r
}

} // verus!
