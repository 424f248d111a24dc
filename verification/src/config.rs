//! Checks that the configured pipes and transformers fit the inputs and
//! outputs that are available, the errors they report when they do not, and
//! the inputs that each one provides downstream.
use vstd::prelude::*;
use crate::error::{IocBuildError, ErrorView, error_view, all_messages};
use crate::keyed::{key_index, keys_unique, find_key, name_set, names_unique, contains_name};
use crate::value::ValueKind;
use crate::ieee::{FloatBits, ieee_eq, ieee_lt, is_nan_bits, ZERO_BITS};
use crate::transform::{LimiterParams, limiter_params_error};

verus! {

/// The name of a kind, as its `Debug` form prints it.
pub open spec fn kind_text(k: ValueKind) -> Seq<char> {
    match k {
        ValueKind::String => "String"@,
        ValueKind::Binary => "Binary"@,
        ValueKind::Float => "Float"@,
        ValueKind::Bool => "Bool"@,
        ValueKind::Array => "Array"@,
        ValueKind::Object => "Object"@,
    }
}

/// The name of a kind, as its `Debug` form prints it.
pub fn kind_name(k: ValueKind) -> (r: String)
    ensures
        r@ == kind_text(k),
{
    match k {
        ValueKind::String => String::from_str("String"),
        ValueKind::Binary => String::from_str("Binary"),
        ValueKind::Float => String::from_str("Float"),
        ValueKind::Bool => String::from_str("Bool"),
        ValueKind::Array => String::from_str("Array"),
        ValueKind::Object => String::from_str("Object"),
    }
}

/// The kind of the entry named `name`, if there is one.
pub open spec fn kind_of(entries: Seq<(String, ValueKind)>, name: Seq<char>) -> Option<ValueKind> {
    match key_index(entries, name) {
        Some(j) => Some(entries[j].1),
        None => None,
    }
}

/// The kind of the entry named `name`, if there is one.
pub fn find_kind(entries: &Vec<(String, ValueKind)>, name: &String) -> (r: Option<ValueKind>)
    ensures
        r == kind_of(entries@, name@),
{
    match find_key(entries, name) {
        Some(j) => Some(entries[j].1),
        None => None,
    }
}

/// The error, if any, of taking the Float input `name` for the transformer
/// that `what` describes.
pub open spec fn float_input_error(upstream: Seq<(String, ValueKind)>, name: Seq<char>, what: Seq<char>) -> Option<ErrorView> {
    match kind_of(upstream, name) {
        Some(ValueKind::Float) => None,
        Some(k) => Some(ErrorView::Message("unable to build "@ + what + " from non-float input of type "@ + kind_text(k))),
        None => Some(ErrorView::Message("no input with name "@ + name)),
    }
}

/// The first of two possible errors.
pub open spec fn first_error(a: Option<ErrorView>, b: Option<ErrorView>) -> Option<ErrorView> {
    if a is Some { a } else { b }
}

/// The content of a build result: the named kinds of the inputs it provides,
/// or its error.
pub open spec fn build_view(r: Result<Vec<(String, ValueKind)>, IocBuildError>) -> Result<Seq<(Seq<char>, ValueKind)>, ErrorView> {
    match r {
        Ok(v) => Ok(named_kinds(v@)),
        Err(e) => Err(error_view(e)),
    }
}

/// The names and kinds of a list of named kinds.
pub open spec fn named_kinds(v: Seq<(String, ValueKind)>) -> Seq<(Seq<char>, ValueKind)> {
    v.map_values(|e: (String, ValueKind)| (e.0@, e.1))
}

/// The result of a build that either fails with `e` or provides `provides`.
pub open spec fn result_of(e: Option<ErrorView>, provides: Seq<(Seq<char>, ValueKind)>) -> Result<Seq<(Seq<char>, ValueKind)>, ErrorView> {
    match e {
        Some(err) => Err(err),
        None => Ok(provides),
    }
}

/// Fails with the message `"unable to build " + what + " from non-float input
/// of type " + kind` or `"no input with name " + name` unless `name` is a
/// Float input.
pub fn check_float_input(upstream: &Vec<(String, ValueKind)>, name: &String, what: &str) -> (r: Result<(), IocBuildError>)
    ensures
        match float_input_error(upstream@, name@, what@) {
            Some(e) => r matches Err(err) && error_view(err) == e,
            None => r is Ok,
        },
{
    match find_kind(upstream, name) {
        Some(ValueKind::Float) => Ok(()),
        Some(k) => {
            let mut m = String::from_str("unable to build ");
            m.append(what);
            m.append(" from non-float input of type ");
            let kn = kind_name(k);
            m.append(kn.as_str());
            Err(IocBuildError::from_string(m))
        },
        None => {
            let mut m = String::from_str("no input with name ");
            m.append(name.as_str());
            Err(IocBuildError::from_string(m))
        },
    }
}

/// A single named Float input.
fn provides_one(name: &str) -> (r: Vec<(String, ValueKind)>)
    ensures
        named_kinds(r@) == seq![(name@, ValueKind::Float)],
{
    let mut v: Vec<(String, ValueKind)> = Vec::new();
    v.push((String::from_str(name), ValueKind::Float));
    proof {
        assert(named_kinds(v@) =~= seq![(name@, ValueKind::Float)]);
    }
    v
}

/// The names of a list, each once, in the order they first occur.
pub fn distinct_names(names: &Vec<&String>) -> (r: Vec<String>)
    ensures
        names_unique(r@),
        forall|k: Seq<char>| name_set(r@).contains(k) <==> (exists|i: int| 0 <= i < names@.len() && (#[trigger] names@[i])@ == k),
{
    let mut r: Vec<String> = Vec::new();
    let mut i: usize = 0;
    while i < names.len()
        invariant
            i <= names.len(),
            names_unique(r@),
            forall|k: Seq<char>| name_set(r@).contains(k) <==> (exists|j: int| 0 <= j < i && (#[trigger] names@[j])@ == k),
        decreases names.len() - i,
    {
        let n: &String = names[i];
        if !contains_name(&r, n) {
            let ghost before = r@;
            r.push(n.clone());
            proof {
                assert forall|a: int, b: int| 0 <= a < b < r@.len() implies (#[trigger] r@[a])@ != (#[trigger] r@[b])@ by {
                    if b == before.len() {
                        assert(name_set(before).contains(before[a]@));
                    }
                }
                assert forall|k: Seq<char>| name_set(r@).contains(k) <==> (exists|j: int| 0 <= j < i + 1 && (#[trigger] names@[j])@ == k) by {
                    if name_set(r@).contains(k) {
                        let w = choose|w: int| 0 <= w < r@.len() && (#[trigger] r@[w])@ == k;
                        if w < before.len() {
                            assert(name_set(before).contains(before[w]@));
                        } else {
                            assert(names@[i as int]@ == k);
                        }
                    }
                    if exists|j: int| 0 <= j < i + 1 && (#[trigger] names@[j])@ == k {
                        let j = choose|j: int| 0 <= j < i + 1 && (#[trigger] names@[j])@ == k;
                        if j < i {
                            assert(name_set(before).contains(k));
                            let w = choose|w: int| 0 <= w < before.len() && (#[trigger] before[w])@ == k;
                            assert(r@[w] == before[w]);
                        } else {
                            assert(r@[before.len() as int]@ == k);
                        }
                    }
                }
            }
        } else {
            proof {
                assert forall|k: Seq<char>| name_set(r@).contains(k) <==> (exists|j: int| 0 <= j < i + 1 && (#[trigger] names@[j])@ == k) by {
                    if exists|j: int| 0 <= j < i + 1 && (#[trigger] names@[j])@ == k {
                        let j = choose|j: int| 0 <= j < i + 1 && (#[trigger] names@[j])@ == k;
                        if j == i {
                            assert(name_set(r@).contains(names@[i as int]@));
                        }
                    }
                }
            }
        }
        i = i + 1;
    }
    r
}

/// A `Pipe` reads values from an input and writes them to an output.
pub struct PipeConfig {
    pub from: String,
    pub to: String,
}

/// What building a pipe from `from` to `to` gives: the kind it carries, or
/// the error.
pub open spec fn pipe_result(from: Seq<char>, to: Seq<char>, input: Option<ValueKind>, output: Option<ValueKind>)
    -> Result<ValueKind, ErrorView>
{
    match (input, output) {
        (Some(i), Some(o)) => if i == o {
            Ok(i)
        } else {
            Err(ErrorView::Message("got mismatched types when trying to build Pipe from "@ + from + " to "@ + to
                + ". types were "@ + kind_text(i) + " and "@ + kind_text(o) + " respectively"@))
        },
        _ => Err(ErrorView::Messages(
            (if input is None {
                seq!["can't build Pipe from "@ + from + " to "@ + to + ". input "@ + from + " not found."@]
            } else {
                Seq::empty()
            }) + (if output is None {
                seq!["can't build Pipe from "@ + from + " to "@ + to + ". output "@ + to + " not found."@]
            } else {
                Seq::empty()
            }),
        )),
    }
}

/// A pipe joins an input and an output of one and the same kind: building
/// it succeeds exactly when both exist and their kinds are equal, and it
/// then carries that kind; any other pair of kinds is refused.
pub proof fn law_pipe_joins_equal_kinds(from: Seq<char>, to: Seq<char>, input: Option<ValueKind>, output: Option<ValueKind>)
    ensures
        pipe_result(from, to, input, output) is Ok <==> (input is Some && input == output),
        pipe_result(from, to, input, output) matches Ok(k) ==> input == Some(k) && output == Some(k),
{
}

impl PipeConfig {
    /// Checks that the pipe's input and output exist and carry the same kind
    /// of value, and gives that kind.
    pub fn try_build(&self, inputs: &Vec<(String, ValueKind)>, outputs: &Vec<(String, ValueKind)>)
        -> (r: Result<ValueKind, IocBuildError>)
        ensures
            match pipe_result(self.from@, self.to@, kind_of(inputs@, self.from@), kind_of(outputs@, self.to@)) {
                Ok(k) => r == Ok::<ValueKind, IocBuildError>(k),
                Err(e) => r matches Err(err) && error_view(err) == e,
            },
            r is Ok <==> (kind_of(inputs@, self.from@) is Some && kind_of(inputs@, self.from@) == kind_of(outputs@, self.to@)),
            r matches Ok(k) ==> kind_of(inputs@, self.from@) == Some(k) && kind_of(outputs@, self.to@) == Some(k),
    {
        proof {
            law_pipe_joins_equal_kinds(self.from@, self.to@, kind_of(inputs@, self.from@), kind_of(outputs@, self.to@));
        }
        let input = find_kind(inputs, &self.from);
        let output = find_kind(outputs, &self.to);
        match (input, output) {
            (Some(i), Some(o)) => {
                if i == o {
                    Ok(i)
                } else {
                    let mut m = String::from_str("got mismatched types when trying to build Pipe from ");
                    m.append(self.from.as_str());
                    m.append(" to ");
                    m.append(self.to.as_str());
                    m.append(". types were ");
                    let a = kind_name(i);
                    m.append(a.as_str());
                    m.append(" and ");
                    let b = kind_name(o);
                    m.append(b.as_str());
                    m.append(" respectively");
                    Err(IocBuildError::from_string(m))
                }
            },
            (input, output) => {
                let mut errs: Vec<String> = Vec::with_capacity(2);
                if input.is_none() {
                    let mut m = String::from_str("can't build Pipe from ");
                    m.append(self.from.as_str());
                    m.append(" to ");
                    m.append(self.to.as_str());
                    m.append(". input ");
                    m.append(self.from.as_str());
                    m.append(" not found.");
                    errs.push(m);
                }
                if output.is_none() {
                    let mut m = String::from_str("can't build Pipe from ");
                    m.append(self.from.as_str());
                    m.append(" to ");
                    m.append(self.to.as_str());
                    m.append(". output ");
                    m.append(self.to.as_str());
                    m.append(" not found.");
                    errs.push(m);
                }
                let r = IocBuildError::messages(errs.as_slice());
                proof {
                    let e1: Seq<Seq<char>> = if input is None {
                        seq!["can't build Pipe from "@ + self.from@ + " to "@ + self.to@ + ". input "@ + self.from@ + " not found."@]
                    } else {
                        Seq::empty()
                    };
                    let e2: Seq<Seq<char>> = if output is None {
                        seq!["can't build Pipe from "@ + self.from@ + " to "@ + self.to@ + ". output "@ + self.to@ + " not found."@]
                    } else {
                        Seq::empty()
                    };
                    assert(crate::error::texts(errs@) =~= e1 + e2);
                }
                Err(r)
            },
        }
    }
}

/// A transformer that emits the sum of any number of Float inputs, as the
/// input `value`.
pub struct SumTransformerConfig {
    pub inputs: Vec<String>,
}

/// The messages for the summed inputs that are missing or not Floats, in order.
pub open spec fn sum_errors(upstream: Seq<(String, ValueKind)>, names: Seq<String>) -> Seq<Seq<char>>
    decreases names.len(),
{
    if names.len() == 0 {
        Seq::empty()
    } else {
        let rest = sum_errors(upstream, names.drop_last());
        let k = names.last()@;
        match kind_of(upstream, k) {
            Some(ValueKind::Float) => rest,
            Some(o) => rest.push("Expected input '"@ + k + "' to be a Float but got "@ + kind_text(o)),
            None => rest.push("No input named '"@ + k + "'"@),
        }
    }
}

/// What building the sum gives: every problem at once, or the input `value`.
pub open spec fn sum_result(upstream: Seq<(String, ValueKind)>, names: Seq<String>) -> Result<Seq<(Seq<char>, ValueKind)>, ErrorView> {
    if sum_errors(upstream, names).len() > 0 {
        Err(ErrorView::Messages(sum_errors(upstream, names)))
    } else {
        Ok(seq![("value"@, ValueKind::Float)])
    }
}

impl SumTransformerConfig {
    /// Checks that every summed input is a Float, and gives the inputs the
    /// sum provides.
    pub fn try_build(&self, upstream: &Vec<(String, ValueKind)>) -> (r: Result<Vec<(String, ValueKind)>, IocBuildError>)
        ensures
            build_view(r) == sum_result(upstream@, self.inputs@),
    {
        let mut errors: Vec<IocBuildError> = Vec::with_capacity(self.inputs.len());
        let mut i: usize = 0;
        proof {
            assert(self.inputs@.take(0) =~= Seq::<String>::empty());
            assert(all_messages(errors@) =~= sum_errors(upstream@, self.inputs@.take(0)));
        }
        while i < self.inputs.len()
            invariant
                i <= self.inputs.len(),
                all_messages(errors@) == sum_errors(upstream@, self.inputs@.take(i as int)),
                all_messages(errors@).len() == errors@.len(),
            decreases self.inputs.len() - i,
        {
            proof {
                assert(self.inputs@.take(i + 1).drop_last() =~= self.inputs@.take(i as int));
            }
            let key = &self.inputs[i];
            let ghost before = errors@;
            match find_kind(upstream, key) {
                Some(ValueKind::Float) => {},
                Some(other) => {
                    let mut m = String::from_str("Expected input '");
                    m.append(key.as_str());
                    m.append("' to be a Float but got ");
                    let kn = kind_name(other);
                    m.append(kn.as_str());
                    errors.push(IocBuildError::from_string(m));
                    proof {
                        assert(errors@.drop_last() =~= before);
                    }
                },
                None => {
                    let mut m = String::from_str("No input named '");
                    m.append(key.as_str());
                    m.append("'");
                    errors.push(IocBuildError::from_string(m));
                    proof {
                        assert(errors@.drop_last() =~= before);
                    }
                },
            }
            i = i + 1;
        }
        proof {
            assert(self.inputs@.take(self.inputs@.len() as int) =~= self.inputs@);
        }
        if errors.len() > 0 {
            let e = IocBuildError::from_errs(errors);
            proof {
                assert(error_view(e) == ErrorView::Messages(sum_errors(upstream@, self.inputs@)));
            }
            return Err(e);
        }
        Ok(provides_one("value"))
    }

    /// The inputs the sum reads, each once.
    pub fn needs_inputs(&self) -> (r: Vec<String>)
        ensures
            names_unique(r@),
            name_set(r@) == name_set(self.inputs@),
    {
        let mut refs: Vec<&String> = Vec::with_capacity(self.inputs.len());
        let mut i: usize = 0;
        while i < self.inputs.len()
            invariant
                i <= self.inputs.len(),
                refs@.len() == i,
                forall|j: int| 0 <= j < i ==> *(#[trigger] refs@[j]) == self.inputs@[j],
            decreases self.inputs.len() - i,
        {
            refs.push(&self.inputs[i]);
            i = i + 1;
        }
        let r = distinct_names(&refs);
        proof {
            assert forall|k: Seq<char>| name_set(r@).contains(k) <==> name_set(self.inputs@).contains(k) by {
                if name_set(self.inputs@).contains(k) {
                    let j = choose|j: int| 0 <= j < self.inputs@.len() && (#[trigger] self.inputs@[j])@ == k;
                    assert(refs@[j]@ == k);
                }
                if name_set(r@).contains(k) {
                    let j = choose|j: int| 0 <= j < refs@.len() && (#[trigger] refs@[j])@ == k;
                    assert(self.inputs@[j]@ == k);
                }
            }
            assert(name_set(r@) =~= name_set(self.inputs@));
        }
        r
    }
}

/// The names of a fixed list of fields, as a set.
pub open spec fn field_set(fields: Seq<Seq<char>>) -> Set<Seq<char>> {
    Set::new(|k: Seq<char>| fields.contains(k))
}

/// The distinct names among a fixed list of fields.
fn needs_fields(fields: &Vec<&String>) -> (r: Vec<String>)
    ensures
        names_unique(r@),
        name_set(r@) == field_set(fields@.map_values(|s: &String| s@)),
{
    let r = distinct_names(fields);
    proof {
        let f = fields@.map_values(|s: &String| s@);
        assert forall|k: Seq<char>| name_set(r@).contains(k) <==> field_set(f).contains(k) by {
            if field_set(f).contains(k) {
                let j = choose|j: int| 0 <= j < f.len() && f[j] == k;
                assert(fields@[j]@ == k);
            }
            if name_set(r@).contains(k) {
                let j = choose|j: int| 0 <= j < fields@.len() && (#[trigger] fields@[j])@ == k;
                assert(f[j] == k);
            }
        }
        assert(name_set(r@) =~= field_set(f));
    }
    r
}

/// Consumes a Float input that is positive or negative and provides three:
/// `forward` (the input when positive, else zero), `reverse` (minus the input
/// when negative, else zero) and `enable` (one when the input is not zero).
pub struct HBridgeTransformerConfig {
    pub input: String,
}

pub open spec fn hbridge_provides() -> Seq<(Seq<char>, ValueKind)> {
    seq![("forward"@, ValueKind::Float), ("reverse"@, ValueKind::Float), ("enable"@, ValueKind::Float)]
}

impl HBridgeTransformerConfig {
    /// Checks the input, and gives the inputs the h-bridge provides.
    pub fn try_build(&self, upstream: &Vec<(String, ValueKind)>) -> (r: Result<Vec<(String, ValueKind)>, IocBuildError>)
        ensures
            build_view(r) == result_of(float_input_error(upstream@, self.input@, "hbridge"@), hbridge_provides()),
    {
        match check_float_input(upstream, &self.input, "hbridge") {
            Err(e) => Err(e),
            Ok(()) => {
                let mut v: Vec<(String, ValueKind)> = Vec::new();
                v.push((String::from_str("forward"), ValueKind::Float));
                v.push((String::from_str("reverse"), ValueKind::Float));
                v.push((String::from_str("enable"), ValueKind::Float));
                proof {
                    assert(named_kinds(v@) =~= hbridge_provides());
                }
                Ok(v)
            },
        }
    }

    pub fn needs_inputs(&self) -> (r: Vec<String>)
        ensures
            names_unique(r@),
            name_set(r@) == field_set(seq![self.input@]),
    {
        let fields = vec![&self.input];
        let r = needs_fields(&fields);
        proof {
            assert(fields@.map_values(|s: &String| s@) =~= seq![self.input@]);
        }
        r
    }
}

/// A linear map of a Float input, provided as `value`. `from` gives the
/// domain and `to` the range, two values each; `from[0]` must be less than
/// `from[1]`, and `to[0] > to[1]` gives an inverse relationship.
pub struct LinearTransformerConfig {
    pub input: String,
    pub from: Vec<FloatBits>,
    pub to: Vec<FloatBits>,
}

/// What building a linear transformer gives.
pub open spec fn linear_result(c: LinearTransformerConfig, upstream: Seq<(String, ValueKind)>) -> Result<Seq<(Seq<char>, ValueKind)>, ErrorView> {
    if c.from@.len() != 2 || c.to@.len() != 2 {
        Err(ErrorView::Message("LinearTransform must have exactly two values for the 'from' and 'to' fields"@))
    } else {
        match float_input_error(upstream, c.input@, "linear transformer"@) {
            Some(e) => Err(e),
            None => if ieee_eq(c.from@[0].bits, c.from@[1].bits) {
                Err(ErrorView::Message("can't build linear transform where from_range has no width"@))
            } else if !ieee_lt(c.from@[0].bits, c.from@[1].bits) {
                Err(ErrorView::Message("LinearTransform must have from[0] < from[1]"@))
            } else {
                Ok(seq![("value"@, ValueKind::Float)])
            },
        }
    }
}

impl LinearTransformerConfig {
    /// Checks the ranges and the input, and gives the inputs the transform
    /// provides.
    pub fn try_build(&self, upstream: &Vec<(String, ValueKind)>) -> (r: Result<Vec<(String, ValueKind)>, IocBuildError>)
        ensures
            build_view(r) == linear_result(*self, upstream@),
    {
        if self.from.len() != 2 || self.to.len() != 2 {
            return Err(IocBuildError::message("LinearTransform must have exactly two values for the 'from' and 'to' fields"));
        }
        match check_float_input(upstream, &self.input, "linear transformer") {
            Err(e) => Err(e),
            Ok(()) => {
                if self.from[0].ieee_eq(&self.from[1]) {
                    return Err(IocBuildError::message("can't build linear transform where from_range has no width"));
                }
                if !self.from[0].lt(&self.from[1]) {
                    return Err(IocBuildError::message("LinearTransform must have from[0] < from[1]"));
                }
                Ok(provides_one("value"))
            },
        }
    }

    pub fn needs_inputs(&self) -> (r: Vec<String>)
        ensures
            names_unique(r@),
            name_set(r@) == field_set(seq![self.input@]),
    {
        let fields = vec![&self.input];
        let r = needs_fields(&fields);
        proof {
            assert(fields@.map_values(|s: &String| s@) =~= seq![self.input@]);
        }
        r
    }
}

/// Clamps a Float input to `min ..= max`, provided as `value`.
pub struct ClampConfig {
    pub input: String,
    pub min: FloatBits,
    pub max: FloatBits,
}

/// What building a clamp gives.
pub open spec fn clamp_result(c: ClampConfig, upstream: Seq<(String, ValueKind)>) -> Result<Seq<(Seq<char>, ValueKind)>, ErrorView> {
    if ieee_lt(c.max.bits, c.min.bits) {
        Err(ErrorView::Message("unable to build clamp transformer. must have min <= max"@))
    } else {
        result_of(float_input_error(upstream, c.input@, "clamp transformer"@), seq![("value"@, ValueKind::Float)])
    }
}

impl ClampConfig {
    /// Checks the bounds and the input, and gives the inputs the clamp provides.
    pub fn try_build(&self, upstream: &Vec<(String, ValueKind)>) -> (r: Result<Vec<(String, ValueKind)>, IocBuildError>)
        ensures
            build_view(r) == clamp_result(*self, upstream@),
    {
        if self.max.lt(&self.min) {
            return Err(IocBuildError::message("unable to build clamp transformer. must have min <= max"));
        }
        match check_float_input(upstream, &self.input, "clamp transformer") {
            Err(e) => Err(e),
            Ok(()) => Ok(provides_one("value")),
        }
    }

    pub fn needs_inputs(&self) -> (r: Vec<String>)
        ensures
            names_unique(r@),
            name_set(r@) == field_set(seq![self.input@]),
    {
        let fields = vec![&self.input];
        let r = needs_fields(&fields);
        proof {
            assert(fields@.map_values(|s: &String| s@) =~= seq![self.input@]);
        }
        r
    }
}

/// Reads an Array input holding a 3-vector and provides its heading in the
/// x-y plane as `value`.
pub struct HeadingConfig {
    pub input: String,
}

/// The error, if any, of taking the Array input `name` for the heading.
pub open spec fn heading_input_error(upstream: Seq<(String, ValueKind)>, name: Seq<char>) -> Option<ErrorView> {
    match kind_of(upstream, name) {
        Some(ValueKind::Array) => None,
        Some(k) => Some(ErrorView::Message("unable to build clamp transformer from non-array input of type "@ + kind_text(k))),
        None => Some(ErrorView::Message("no input with name "@ + name)),
    }
}

impl HeadingConfig {
    /// Checks the input, and gives the inputs the heading provides.
    pub fn try_build(&self, upstream: &Vec<(String, ValueKind)>) -> (r: Result<Vec<(String, ValueKind)>, IocBuildError>)
        ensures
            build_view(r) == result_of(heading_input_error(upstream@, self.input@), seq![("value"@, ValueKind::Float)]),
    {
        match find_kind(upstream, &self.input) {
            Some(ValueKind::Array) => Ok(provides_one("value")),
            Some(x) => {
                let mut m = String::from_str("unable to build clamp transformer from non-array input of type ");
                let kn = kind_name(x);
                m.append(kn.as_str());
                Err(IocBuildError::from_string(m))
            },
            None => {
                let mut m = String::from_str("no input with name ");
                m.append(self.input.as_str());
                Err(IocBuildError::from_string(m))
            },
        }
    }

    pub fn needs_inputs(&self) -> (r: Vec<String>)
        ensures
            names_unique(r@),
            name_set(r@) == field_set(seq![self.input@]),
    {
        let fields = vec![&self.input];
        let r = needs_fields(&fields);
        proof {
            assert(fields@.map_values(|s: &String| s@) =~= seq![self.input@]);
        }
        r
    }
}

/// A PID controller: the coefficients, the set point and the process
/// variable are Float inputs; it provides the control signal as `value`
/// every `period_ms` milliseconds.
pub struct PidCtrlConfig {
    pub p: String,
    pub i: String,
    pub d: String,
    pub set_point: String,
    pub process_var: String,
    pub period_ms: u16,
}

/// The first problem among the controller's inputs, checked in the order
/// p, i, d, set point, process variable.
pub open spec fn pid_error(c: PidCtrlConfig, upstream: Seq<(String, ValueKind)>) -> Option<ErrorView> {
    first_error(float_input_error(upstream, c.p@, "pid controller"@),
    first_error(float_input_error(upstream, c.i@, "pid controller"@),
    first_error(float_input_error(upstream, c.d@, "pid controller"@),
    first_error(float_input_error(upstream, c.set_point@, "pid controller"@),
    float_input_error(upstream, c.process_var@, "pid controller"@)))))
}

impl PidCtrlConfig {
    /// Checks the inputs, and gives the inputs the controller provides.
    pub fn try_build(&self, upstream: &Vec<(String, ValueKind)>) -> (r: Result<Vec<(String, ValueKind)>, IocBuildError>)
        ensures
            build_view(r) == result_of(pid_error(*self, upstream@), seq![("value"@, ValueKind::Float)]),
    {
        if let Err(e) = check_float_input(upstream, &self.p, "pid controller") {
            return Err(e);
        }
        if let Err(e) = check_float_input(upstream, &self.i, "pid controller") {
            return Err(e);
        }
        if let Err(e) = check_float_input(upstream, &self.d, "pid controller") {
            return Err(e);
        }
        if let Err(e) = check_float_input(upstream, &self.set_point, "pid controller") {
            return Err(e);
        }
        if let Err(e) = check_float_input(upstream, &self.process_var, "pid controller") {
            return Err(e);
        }
        Ok(provides_one("value"))
    }

    pub fn needs_inputs(&self) -> (r: Vec<String>)
        ensures
            names_unique(r@),
            name_set(r@) == field_set(seq![self.p@, self.i@, self.d@, self.process_var@, self.set_point@]),
    {
        let fields = vec![&self.p, &self.i, &self.d, &self.process_var, &self.set_point];
        let r = needs_fields(&fields);
        proof {
            assert(fields@.map_values(|s: &String| s@)
                =~= seq![self.p@, self.i@, self.d@, self.process_var@, self.set_point@]);
        }
        r
    }
}

/// Moves an internal position towards a Float input with limited velocity
/// and acceleration, within `min ..= max`, and provides it as `value` every
/// `period_ms` milliseconds. The velocity limits must have `vmin < 0` and
/// `vmax > 0`, the acceleration limits `amin < 0` and `amax > 0`.
pub struct LimiterConfig {
    pub input: String,
    pub amin: FloatBits,
    pub amax: FloatBits,
    pub vmin: FloatBits,
    pub vmax: FloatBits,
    pub min: FloatBits,
    pub max: FloatBits,
    pub period_ms: u16,
}

/// The limiter bounds that a configuration gives.
pub open spec fn limiter_config_params(c: LimiterConfig) -> LimiterParams {
    LimiterParams {
        min: c.min, max: c.max, dmin: c.vmin, dmax: c.vmax, ddmin: c.amin, ddmax: c.amax,
        period_ms: c.period_ms as u64,
    }
}

/// The first problem of a limiter: its input, then its bounds, then the
/// signs that the velocity and acceleration limits must have.
pub open spec fn limiter_error(c: LimiterConfig, upstream: Seq<(String, ValueKind)>) -> Option<ErrorView> {
    first_error(float_input_error(upstream, c.input@, "limiter"@),
    first_error(limiter_params_error(limiter_config_params(c)),
    if !(ieee_lt(c.vmin.bits, ZERO_BITS) && ieee_lt(ZERO_BITS, c.vmax.bits)) {
        Some(ErrorView::Message("must have vmin < 0 and vmax > 0 in limiter"@))
    } else if !(ieee_lt(c.amin.bits, ZERO_BITS) && ieee_lt(ZERO_BITS, c.amax.bits)) {
        Some(ErrorView::Message("must have amin < 0 and amax > 0 in limiter"@))
    } else {
        None
    }))
}

impl LimiterConfig {
    /// The limiter bounds this configuration gives.
    pub fn params(&self) -> (r: LimiterParams)
        ensures
            r == limiter_config_params(*self),
    {
        LimiterParams {
            min: self.min, max: self.max, dmin: self.vmin, dmax: self.vmax, ddmin: self.amin, ddmax: self.amax,
            period_ms: self.period_ms as u64,
        }
    }

    /// Checks the input and then the bounds, and gives the inputs the limiter
    /// provides.
    pub fn try_build(&self, upstream: &Vec<(String, ValueKind)>) -> (r: Result<Vec<(String, ValueKind)>, IocBuildError>)
        ensures
            build_view(r) == result_of(limiter_error(*self, upstream@), seq![("value"@, ValueKind::Float)]),
    {
        if let Err(e) = check_float_input(upstream, &self.input, "limiter") {
            return Err(e);
        }
        let params = self.params();
        if let Err(e) = params.check() {
            return Err(e);
        }
        let zero = FloatBits::zero();
        if !(self.vmin.lt(&zero) && zero.lt(&self.vmax)) {
            return Err(IocBuildError::message("must have vmin < 0 and vmax > 0 in limiter"));
        }
        if !(self.amin.lt(&zero) && zero.lt(&self.amax)) {
            return Err(IocBuildError::message("must have amin < 0 and amax > 0 in limiter"));
        }
        Ok(provides_one("value"))
    }

    pub fn needs_inputs(&self) -> (r: Vec<String>)
        ensures
            names_unique(r@),
            name_set(r@) == field_set(seq![self.input@]),
    {
        let fields = vec![&self.input];
        let r = needs_fields(&fields);
        proof {
            assert(fields@.map_values(|s: &String| s@) =~= seq![self.input@]);
        }
        r
    }
}

/// Averages a fast-changing Float input over windows of `period_ms`
/// milliseconds and provides the averages as `value`.
pub struct WindowAverageConfig {
    pub input: String,
    pub period_ms: u64,
}

impl WindowAverageConfig {
    /// Checks the input, and gives the inputs the average provides.
    pub fn try_build(&self, upstream: &Vec<(String, ValueKind)>) -> (r: Result<Vec<(String, ValueKind)>, IocBuildError>)
        ensures
            build_view(r) == result_of(float_input_error(upstream@, self.input@, "windowed average filter"@),
                seq![("value"@, ValueKind::Float)]),
    {
        match check_float_input(upstream, &self.input, "windowed average filter") {
            Err(e) => Err(e),
            Ok(()) => Ok(provides_one("value")),
        }
    }

    pub fn needs_inputs(&self) -> (r: Vec<String>)
        ensures
            names_unique(r@),
            name_set(r@) == field_set(seq![self.input@]),
    {
        let fields = vec![&self.input];
        let r = needs_fields(&fields);
        proof {
            assert(fields@.map_values(|s: &String| s@) =~= seq![self.input@]);
        }
        r
    }
}

/// A simulated damped oscillator driven by the Float inputs mass `m`,
/// stiffness `k`, damping `c` and force `f`; provides position `x` and
/// velocity `v`.
pub struct DampedOscillatorSimConfig {
    pub m: String,
    pub k: String,
    pub c: String,
    pub f: String,
    pub period_ms: u64,
    pub steps_per_frame: u64,
}

/// The error, if any, of taking the Float input `name` for the simulation.
pub open spec fn sim_input_error(upstream: Seq<(String, ValueKind)>, name: Seq<char>) -> Option<ErrorView> {
    match kind_of(upstream, name) {
        Some(ValueKind::Float) => None,
        Some(k) => Some(ErrorView::Message("expected "@ + name + " to be a Float but got "@ + kind_text(k))),
        None => Some(ErrorView::Message("could not find input "@ + name)),
    }
}

/// The first problem among the simulation's inputs, in the order m, k, c, f.
pub open spec fn sim_error(c: DampedOscillatorSimConfig, upstream: Seq<(String, ValueKind)>) -> Option<ErrorView> {
    first_error(sim_input_error(upstream, c.m@),
    first_error(sim_input_error(upstream, c.k@),
    first_error(sim_input_error(upstream, c.c@), sim_input_error(upstream, c.f@))))
}

/// Fails unless `name` is a Float input, with the simulation's messages.
fn check_sim_input(upstream: &Vec<(String, ValueKind)>, name: &String) -> (r: Result<(), IocBuildError>)
    ensures
        match sim_input_error(upstream@, name@) {
            Some(e) => r matches Err(err) && error_view(err) == e,
            None => r is Ok,
        },
{
    match find_kind(upstream, name) {
        Some(ValueKind::Float) => Ok(()),
        Some(other) => {
            let mut m = String::from_str("expected ");
            m.append(name.as_str());
            m.append(" to be a Float but got ");
            let kn = kind_name(other);
            m.append(kn.as_str());
            Err(IocBuildError::from_string(m))
        },
        None => {
            let mut m = String::from_str("could not find input ");
            m.append(name.as_str());
            Err(IocBuildError::from_string(m))
        },
    }
}

impl DampedOscillatorSimConfig {
    /// Checks the inputs, and gives the inputs the simulation provides.
    pub fn try_build(&self, upstream: &Vec<(String, ValueKind)>) -> (r: Result<Vec<(String, ValueKind)>, IocBuildError>)
        ensures
            build_view(r) == result_of(sim_error(*self, upstream@), seq![("x"@, ValueKind::Float), ("v"@, ValueKind::Float)]),
    {
        if let Err(e) = check_sim_input(upstream, &self.m) {
            return Err(e);
        }
        if let Err(e) = check_sim_input(upstream, &self.k) {
            return Err(e);
        }
        if let Err(e) = check_sim_input(upstream, &self.c) {
            return Err(e);
        }
        if let Err(e) = check_sim_input(upstream, &self.f) {
            return Err(e);
        }
        let mut v: Vec<(String, ValueKind)> = Vec::new();
        v.push((String::from_str("x"), ValueKind::Float));
        v.push((String::from_str("v"), ValueKind::Float));
        proof {
            assert(named_kinds(v@) =~= seq![("x"@, ValueKind::Float), ("v"@, ValueKind::Float)]);
        }
        Ok(v)
    }

    pub fn needs_inputs(&self) -> (r: Vec<String>)
        ensures
            names_unique(r@),
            name_set(r@) == field_set(seq![self.m@, self.k@, self.c@, self.f@]),
    {
        let fields = vec![&self.m, &self.k, &self.c, &self.f];
        let r = needs_fields(&fields);
        proof {
            assert(fields@.map_values(|s: &String| s@)
                =~= seq![self.m@, self.k@, self.c@, self.f@]);
        }
        r
    }
}

/// Every transformer that can appear in the configuration.
pub enum IocTransformerConfig {
    Sum(SumTransformerConfig),
    HBridge(HBridgeTransformerConfig),
    LinearTransform(LinearTransformerConfig),
    Clamp(ClampConfig),
    Heading(HeadingConfig),
    PID(PidCtrlConfig),
    Limiter(LimiterConfig),
    WindowAverage(WindowAverageConfig),
}

/// What building a transformer gives: the named kinds of the inputs it
/// provides, or its error.
pub open spec fn transformer_result(c: IocTransformerConfig, upstream: Seq<(String, ValueKind)>)
    -> Result<Seq<(Seq<char>, ValueKind)>, ErrorView>
{
    let value = seq![("value"@, ValueKind::Float)];
    match c {
        IocTransformerConfig::Sum(x) => sum_result(upstream, x.inputs@),
        IocTransformerConfig::HBridge(x) => result_of(float_input_error(upstream, x.input@, "hbridge"@), hbridge_provides()),
        IocTransformerConfig::LinearTransform(x) => linear_result(x, upstream),
        IocTransformerConfig::Clamp(x) => clamp_result(x, upstream),
        IocTransformerConfig::Heading(x) => result_of(heading_input_error(upstream, x.input@), value),
        IocTransformerConfig::PID(x) => result_of(pid_error(x, upstream), value),
        IocTransformerConfig::Limiter(x) => result_of(limiter_error(x, upstream), value),
        IocTransformerConfig::WindowAverage(x) => result_of(float_input_error(upstream, x.input@, "windowed average filter"@), value),
    }
}

/// The names of the inputs a transformer reads.
pub open spec fn transformer_needs(c: IocTransformerConfig) -> Set<Seq<char>> {
    match c {
        IocTransformerConfig::Sum(x) => name_set(x.inputs@),
        IocTransformerConfig::HBridge(x) => field_set(seq![x.input@]),
        IocTransformerConfig::LinearTransform(x) => field_set(seq![x.input@]),
        IocTransformerConfig::Clamp(x) => field_set(seq![x.input@]),
        IocTransformerConfig::Heading(x) => field_set(seq![x.input@]),
        IocTransformerConfig::PID(x) => field_set(seq![x.p@, x.i@, x.d@, x.process_var@, x.set_point@]),
        IocTransformerConfig::Limiter(x) => field_set(seq![x.input@]),
        IocTransformerConfig::WindowAverage(x) => field_set(seq![x.input@]),
    }
}

impl IocTransformerConfig {
    /// Checks this transformer against the named kinds of the inputs built
    /// so far, and gives the inputs it provides.
    pub fn try_build(&self, upstream: &Vec<(String, ValueKind)>) -> (r: Result<Vec<(String, ValueKind)>, IocBuildError>)
        ensures
            build_view(r) == transformer_result(*self, upstream@),
    {
        match self {
            IocTransformerConfig::Sum(x) => x.try_build(upstream),
            IocTransformerConfig::HBridge(x) => x.try_build(upstream),
            IocTransformerConfig::LinearTransform(x) => x.try_build(upstream),
            IocTransformerConfig::Clamp(x) => x.try_build(upstream),
            IocTransformerConfig::Heading(x) => x.try_build(upstream),
            IocTransformerConfig::PID(x) => x.try_build(upstream),
            IocTransformerConfig::Limiter(x) => x.try_build(upstream),
            IocTransformerConfig::WindowAverage(x) => x.try_build(upstream),
        }
    }

    /// The names of the inputs this transformer reads, each once.
    pub fn needs_inputs(&self) -> (r: Vec<String>)
        ensures
            names_unique(r@),
            name_set(r@) == transformer_needs(*self),
    {
        match self {
            IocTransformerConfig::Sum(x) => x.needs_inputs(),
            IocTransformerConfig::HBridge(x) => x.needs_inputs(),
            IocTransformerConfig::LinearTransform(x) => x.needs_inputs(),
            IocTransformerConfig::Clamp(x) => x.needs_inputs(),
            IocTransformerConfig::Heading(x) => x.needs_inputs(),
            IocTransformerConfig::PID(x) => x.needs_inputs(),
            IocTransformerConfig::Limiter(x) => x.needs_inputs(),
            IocTransformerConfig::WindowAverage(x) => x.needs_inputs(),
        }
    }
}

/// A successful build provides only Float inputs, one or more, with
/// distinct names.
pub proof fn law_transformer_build_provides_floats(c: IocTransformerConfig, upstream: Seq<(String, ValueKind)>)
    ensures
        transformer_result(c, upstream) matches Ok(p) ==> {
            &&& p.len() > 0
            &&& forall|q: int| 0 <= q < p.len() ==> (#[trigger] p[q]).1 == ValueKind::Float
            &&& forall|q: int, w: int| 0 <= q < w < p.len() ==> (#[trigger] p[q]).0 != (#[trigger] p[w]).0
        },
{
    reveal_strlit("forward");
    reveal_strlit("reverse");
    reveal_strlit("enable");
    assert("forward"@.len() != "enable"@.len());
    assert("reverse"@.len() != "enable"@.len());
    assert("forward"@[0] != "reverse"@[0]);
    let value = seq![("value"@, ValueKind::Float)];
    if let Ok(p) = transformer_result(c, upstream) {
        match c {
            IocTransformerConfig::HBridge(x) => {
                assert(p == hbridge_provides());
            },
            IocTransformerConfig::Sum(x) => {
                assert(p == value);
            },
            IocTransformerConfig::LinearTransform(x) => {
                assert(p == value);
            },
            IocTransformerConfig::Clamp(x) => {
                assert(p == value);
            },
            _ => {
                assert(p == value);
            },
        }
    }
}

} // verus!
