//! Values that travel between inputs and outputs, and their kinds.
use vstd::prelude::*;
use crate::ieee::{FloatBits, ieee_eq};
use crate::keyed::{key_index, lemma_key_index, find_key};

verus! {

/// The kind of a value, of an input or of an output.
#[derive(Clone, Copy, Debug, PartialEq, Eq, Structural)]
pub enum ValueKind {
    String,
    Binary,
    Float,
    Bool,
    Array,
    Object,
}

/// Enum to hold fundamental data type values. An object holds its named
/// members as a list of distinct names and their values.
pub enum Value {
    String(String),
    Binary(Vec<u8>),
    Float(FloatBits),
    Bool(bool),
    Array(Vec<Value>),
    Object(Vec<(String, Value)>),
}

/// Equality of values as `==` on them decides it: floats compare as IEEE
/// numbers, lists element by element, objects as maps from names to values.
pub open spec fn value_eq(a: Value, b: Value) -> bool
    decreases a,
{
    match (a, b) {
        (Value::String(x), Value::String(y)) => x@ == y@,
        (Value::Binary(x), Value::Binary(y)) => x@ == y@,
        (Value::Float(x), Value::Float(y)) => ieee_eq(x.bits, y.bits),
        (Value::Bool(x), Value::Bool(y)) => x == y,
        (Value::Array(x), Value::Array(y)) => x@.len() == y@.len() && forall|i: int|
            0 <= i < x@.len() ==> value_eq(#[trigger] x@[i], y@[i]),
        (Value::Object(x), Value::Object(y)) => x@.len() == y@.len() && forall|i: int|
            0 <= i < x@.len() ==> (#[trigger] key_index(y@, x@[i].0@) matches Some(j) && value_eq(x@[i].1, y@[j].1)),
        _ => false,
    }
}

} // verus!
verus! {

/// The mathematical content of a value.
pub enum ValueView {
    String(Seq<char>),
    Binary(Seq<u8>),
    Float(u64),
    Bool(bool),
    Array(Seq<ValueView>),
    Object(Seq<(Seq<char>, ValueView)>),
}

pub open spec fn value_view(v: Value) -> ValueView
    decreases v,
{
    match v {
        Value::String(s) => ValueView::String(s@),
        Value::Binary(b) => ValueView::Binary(b@),
        Value::Float(f) => ValueView::Float(f.bits),
        Value::Bool(b) => ValueView::Bool(b),
        Value::Array(x) => ValueView::Array(
            Seq::new(
                x@.len(),
                |i: int|
                    if 0 <= i < x@.len() {
                        proof {
                            assert(decreases_to!(v => x));
                            assert(decreases_to!(x => x@));
                            assert(decreases_to!(x@ => x@[i]));
                        }
                        value_view(x@[i])
                    } else {
                        ValueView::Bool(false)
                    },
            ),
        ),
        Value::Object(x) => ValueView::Object(
            Seq::new(
                x@.len(),
                |i: int|
                    if 0 <= i < x@.len() {
                        proof {
                            assert(decreases_to!(v => x));
                            assert(decreases_to!(x => x@));
                            assert(decreases_to!(x@ => x@[i]));
                            assert(decreases_to!(x@[i] => x@[i].1));
                        }
                        (x@[i].0@, value_view(x@[i].1))
                    } else {
                        (Seq::empty(), ValueView::Bool(false))
                    },
            ),
        ),
    }
}

/// The contents of a list of values.
pub open spec fn array_view(x: Vec<Value>) -> Seq<ValueView> {
    value_view(Value::Array(x))->Array_0
}

/// The contents of an object's member list.
pub open spec fn members_view(x: Vec<(String, Value)>) -> Seq<(Seq<char>, ValueView)> {
    value_view(Value::Object(x))->Object_0
}

/// Element-wise equality of two lists of values.
pub open spec fn array_eq(x: Vec<Value>, y: Vec<Value>) -> bool {
    value_eq(Value::Array(x), Value::Array(y))
}

/// Equality of two objects as maps from names to values.
pub open spec fn object_eq(x: Vec<(String, Value)>, y: Vec<(String, Value)>) -> bool {
    value_eq(Value::Object(x), Value::Object(y))
}

/// No two members of an object share a name.
pub open spec fn members_distinct(ms: Seq<(Seq<char>, ValueView)>) -> bool {
    forall|i: int, j: int| 0 <= i < j < ms.len() ==> (#[trigger] ms[i]).0 != (#[trigger] ms[j]).0
}

/// A value in which every object, at every depth, has distinct member names.
pub open spec fn view_wf(v: ValueView) -> bool
    decreases v,
{
    match v {
        ValueView::Array(xs) => forall|i: int| 0 <= i < xs.len() ==> view_wf(#[trigger] xs[i]),
        ValueView::Object(ms) => members_distinct(ms) && forall|i: int| 0 <= i < ms.len() ==> view_wf(#[trigger] ms[i].1),
        _ => true,
    }
}

/// Every object in `v`, at every depth, has distinct member names.
pub open spec fn value_wf(v: Value) -> bool {
    view_wf(value_view(v))
}

/// Two objects with distinct member names that compare equal have the same
/// member names: a name is found in one exactly when it is found in the
/// other.
pub proof fn law_equal_objects_share_names(x: Vec<(String, Value)>, y: Vec<(String, Value)>)
    requires
        members_distinct(members_view(x)),
        members_distinct(members_view(y)),
        object_eq(x, y),
    ensures
        forall|k: Seq<char>| (#[trigger] key_index(x@, k)) is Some <==> key_index(y@, k) is Some,
{
    broadcast use vstd::seq_lib::seq_to_set_is_finite;
    let n = x@.len();
    let nx = Seq::new(n, |i: int| x@[i].0@);
    let ny = Seq::new(n, |i: int| y@[i].0@);
    assert(nx.no_duplicates()) by {
        assert forall|i: int, j: int| 0 <= i < nx.len() && 0 <= j < nx.len() && i != j implies nx[i] != nx[j] by {
            let mv = members_view(x);
            if i < j {
                assert(mv[i].0 != mv[j].0);
            } else {
                assert(mv[j].0 != mv[i].0);
            }
        }
    }
    assert(ny.no_duplicates()) by {
        assert forall|i: int, j: int| 0 <= i < ny.len() && 0 <= j < ny.len() && i != j implies ny[i] != ny[j] by {
            let mv = members_view(y);
            if i < j {
                assert(mv[i].0 != mv[j].0);
            } else {
                assert(mv[j].0 != mv[i].0);
            }
        }
    }
    nx.unique_seq_to_set();
    ny.unique_seq_to_set();
    assert forall|k: Seq<char>| nx.to_set().contains(k) implies ny.to_set().contains(k) by {
        let i = choose|i: int| 0 <= i < nx.len() && nx[i] == k;
        assert(key_index(y@, x@[i].0@) is Some);
        lemma_key_index(y@, k);
        let j = key_index(y@, k)->Some_0;
        assert(ny[j] == k);
    }
    vstd::set_lib::lemma_subset_equality(nx.to_set(), ny.to_set());
    assert forall|k: Seq<char>| (#[trigger] key_index(x@, k)) is Some <==> key_index(y@, k) is Some by {
        lemma_key_index(x@, k);
        lemma_key_index(y@, k);
        if let Some(i) = key_index(x@, k) {
            assert(key_index(y@, x@[i].0@) is Some);
        }
        if let Some(j) = key_index(y@, k) {
            assert(ny[j] == k);
            assert(ny.to_set().contains(k));
            assert(nx.to_set().contains(k));
            let i = choose|i: int| 0 <= i < nx.len() && nx[i] == k;
            assert(x@[i].0@ == k);
        }
    }
}

/// A copy of a value.
pub fn copy_value(v: &Value) -> (r: Value)
    ensures
        value_view(r) == value_view(*v),
        value_wf(*v) ==> value_wf(r),
    decreases v,
{
    match v {
        Value::String(s) => Value::String(s.clone()),
        Value::Binary(b) => Value::Binary(copy_bytes(b)),
        Value::Float(f) => Value::Float(*f),
        Value::Bool(b) => Value::Bool(*b),
        Value::Array(x) => {
            proof {
                assert(decreases_to!(*v => *x));
            }
            let out = copy_values(x);
            let res = Value::Array(out);
            proof {
                assert(value_view(res)->Array_0 =~= value_view(*v)->Array_0);
            }
            res
        },
        Value::Object(x) => {
            proof {
                assert(decreases_to!(*v => *x));
            }
            let out = copy_members(x);
            let res = Value::Object(out);
            proof {
                assert(value_view(res)->Object_0 =~= value_view(*v)->Object_0);
            }
            res
        },
    }
}

/// A copy of a byte list.
pub fn copy_bytes(b: &Vec<u8>) -> (r: Vec<u8>)
    ensures
        r@ == b@,
{
    let c = b.clone();
    proof {
        assert(c@ =~= b@);
    }
    c
}

/// A copy of a list of values.
pub fn copy_values(x: &Vec<Value>) -> (r: Vec<Value>)
    ensures
        array_view(r) == array_view(*x),
    decreases x,
{
    let mut out: Vec<Value> = Vec::with_capacity(x.len());
    let mut i: usize = 0;
    proof {
        assert forall|j: int| 0 <= j < x@.len() implies decreases_to!(*x => #[trigger] x@[j]) by {
            assert(decreases_to!(*x => x@));
            assert(decreases_to!(x@ => x@[j]));
        }
    }
    while i < x.len()
        invariant
            i <= x.len(),
            forall|j: int| 0 <= j < x@.len() ==> decreases_to!(*x => #[trigger] x@[j]),
            out@.len() == i,
            forall|j: int| 0 <= j < i ==> value_view(#[trigger] out@[j]) == value_view(x@[j]),
        decreases x.len() - i,
    {
        proof {
            assert(decreases_to!(*x => x@[i as int]));
        }
        out.push(copy_value(&x[i]));
        i = i + 1;
    }
    proof {
        assert(array_view(out) =~= array_view(*x));
    }
    out
}

/// A copy of an object's member list.
pub fn copy_members(x: &Vec<(String, Value)>) -> (r: Vec<(String, Value)>)
    ensures
        members_view(r) == members_view(*x),
        r@.len() == x@.len(),
        forall|j: int| 0 <= j < x@.len() ==> (#[trigger] r@[j]).0@ == x@[j].0@,
    decreases x,
{
    let mut out: Vec<(String, Value)> = Vec::with_capacity(x.len());
    let mut i: usize = 0;
    proof {
        assert forall|j: int| 0 <= j < x@.len() implies decreases_to!(*x => #[trigger] x@[j].1) by {
            assert(decreases_to!(*x => x@));
            assert(decreases_to!(x@ => x@[j]));
            assert(decreases_to!(x@[j] => x@[j].1));
        }
    }
    while i < x.len()
        invariant
            i <= x.len(),
            forall|j: int| 0 <= j < x@.len() ==> decreases_to!(*x => #[trigger] x@[j].1),
            out@.len() == i,
            forall|j: int| 0 <= j < i ==> (#[trigger] out@[j]).0@ == x@[j].0@ && value_view(out@[j].1) == value_view(x@[j].1),
        decreases x.len() - i,
    {
        proof {
            assert(decreases_to!(*x => x@[i as int].1));
        }
        out.push((x[i].0.clone(), copy_value(&x[i].1)));
        i = i + 1;
    }
    proof {
        assert(members_view(out) =~= members_view(*x));
    }
    out
}

/// Equality of values, as `==` decides it.
pub fn values_equal(a: &Value, b: &Value) -> (r: bool)
    ensures
        r == value_eq(*a, *b),
    decreases a,
{
    match (a, b) {
        (Value::String(x), Value::String(y)) => *x == *y,
        (Value::Binary(x), Value::Binary(y)) => bytes_equal(x, y),
        (Value::Float(x), Value::Float(y)) => x.ieee_eq(y),
        (Value::Bool(x), Value::Bool(y)) => *x == *y,
        (Value::Array(x), Value::Array(y)) => {
            proof {
                assert(decreases_to!(*a => *x));
            }
            arrays_equal(x, y)
        },
        (Value::Object(x), Value::Object(y)) => {
            proof {
                assert(decreases_to!(*a => *x));
            }
            objects_equal(x, y)
        },
        _ => false,
    }
}

/// Equality of two byte lists.
pub fn bytes_equal(x: &Vec<u8>, y: &Vec<u8>) -> (r: bool)
    ensures
        r == (x@ == y@),
{
    if x.len() != y.len() {
        assert(x@ != y@);
        return false;
    }
    let mut i: usize = 0;
    while i < x.len()
        invariant
            i <= x.len(),
            x@.len() == y@.len(),
            forall|j: int| 0 <= j < i ==> x@[j] == y@[j],
        decreases x.len() - i,
    {
        if x[i] != y[i] {
            assert(x@[i as int] != y@[i as int]);
            assert(x@ != y@);
            return false;
        }
        i = i + 1;
    }
    proof {
        assert(x@ =~= y@);
    }
    true
}

/// Element-wise equality of two lists of values.
pub fn arrays_equal(x: &Vec<Value>, y: &Vec<Value>) -> (r: bool)
    ensures
        r == array_eq(*x, *y),
    decreases x,
{
    if x.len() != y.len() {
        return false;
    }
    proof {
        assert forall|j: int| 0 <= j < x@.len() implies decreases_to!(*x => #[trigger] x@[j]) by {
            assert(decreases_to!(*x => x@));
            assert(decreases_to!(x@ => x@[j]));
        }
    }
    let mut i: usize = 0;
    while i < x.len()
        invariant
            i <= x.len(),
            x@.len() == y@.len(),
            forall|j: int| 0 <= j < x@.len() ==> decreases_to!(*x => #[trigger] x@[j]),
            forall|j: int| 0 <= j < i ==> value_eq(#[trigger] x@[j], y@[j]),
        decreases x.len() - i,
    {
        proof {
            assert(decreases_to!(*x => x@[i as int]));
        }
        if !values_equal(&x[i], &y[i]) {
            assert(!value_eq(x@[i as int], y@[i as int]));
            return false;
        }
        i = i + 1;
    }
    true
}

/// Equality of two objects as maps from names to values.
pub fn objects_equal(x: &Vec<(String, Value)>, y: &Vec<(String, Value)>) -> (r: bool)
    ensures
        r == object_eq(*x, *y),
    decreases x,
{
    if x.len() != y.len() {
        return false;
    }
    proof {
        assert forall|j: int| 0 <= j < x@.len() implies decreases_to!(*x => #[trigger] x@[j].1) by {
            assert(decreases_to!(*x => x@));
            assert(decreases_to!(x@ => x@[j]));
            assert(decreases_to!(x@[j] => x@[j].1));
        }
    }
    let mut i: usize = 0;
    while i < x.len()
        invariant
            i <= x.len(),
            x@.len() == y@.len(),
            forall|j: int| 0 <= j < x@.len() ==> decreases_to!(*x => #[trigger] x@[j].1),
            forall|j: int| 0 <= j < i ==> (#[trigger] key_index(y@, x@[j].0@) matches Some(m) && value_eq(x@[j].1, y@[m].1)),
        decreases x.len() - i,
    {
        proof {
            lemma_key_index(y@, x@[i as int].0@);
        }
        match find_key(y, &x[i].0) {
            Some(m) => {
                proof {
                    assert(decreases_to!(*x => x@[i as int].1));
                }
                if !values_equal(&x[i].1, &y[m].1) {
                    assert(!(key_index(y@, x@[i as int].0@) matches Some(mm) && value_eq(x@[i as int].1, y@[mm].1)));
                    return false;
                }
            },
            None => {
                assert(!(key_index(y@, x@[i as int].0@) matches Some(mm) && value_eq(x@[i as int].1, y@[mm].1)));
                return false;
            },
        }
        i = i + 1;
    }
    true
}

} // verus!
