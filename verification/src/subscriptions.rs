//! Subscriptions to the server's state: each names the inputs and outputs it
//! wants to hear about, and hears only about those.
use vstd::prelude::*;
use crate::keyed::{name_set, contains_name};
use crate::server_state::{ServerInputState, ServerOutputState, StateUpdate, InputView, OutputView,
    inputs_view, outputs_view, input_view, output_view, copy_input_state, copy_output_state};

verus! {

/// The entries of `vs` whose names are in `names`, in the order of `vs`.
pub open spec fn filter_named<V>(names: Set<Seq<char>>, vs: Seq<(Seq<char>, V)>) -> Seq<(Seq<char>, V)>
    decreases vs.len(),
{
    if vs.len() == 0 {
        Seq::empty()
    } else {
        let rest = filter_named(names, vs.drop_last());
        if names.contains(vs.last().0) {
            rest.push(vs.last())
        } else {
            rest
        }
    }
}

/// The names of the inputs and of the outputs that a subscriber wants.
pub struct StateSubscriptionKey {
    pub inputs: Vec<String>,
    pub outputs: Vec<String>,
}

/// Two keys name the same inputs and the same outputs (as sets).
pub open spec fn key_eq(a: StateSubscriptionKey, b: StateSubscriptionKey) -> bool {
    name_set(a.inputs@) == name_set(b.inputs@) && name_set(a.outputs@) == name_set(b.outputs@)
}

/// The content of an update: its named input states and output states.
pub open spec fn update_view(u: StateUpdate) -> (Seq<(Seq<char>, InputView)>, Seq<(Seq<char>, OutputView)>) {
    (inputs_view(u.inputs@), outputs_view(u.outputs@))
}

/// What a subscriber with `key` hears of an update with the content `u`: the
/// part it subscribed to, or nothing if that part is empty.
pub open spec fn filtered(key: StateSubscriptionKey, u: (Seq<(Seq<char>, InputView)>, Seq<(Seq<char>, OutputView)>))
    -> Option<(Seq<(Seq<char>, InputView)>, Seq<(Seq<char>, OutputView)>)>
{
    let fi = filter_named(name_set(key.inputs@), u.0);
    let fo = filter_named(name_set(key.outputs@), u.1);
    if fi.len() == 0 && fo.len() == 0 {
        None
    } else {
        Some((fi, fo))
    }
}

/// Whether every name of `a` is a name of `b`.
fn all_named(a: &Vec<String>, b: &Vec<String>) -> (r: bool)
    ensures
        r == name_set(a@).subset_of(name_set(b@)),
{
    let mut i: usize = 0;
    while i < a.len()
        invariant
            i <= a.len(),
            forall|j: int| 0 <= j < i ==> name_set(b@).contains((#[trigger] a@[j])@),
        decreases a.len() - i,
    {
        if !contains_name(b, &a[i]) {
            assert(name_set(a@).contains(a@[i as int]@));
            return false;
        }
        i = i + 1;
    }
    proof {
        assert forall|k: Seq<char>| name_set(a@).contains(k) implies name_set(b@).contains(k) by {
            let j = choose|j: int| 0 <= j < a@.len() && (#[trigger] a@[j])@ == k;
            assert(name_set(b@).contains(a@[j]@));
        }
    }
    true
}

/// Whether two lists hold the same names.
pub fn same_names(a: &Vec<String>, b: &Vec<String>) -> (r: bool)
    ensures
        r == (name_set(a@) == name_set(b@)),
{
    let ab = all_named(a, b);
    let ba = all_named(b, a);
    proof {
        if ab && ba {
            assert(name_set(a@) =~= name_set(b@));
        }
        if name_set(a@) == name_set(b@) {
            assert(name_set(a@).subset_of(name_set(b@)));
        }
    }
    ab && ba
}

/// The states of `us` whose names are in `names`, copied, in the order of `us`.
fn filter_input_states(names: &Vec<String>, us: &Vec<(String, ServerInputState)>) -> (r: Vec<(String, ServerInputState)>)
    ensures
        inputs_view(r@) == filter_named(name_set(names@), inputs_view(us@)),
{
    let mut r: Vec<(String, ServerInputState)> = Vec::new();
    let mut i: usize = 0;
    proof {
        assert(inputs_view(us@.take(0)) =~= Seq::<(Seq<char>, InputView)>::empty());
    }
    while i < us.len()
        invariant
            i <= us.len(),
            inputs_view(r@) == filter_named(name_set(names@), inputs_view(us@.take(i as int))),
        decreases us.len() - i,
    {
        let ghost before = r@;
        proof {
            assert(inputs_view(us@.take(i + 1)).drop_last() =~= inputs_view(us@.take(i as int)));
        }
        if contains_name(names, &us[i].0) {
            let e = (us[i].0.clone(), copy_input_state(&us[i].1));
            r.push(e);
            proof {
                assert(inputs_view(r@) =~= inputs_view(before).push((us@[i as int].0@, input_view(us@[i as int].1))));
            }
        }
        i = i + 1;
    }
    proof {
        assert(us@.take(us@.len() as int) =~= us@);
    }
    r
}

/// The states of `us` whose names are in `names`, copied, in the order of `us`.
fn filter_output_states(names: &Vec<String>, us: &Vec<(String, ServerOutputState)>) -> (r: Vec<(String, ServerOutputState)>)
    ensures
        outputs_view(r@) == filter_named(name_set(names@), outputs_view(us@)),
{
    let mut r: Vec<(String, ServerOutputState)> = Vec::new();
    let mut i: usize = 0;
    proof {
        assert(outputs_view(us@.take(0)) =~= Seq::<(Seq<char>, OutputView)>::empty());
    }
    while i < us.len()
        invariant
            i <= us.len(),
            outputs_view(r@) == filter_named(name_set(names@), outputs_view(us@.take(i as int))),
        decreases us.len() - i,
    {
        let ghost before = r@;
        proof {
            assert(outputs_view(us@.take(i + 1)).drop_last() =~= outputs_view(us@.take(i as int)));
        }
        if contains_name(names, &us[i].0) {
            let e = (us[i].0.clone(), copy_output_state(&us[i].1));
            r.push(e);
            proof {
                assert(outputs_view(r@) =~= outputs_view(before).push((us@[i as int].0@, output_view(us@[i as int].1))));
            }
        }
        i = i + 1;
    }
    proof {
        assert(us@.take(us@.len() as int) =~= us@);
    }
    r
}

impl StateSubscriptionKey {
    /// The part of `update` that this subscriber wants, or `None` when the
    /// update names none of its inputs and outputs.
    pub fn filter_state_update(&self, update: &StateUpdate) -> (r: Option<StateUpdate>)
        ensures
            match r {
                Some(u) => filtered(*self, update_view(*update)) == Some(update_view(u)),
                None => filtered(*self, update_view(*update)) is None,
            },
    {
        let inputs = filter_input_states(&self.inputs, &update.inputs);
        let outputs = filter_output_states(&self.outputs, &update.outputs);
        if outputs.len() > 0 || inputs.len() > 0 {
            Some(StateUpdate { inputs, outputs })
        } else {
            None
        }
    }
}

/// No two subscriptions name the same inputs and outputs.
pub open spec fn keys_distinct(keys: Seq<StateSubscriptionKey>) -> bool {
    forall|i: int, j: int| 0 <= i < j < keys.len() ==> !key_eq(#[trigger] keys[i], #[trigger] keys[j])
}

/// Subscribing with `k` to the subscriptions `old` gives `new` and the
/// subscription `r`: an existing one that names the same inputs and outputs,
/// or else a new one at the end.
pub open spec fn subscribe_step(old: Seq<StateSubscriptionKey>, k: StateSubscriptionKey, r: int, new: Seq<StateSubscriptionKey>) -> bool {
    if exists|i: int| 0 <= i < old.len() && key_eq(#[trigger] old[i], k) {
        &&& new == old
        &&& 0 <= r < old.len()
        &&& key_eq(old[r], k)
    } else {
        &&& new == old.push(k)
        &&& r == old.len()
    }
}

/// What each subscription hears of an update with the content `u`: the
/// subscriptions that hear something, in order, each with its part.
pub open spec fn published(
    keys: Seq<StateSubscriptionKey>,
    u: (Seq<(Seq<char>, InputView)>, Seq<(Seq<char>, OutputView)>),
) -> Seq<(int, (Seq<(Seq<char>, InputView)>, Seq<(Seq<char>, OutputView)>))>
    decreases keys.len(),
{
    if keys.len() == 0 {
        Seq::empty()
    } else {
        let rest = published(keys.drop_last(), u);
        match filtered(keys.last(), u) {
            Some(f) => rest.push((keys.len() - 1, f)),
            None => rest,
        }
    }
}

/// The content of a list of deliveries: subscription and update content.
pub open spec fn deliveries_view(d: Seq<(usize, StateUpdate)>)
    -> Seq<(int, (Seq<(Seq<char>, InputView)>, Seq<(Seq<char>, OutputView)>))>
{
    d.map_values(|e: (usize, StateUpdate)| (e.0 as int, update_view(e.1)))
}

/// The subscriptions to the server state, each identified by its position.
pub struct StateSubscriptions {
    pub channel_size: usize,
    pub keys: Vec<StateSubscriptionKey>,
}

impl StateSubscriptions {
    pub open spec fn wf(&self) -> bool {
        keys_distinct(self.keys@)
    }

    /// No subscriptions yet; each one that comes gets a channel of
    /// `channel_size` updates.
    pub fn with_capacities(subscriptions: usize, channel_size: usize) -> (r: Self)
        ensures
            r.wf(),
            r.channel_size == channel_size,
            r.keys@.len() == 0,
    {
        StateSubscriptions { channel_size, keys: Vec::with_capacity(subscriptions) }
    }

    /// The subscription for these inputs and outputs: the existing one that
    /// names the same, or a new one.
    pub fn subscribe(&mut self, inputs: Vec<String>, outputs: Vec<String>) -> (r: usize)
        requires
            old(self).wf(),
        ensures
            final(self).wf(),
            final(self).channel_size == old(self).channel_size,
            subscribe_step(old(self).keys@, StateSubscriptionKey { inputs, outputs }, r as int, final(self).keys@),
    {
        let ghost k = StateSubscriptionKey { inputs, outputs };
        let mut i: usize = 0;
        while i < self.keys.len()
            invariant
                i <= self.keys.len(),
                forall|j: int| 0 <= j < i ==> !key_eq(#[trigger] self.keys@[j], k),
                k == (StateSubscriptionKey { inputs, outputs }),
                self.wf(),
                *self == *old(self),
            decreases self.keys.len() - i,
        {
            if same_names(&self.keys[i].inputs, &inputs) && same_names(&self.keys[i].outputs, &outputs) {
                return i;
            }
            i = i + 1;
        }
        let r = self.keys.len();
        self.keys.push(StateSubscriptionKey { inputs, outputs });
        r
    }

    /// What each subscription hears of `update`.
    pub fn publish(&self, update: &StateUpdate) -> (r: Vec<(usize, StateUpdate)>)
        ensures
            deliveries_view(r@) == published(self.keys@, update_view(*update)),
    {
        let mut r: Vec<(usize, StateUpdate)> = Vec::new();
        let mut i: usize = 0;
        proof {
            assert(self.keys@.take(0) =~= Seq::<StateSubscriptionKey>::empty());
            assert(deliveries_view(r@) =~= published(self.keys@.take(0), update_view(*update)));
        }
        while i < self.keys.len()
            invariant
                i <= self.keys.len(),
                deliveries_view(r@) == published(self.keys@.take(i as int), update_view(*update)),
            decreases self.keys.len() - i,
        {
            proof {
                assert(self.keys@.take(i + 1).drop_last() =~= self.keys@.take(i as int));
            }
            let ghost before = r@;
            match self.keys[i].filter_state_update(update) {
                Some(u) => {
                    r.push((i, u));
                    proof {
                        assert(deliveries_view(r@) =~= deliveries_view(before).push((i as int, update_view(u))));
                    }
                },
                None => {},
            }
            i = i + 1;
        }
        proof {
            assert(self.keys@.take(self.keys@.len() as int) =~= self.keys@);
        }
        r
    }
}

/// Subscribing twice to the same inputs and outputs gives the same
/// subscription and adds none the second time.
pub proof fn law_subscribe_idempotent(
    old: Seq<StateSubscriptionKey>,
    k1: StateSubscriptionKey,
    r1: int,
    mid: Seq<StateSubscriptionKey>,
    k2: StateSubscriptionKey,
    r2: int,
    new: Seq<StateSubscriptionKey>,
)
    requires
        keys_distinct(old),
        subscribe_step(old, k1, r1, mid),
        subscribe_step(mid, k2, r2, new),
        key_eq(k1, k2),
    ensures
        r2 == r1,
        new == mid,
{
    if !(exists|i: int| 0 <= i < old.len() && key_eq(#[trigger] old[i], k1)) {
        assert(mid[r1] == k1);
        assert forall|i: int, j: int| 0 <= i < j < mid.len() implies !key_eq(#[trigger] mid[i], #[trigger] mid[j]) by {
            if j == old.len() {
                assert(mid[i] == old[i]);
            } else {
                assert(mid[i] == old[i] && mid[j] == old[j]);
            }
        }
    }
    assert(key_eq(mid[r1], k2));
    assert(exists|i: int| 0 <= i < mid.len() && key_eq(#[trigger] mid[i], k2));
    if r1 < r2 {
        assert(!key_eq(mid[r1], mid[r2]));
    } else if r2 < r1 {
        assert(!key_eq(mid[r2], mid[r1]));
    }
}

/// An entry whose name is wanted is kept by the filter.
proof fn lemma_filter_keeps<V>(names: Set<Seq<char>>, vs: Seq<(Seq<char>, V)>, p: int)
    requires
        0 <= p < vs.len(),
        names.contains(vs[p].0),
    ensures
        filter_named(names, vs).contains(vs[p]),
    decreases vs.len(),
{
    if p < vs.len() - 1 {
        lemma_filter_keeps(names, vs.drop_last(), p);
        let rest = filter_named(names, vs.drop_last());
        let k = choose|q: int| 0 <= q < rest.len() && rest[q] == vs[p];
        if names.contains(vs.last().0) {
            assert(rest.push(vs.last())[k] == vs[p]);
        }
    } else {
        let rest = filter_named(names, vs.drop_last());
        assert(rest.push(vs.last())[rest.len() as int] == vs[p]);
    }
}

/// Every entry the filter keeps is an entry of `vs` with a wanted name.
proof fn lemma_filter_only<V>(names: Set<Seq<char>>, vs: Seq<(Seq<char>, V)>)
    ensures
        forall|q: int| 0 <= q < filter_named(names, vs).len() ==> {
            &&& names.contains((#[trigger] filter_named(names, vs)[q]).0)
            &&& vs.contains(filter_named(names, vs)[q])
        },
    decreases vs.len(),
{
    if vs.len() > 0 {
        lemma_filter_only(names, vs.drop_last());
        let rest = filter_named(names, vs.drop_last());
        assert forall|q: int| 0 <= q < filter_named(names, vs).len() implies {
            &&& names.contains((#[trigger] filter_named(names, vs)[q]).0)
            &&& vs.contains(filter_named(names, vs)[q])
        } by {
            if q < rest.len() {
                let w = choose|w: int| 0 <= w < vs.drop_last().len() && vs.drop_last()[w] == rest[q];
                assert(vs[w] == rest[q]);
            } else {
                assert(vs[vs.len() - 1] == vs.last());
            }
        }
    }
}

/// Each delivery goes to a subscription that exists and holds exactly what
/// that subscription hears of the update.
proof fn lemma_published_entries(
    keys: Seq<StateSubscriptionKey>,
    u: (Seq<(Seq<char>, InputView)>, Seq<(Seq<char>, OutputView)>),
)
    ensures
        forall|m: int| 0 <= m < published(keys, u).len() ==> {
            &&& 0 <= (#[trigger] published(keys, u)[m]).0 < keys.len()
            &&& filtered(keys[published(keys, u)[m].0], u) == Some(published(keys, u)[m].1)
        },
    decreases keys.len(),
{
    if keys.len() > 0 {
        lemma_published_entries(keys.drop_last(), u);
        let rest = published(keys.drop_last(), u);
        assert forall|m: int| 0 <= m < published(keys, u).len() implies {
            &&& 0 <= (#[trigger] published(keys, u)[m]).0 < keys.len()
            &&& filtered(keys[published(keys, u)[m].0], u) == Some(published(keys, u)[m].1)
        } by {
            if m < rest.len() {
                assert(published(keys, u)[m] == rest[m]);
                assert(keys[rest[m].0] == keys.drop_last()[rest[m].0]);
            }
        }
    }
}

/// A subscription that hears something of an update gets a delivery.
proof fn lemma_published_has(
    keys: Seq<StateSubscriptionKey>,
    u: (Seq<(Seq<char>, InputView)>, Seq<(Seq<char>, OutputView)>),
    i: int,
)
    requires
        0 <= i < keys.len(),
        filtered(keys[i], u) is Some,
    ensures
        published(keys, u).contains((i, filtered(keys[i], u)->Some_0)),
    decreases keys.len(),
{
    let rest = published(keys.drop_last(), u);
    if i < keys.len() - 1 {
        assert(keys.drop_last()[i] == keys[i]);
        lemma_published_has(keys.drop_last(), u, i);
        let k = choose|q: int| 0 <= q < rest.len() && rest[q] == (i, filtered(keys[i], u)->Some_0);
        if filtered(keys.last(), u) is Some {
            assert(published(keys, u)[k] == rest[k]);
        }
    } else {
        assert(published(keys, u)[rest.len() as int] == (i, filtered(keys[i], u)->Some_0));
    }
}

/// A subscriber that names an input hears every change of it in an update:
/// its delivery holds the change.
pub proof fn law_subscriber_hears_input(
    keys: Seq<StateSubscriptionKey>,
    u: (Seq<(Seq<char>, InputView)>, Seq<(Seq<char>, OutputView)>),
    i: int,
    p: int,
)
    requires
        0 <= i < keys.len(),
        0 <= p < u.0.len(),
        name_set(keys[i].inputs@).contains(u.0[p].0),
    ensures
        exists|m: int| 0 <= m < published(keys, u).len() && (#[trigger] published(keys, u)[m]).0 == i
            && published(keys, u)[m].1.0.contains(u.0[p]),
{
    lemma_filter_keeps(name_set(keys[i].inputs@), u.0, p);
    lemma_published_has(keys, u, i);
    let d = (i, filtered(keys[i], u)->Some_0);
    let m = choose|m: int| 0 <= m < published(keys, u).len() && published(keys, u)[m] == d;
    assert(published(keys, u)[m].0 == i);
}

/// A subscriber that names an output hears every change of it in an update.
pub proof fn law_subscriber_hears_output(
    keys: Seq<StateSubscriptionKey>,
    u: (Seq<(Seq<char>, InputView)>, Seq<(Seq<char>, OutputView)>),
    i: int,
    p: int,
)
    requires
        0 <= i < keys.len(),
        0 <= p < u.1.len(),
        name_set(keys[i].outputs@).contains(u.1[p].0),
    ensures
        exists|m: int| 0 <= m < published(keys, u).len() && (#[trigger] published(keys, u)[m]).0 == i
            && published(keys, u)[m].1.1.contains(u.1[p]),
{
    lemma_filter_keeps(name_set(keys[i].outputs@), u.1, p);
    lemma_published_has(keys, u, i);
    let d = (i, filtered(keys[i], u)->Some_0);
    let m = choose|m: int| 0 <= m < published(keys, u).len() && published(keys, u)[m] == d;
    assert(published(keys, u)[m].0 == i);
}

/// A delivery goes to an existing subscription and holds only changes that
/// the update made, of inputs and outputs the subscription names; it is
/// never empty.
pub proof fn law_deliveries_only_subscribed(
    keys: Seq<StateSubscriptionKey>,
    u: (Seq<(Seq<char>, InputView)>, Seq<(Seq<char>, OutputView)>),
    m: int,
)
    requires
        0 <= m < published(keys, u).len(),
    ensures
        0 <= published(keys, u)[m].0 < keys.len(),
        published(keys, u)[m].1.0.len() > 0 || published(keys, u)[m].1.1.len() > 0,
        forall|q: int| 0 <= q < published(keys, u)[m].1.0.len() ==> {
            &&& name_set(keys[published(keys, u)[m].0].inputs@).contains((#[trigger] published(keys, u)[m].1.0[q]).0)
            &&& u.0.contains(published(keys, u)[m].1.0[q])
        },
        forall|q: int| 0 <= q < published(keys, u)[m].1.1.len() ==> {
            &&& name_set(keys[published(keys, u)[m].0].outputs@).contains((#[trigger] published(keys, u)[m].1.1[q]).0)
            &&& u.1.contains(published(keys, u)[m].1.1[q])
        },
{
    lemma_published_entries(keys, u);
    let i = published(keys, u)[m].0;
    lemma_filter_only(name_set(keys[i].inputs@), u.0);
    lemma_filter_only(name_set(keys[i].outputs@), u.1);
}

} // verus!
