//! How the server's state store takes updates: which inputs and outputs change,
//! and which changes it reports.
use vstd::prelude::*;
use crate::keyed::{key_index, keys_unique, find_key, lemma_key_index, lemma_key_index_unique};
use crate::server_state::{ServerInputState, ServerOutputState, InputView, OutputView, input_view,
    output_view, input_kind, output_kind, input_differs, input_after, inputs_view, outputs_view,
    input_changes, output_changes, input_updated, output_updated, copy_output_state, copy_input_state,
    ServerInputConfig, ServerOutputConfig, StateUpdate, initial_input, initial_output, input_view_wf,
    output_view_wf};
use crate::value::{array_view, members_view, array_eq, object_eq};
use crate::ieee::ieee_eq;
use crate::subscriptions::{StateSubscriptions, StateSubscriptionKey, subscribe_step, published,
    deliveries_view, update_view};

verus! {

/// Whether the input at position `j` of `store` keeps its exact state under
/// the updates `us`: no update names it, or its update does not differ.
pub open spec fn input_kept(store: Seq<(String, ServerInputState)>, us: Seq<(String, ServerInputState)>, j: int) -> bool {
    match key_index(us, store[j].0@) {
        Some(u) => !input_differs(store[j].1, us[u].1),
        None => true,
    }
}

/// `new` is `old` after the input updates `us`: the same names in the same
/// places, each of the same kind, holding what `input_updated` says, and an
/// input that keeps its state is untouched.
pub open spec fn inputs_step(
    old: Seq<(String, ServerInputState)>,
    us: Seq<(String, ServerInputState)>,
    new: Seq<(String, ServerInputState)>,
) -> bool {
    &&& new.len() == old.len()
    &&& forall|j: int| 0 <= j < old.len() ==> {
        &&& (#[trigger] new[j]).0@ == old[j].0@
        &&& input_kind(new[j].1) == input_kind(old[j].1)
        &&& input_view(new[j].1) == input_updated(old, us, j)
        &&& (input_kept(old, us, j) ==> new[j] == old[j])
    }
}

/// `new` is `old` after the output updates `us`.
pub open spec fn outputs_step(
    old: Seq<(String, ServerOutputState)>,
    us: Seq<(String, ServerOutputState)>,
    new: Seq<(String, ServerOutputState)>,
) -> bool {
    &&& new.len() == old.len()
    &&& forall|j: int| 0 <= j < old.len() ==> {
        &&& (#[trigger] new[j]).0@ == old[j].0@
        &&& output_kind(new[j].1) == output_kind(old[j].1)
        &&& output_view(new[j].1) == output_updated(old, us, j)
    }
}

/// Every input update that names a known input has that input's kind.
pub open spec fn inputs_compatible(store: Seq<(String, ServerInputState)>, us: Seq<(String, ServerInputState)>) -> bool {
    forall|i: int| 0 <= i < us.len() ==>
        (#[trigger] key_index(store, us[i].0@) matches Some(j) ==> input_kind(store[j].1) == input_kind(us[i].1))
}

/// Every output update that names a known output has that output's kind.
pub open spec fn outputs_compatible(store: Seq<(String, ServerOutputState)>, us: Seq<(String, ServerOutputState)>) -> bool {
    forall|i: int| 0 <= i < us.len() ==>
        (#[trigger] key_index(store, us[i].0@) matches Some(j) ==> output_kind(store[j].1) == output_kind(us[i].1))
}

/// Adding an entry whose name is `k'` does not change where `k != k'` is found.
proof fn lemma_key_index_push<T>(s: Seq<(String, T)>, e: (String, T), k: Seq<char>)
    ensures
        key_index(s.push(e), k) == (match key_index(s, k) {
            Some(i) => Some(i),
            None => if e.0@ == k { Some(s.len() as int) } else { None },
        }),
{
    assert(s.push(e).drop_last() =~= s);
}

/// In a list with distinct names, the name at `i` is not found before `i`.
proof fn lemma_key_absent_before<T>(us: Seq<(String, T)>, i: int)
    requires
        keys_unique(us),
        0 <= i < us.len(),
    ensures
        key_index(us.take(i), us[i].0@) is None,
{
    let t = us.take(i);
    lemma_key_index(t, us[i].0@);
    if let Some(m) = key_index(t, us[i].0@) {
        assert(t[m] == us[m]);
    }
}

/// Two lists with the same names in the same places find a name at the same place.
proof fn lemma_key_index_same_names<T, U>(a: Seq<(String, T)>, b: Seq<(String, U)>, k: Seq<char>)
    requires
        a.len() == b.len(),
        forall|j: int| 0 <= j < a.len() ==> (#[trigger] a[j]).0@ == b[j].0@,
    ensures
        key_index(a, k) == key_index(b, k),
    decreases a.len(),
{
    if a.len() > 0 {
        lemma_key_index_same_names(a.drop_last(), b.drop_last(), k);
    }
}

/// Applies the input updates `us` to `store` and returns the changes: every
/// update of a known input whose value differs from the current one.
pub fn apply_input_updates(store: &mut Vec<(String, ServerInputState)>, us: &Vec<(String, ServerInputState)>)
    -> (changes: Vec<(String, ServerInputState)>)
    requires
        keys_unique(old(store)@),
        keys_unique(us@),
        inputs_compatible(old(store)@, us@),
    ensures
        inputs_step(old(store)@, us@, final(store)@),
        inputs_view(changes@) == input_changes(old(store)@, us@),
{
    let ghost s0 = store@;
    let mut changes: Vec<(String, ServerInputState)> = Vec::new();
    let mut i: usize = 0;
    proof {
        assert(us@.take(0) =~= Seq::<(String, ServerInputState)>::empty());
        assert(inputs_view(changes@) =~= input_changes(s0, us@.take(0)));
    }
    while i < us.len()
        invariant
            i <= us.len(),
            keys_unique(s0),
            keys_unique(us@),
            inputs_compatible(s0, us@),
            inputs_step(s0, us@.take(i as int), store@),
            inputs_view(changes@) == input_changes(s0, us@.take(i as int)),
        decreases us.len() - i,
    {
        let ghost t = us@.take(i as int);
        let ghost t1 = us@.take(i + 1);
        let ghost k = us@[i as int].0@;
        proof {
            assert(t1 =~= t.push(us@[i as int]));
            lemma_key_absent_before(us@, i as int);
            assert forall|j: int| 0 <= j < s0.len() && s0[j].0@ != k implies
                #[trigger] key_index(t1, s0[j].0@) == key_index(t, s0[j].0@) by {
                lemma_key_index_push(t, us@[i as int], s0[j].0@);
            }
            lemma_key_index_push(t, us@[i as int], k);
            lemma_key_index_same_names(store@, s0, k);
            assert(t1.drop_last() =~= t);
        }
        let found = find_key(store, &us[i].0);
        match found {
            Some(j) => {
                proof {
                    lemma_key_index(store@, k);
                    lemma_key_index_unique(s0, j as int);
                    assert(store@[j as int] == s0[j as int]);
                    assert(key_index(s0, us@[i as int].0@) == Some(j as int));
                }
                if store[j].1.differs(&us[i].1) {
                    let new_state = store[j].1.after(&us[i].1);
                    let reported = store[j].1.after(&us[i].1);
                    let key = store[j].0.clone();
                    let ghost before = store@;
                    let ghost before_changes = changes@;
                    store.set(j, (key, new_state));
                    changes.push((us[i].0.clone(), reported));
                    proof {
                        assert forall|m: int| 0 <= m < s0.len() implies {
                            &&& (#[trigger] store@[m]).0@ == s0[m].0@
                            &&& input_kind(store@[m].1) == input_kind(s0[m].1)
                            &&& input_view(store@[m].1) == input_updated(s0, t1, m)
                            &&& (input_kept(s0, t1, m) ==> store@[m] == s0[m])
                        } by {
                            if m != j as int {
                                lemma_key_index_unique(s0, m);
                                assert(s0[m].0@ != k);
                                assert(key_index(t1, s0[m].0@) == key_index(t, s0[m].0@));
                                lemma_key_index(t, s0[m].0@);
                                if let Some(u) = key_index(t, s0[m].0@) {
                                    assert(t1[u] == t[u]);
                                }
                                assert(store@[m] == before[m]);
                            } else {
                                assert(t1[i as int] == us@[i as int]);
                            }
                        }
                        assert(inputs_view(changes@) =~= inputs_view(before_changes).push(
                            (k, input_after(s0[j as int].1, us@[i as int].1))));
                    }
                } else {
                    proof {
                        assert forall|m: int| 0 <= m < s0.len() implies {
                            &&& (#[trigger] store@[m]).0@ == s0[m].0@
                            &&& input_kind(store@[m].1) == input_kind(s0[m].1)
                            &&& input_view(store@[m].1) == input_updated(s0, t1, m)
                            &&& (input_kept(s0, t1, m) ==> store@[m] == s0[m])
                        } by {
                            if m != j as int {
                                lemma_key_index_unique(s0, m);
                                assert(s0[m].0@ != k);
                                assert(key_index(t1, s0[m].0@) == key_index(t, s0[m].0@));
                                lemma_key_index(t, s0[m].0@);
                                if let Some(u) = key_index(t, s0[m].0@) {
                                    assert(t1[u] == t[u]);
                                }
                            } else {
                                assert(t1[i as int] == us@[i as int]);
                            }
                        }
                    }
                }
            },
            None => {
                proof {
                    lemma_key_index(store@, k);
                    assert(key_index(s0, k) is None);
                    assert forall|m: int| 0 <= m < s0.len() implies {
                        &&& (#[trigger] store@[m]).0@ == s0[m].0@
                        &&& input_kind(store@[m].1) == input_kind(s0[m].1)
                        &&& input_view(store@[m].1) == input_updated(s0, t1, m)
                        &&& (input_kept(s0, t1, m) ==> store@[m] == s0[m])
                    } by {
                        assert(store@[m].0@ != k);
                        assert(key_index(t1, s0[m].0@) == key_index(t, s0[m].0@));
                        lemma_key_index(t, s0[m].0@);
                        if let Some(u) = key_index(t, s0[m].0@) {
                            assert(t1[u] == t[u]);
                        }
                    }
                }
            },
        }
        i = i + 1;
    }
    proof {
        assert(us@.take(us@.len() as int) =~= us@);
    }
    changes
}

/// Applies the output updates `us` to `store` and returns the changes: every
/// update of a known output, whatever its value.
pub fn apply_output_updates(store: &mut Vec<(String, ServerOutputState)>, us: &Vec<(String, ServerOutputState)>)
    -> (changes: Vec<(String, ServerOutputState)>)
    requires
        keys_unique(old(store)@),
        keys_unique(us@),
        outputs_compatible(old(store)@, us@),
    ensures
        outputs_step(old(store)@, us@, final(store)@),
        outputs_view(changes@) == output_changes(old(store)@, us@),
{
    let ghost s0 = store@;
    let mut changes: Vec<(String, ServerOutputState)> = Vec::new();
    let mut i: usize = 0;
    proof {
        assert(us@.take(0) =~= Seq::<(String, ServerOutputState)>::empty());
        assert(outputs_view(changes@) =~= output_changes(s0, us@.take(0)));
    }
    while i < us.len()
        invariant
            i <= us.len(),
            keys_unique(s0),
            keys_unique(us@),
            outputs_compatible(s0, us@),
            outputs_step(s0, us@.take(i as int), store@),
            outputs_view(changes@) == output_changes(s0, us@.take(i as int)),
        decreases us.len() - i,
    {
        let ghost t = us@.take(i as int);
        let ghost t1 = us@.take(i + 1);
        let ghost k = us@[i as int].0@;
        proof {
            assert(t1 =~= t.push(us@[i as int]));
            lemma_key_absent_before(us@, i as int);
            assert forall|j: int| 0 <= j < s0.len() && s0[j].0@ != k implies
                #[trigger] key_index(t1, s0[j].0@) == key_index(t, s0[j].0@) by {
                lemma_key_index_push(t, us@[i as int], s0[j].0@);
            }
            lemma_key_index_push(t, us@[i as int], k);
            lemma_key_index_same_names(store@, s0, k);
            assert(t1.drop_last() =~= t);
        }
        let found = find_key(store, &us[i].0);
        match found {
            Some(j) => {
                proof {
                    lemma_key_index(store@, k);
                    lemma_key_index_unique(s0, j as int);
                    assert(key_index(s0, us@[i as int].0@) == Some(j as int));
                }
                let new_state = copy_output_state(&us[i].1);
                let reported = copy_output_state(&us[i].1);
                let key = store[j].0.clone();
                let ghost before = store@;
                let ghost before_changes = changes@;
                store.set(j, (key, new_state));
                changes.push((us[i].0.clone(), reported));
                proof {
                    assert forall|m: int| 0 <= m < s0.len() implies {
                        &&& (#[trigger] store@[m]).0@ == s0[m].0@
                        &&& output_kind(store@[m].1) == output_kind(s0[m].1)
                        &&& output_view(store@[m].1) == output_updated(s0, t1, m)
                    } by {
                        if m != j as int {
                            lemma_key_index_unique(s0, m);
                            assert(s0[m].0@ != k);
                            assert(key_index(t1, s0[m].0@) == key_index(t, s0[m].0@));
                            lemma_key_index(t, s0[m].0@);
                            if let Some(u) = key_index(t, s0[m].0@) {
                                assert(t1[u] == t[u]);
                            }
                            assert(store@[m] == before[m]);
                        } else {
                            assert(t1[i as int] == us@[i as int]);
                        }
                    }
                    assert(outputs_view(changes@) =~= outputs_view(before_changes).push(
                        (k, output_view(us@[i as int].1))));
                }
            },
            None => {
                proof {
                    lemma_key_index(store@, k);
                    assert(key_index(s0, k) is None);
                    assert forall|m: int| 0 <= m < s0.len() implies {
                        &&& (#[trigger] store@[m]).0@ == s0[m].0@
                        &&& output_kind(store@[m].1) == output_kind(s0[m].1)
                        &&& output_view(store@[m].1) == output_updated(s0, t1, m)
                    } by {
                        assert(store@[m].0@ != k);
                        assert(key_index(t1, s0[m].0@) == key_index(t, s0[m].0@));
                        lemma_key_index(t, s0[m].0@);
                        if let Some(u) = key_index(t, s0[m].0@) {
                            assert(t1[u] == t[u]);
                        }
                    }
                }
            },
        }
        i = i + 1;
    }
    proof {
        assert(us@.take(us@.len() as int) =~= us@);
    }
    changes
}

/// Applying the same input updates a second time leaves every input as the
/// first application left it.
pub proof fn law_input_updates_idempotent(
    s1: Seq<(String, ServerInputState)>,
    us: Seq<(String, ServerInputState)>,
    s2: Seq<(String, ServerInputState)>,
    s3: Seq<(String, ServerInputState)>,
)
    requires
        keys_unique(s1),
        keys_unique(us),
        inputs_compatible(s1, us),
        inputs_step(s1, us, s2),
        inputs_step(s2, us, s3),
    ensures
        s3.len() == s2.len(),
        forall|j: int| 0 <= j < s2.len() ==> input_view((#[trigger] s3[j]).1) == input_view(s2[j].1),
{
    assert forall|j: int| 0 <= j < s2.len() implies input_view((#[trigger] s3[j]).1) == input_view(s2[j].1) by {
        let k = s1[j].0@;
        assert(s2[j].0@ == k);
        lemma_key_index(us, k);
        match key_index(us, k) {
            Some(u) => {
                lemma_key_index_unique(s1, j);
                assert(key_index(s1, us[u].0@) == Some(j));
                assert(input_kind(s1[j].1) == input_kind(us[u].1));
                if input_differs(s1[j].1, us[u].1) {
                    assert(input_view(s2[j].1) == input_after(s1[j].1, us[u].1));
                    if input_differs(s2[j].1, us[u].1) {
                        assert(input_view(s3[j].1) == input_after(s2[j].1, us[u].1));
                        assert(input_kind(s2[j].1) == input_kind(us[u].1));
                        match (s1[j].1, s2[j].1, us[u].1) {
                            (ServerInputState::Float { .. }, ServerInputState::Float { .. }, ServerInputState::Float { .. }) => {},
                            (ServerInputState::String { .. }, ServerInputState::String { .. }, ServerInputState::String { .. }) => {},
                            _ => {},
                        }
                    } else {
                        assert(input_kept(s2, us, j));
                    }
                } else {
                    assert(input_kept(s1, us, j));
                    assert(s2[j] == s1[j]);
                    assert(input_kept(s2, us, j));
                }
            },
            None => {
                assert(input_kept(s1, us, j));
                assert(input_kept(s2, us, j));
            },
        }
    }
}

/// Applying the same output updates a second time leaves every output as the
/// first application left it.
pub proof fn law_output_updates_idempotent(
    s1: Seq<(String, ServerOutputState)>,
    us: Seq<(String, ServerOutputState)>,
    s2: Seq<(String, ServerOutputState)>,
    s3: Seq<(String, ServerOutputState)>,
)
    requires
        outputs_step(s1, us, s2),
        outputs_step(s2, us, s3),
    ensures
        s3.len() == s2.len(),
        forall|j: int| 0 <= j < s2.len() ==> output_view((#[trigger] s3[j]).1) == output_view(s2[j].1),
{
    assert forall|j: int| 0 <= j < s2.len() implies output_view((#[trigger] s3[j]).1) == output_view(s2[j].1) by {
        assert(s2[j].0@ == s1[j].0@);
    }
}

/// The named states of `store` that `names` asks for, in the order of
/// `names`; a name the store does not have is left out.
pub open spec fn snapshot_inputs(store: Seq<(String, ServerInputState)>, names: Seq<String>) -> Seq<(Seq<char>, InputView)>
    decreases names.len(),
{
    if names.len() == 0 {
        Seq::empty()
    } else {
        let rest = snapshot_inputs(store, names.drop_last());
        match key_index(store, names.last()@) {
            Some(j) => rest.push((names.last()@, input_view(store[j].1))),
            None => rest,
        }
    }
}

/// The named output states of `store` that `names` asks for, in the order of
/// `names`; a name the store does not have is left out.
pub open spec fn snapshot_outputs(store: Seq<(String, ServerOutputState)>, names: Seq<String>) -> Seq<(Seq<char>, OutputView)>
    decreases names.len(),
{
    if names.len() == 0 {
        Seq::empty()
    } else {
        let rest = snapshot_outputs(store, names.drop_last());
        match key_index(store, names.last()@) {
            Some(j) => rest.push((names.last()@, output_view(store[j].1))),
            None => rest,
        }
    }
}

/// The initial input states of the configurations `cfgs` that `names` asks
/// for, in the order of `names`; a name that is not configured is left out.
pub open spec fn initial_snapshot_inputs(cfgs: Seq<(String, ServerInputConfig)>, names: Seq<String>) -> Seq<(Seq<char>, InputView)>
    decreases names.len(),
{
    if names.len() == 0 {
        Seq::empty()
    } else {
        let rest = initial_snapshot_inputs(cfgs, names.drop_last());
        match key_index(cfgs, names.last()@) {
            Some(j) => rest.push((names.last()@, initial_input(cfgs[j].1))),
            None => rest,
        }
    }
}

/// The initial (empty) output states of the configurations `cfgs` that
/// `names` asks for, in the order of `names`.
pub open spec fn initial_snapshot_outputs(cfgs: Seq<(String, ServerOutputConfig)>, names: Seq<String>) -> Seq<(Seq<char>, OutputView)>
    decreases names.len(),
{
    if names.len() == 0 {
        Seq::empty()
    } else {
        let rest = initial_snapshot_outputs(cfgs, names.drop_last());
        match key_index(cfgs, names.last()@) {
            Some(j) => rest.push((names.last()@, initial_output(cfgs[j].1))),
            None => rest,
        }
    }
}

proof fn lemma_initial_snapshot_inputs(cfgs: Seq<(String, ServerInputConfig)>, store: Seq<(String, ServerInputState)>, names: Seq<String>)
    requires
        store.len() == cfgs.len(),
        forall|j: int| 0 <= j < cfgs.len() ==>
            (#[trigger] store[j]).0@ == cfgs[j].0@ && input_view(store[j].1) == initial_input(cfgs[j].1),
    ensures
        snapshot_inputs(store, names) == initial_snapshot_inputs(cfgs, names),
    decreases names.len(),
{
    if names.len() > 0 {
        lemma_initial_snapshot_inputs(cfgs, store, names.drop_last());
        lemma_key_index_same_names(store, cfgs, names.last()@);
        lemma_key_index(store, names.last()@);
    }
}

proof fn lemma_initial_snapshot_outputs(cfgs: Seq<(String, ServerOutputConfig)>, store: Seq<(String, ServerOutputState)>, names: Seq<String>)
    requires
        store.len() == cfgs.len(),
        forall|j: int| 0 <= j < cfgs.len() ==>
            (#[trigger] store[j]).0@ == cfgs[j].0@ && output_view(store[j].1) == initial_output(cfgs[j].1),
    ensures
        snapshot_outputs(store, names) == initial_snapshot_outputs(cfgs, names),
    decreases names.len(),
{
    if names.len() > 0 {
        lemma_initial_snapshot_outputs(cfgs, store, names.drop_last());
        lemma_key_index_same_names(store, cfgs, names.last()@);
        lemma_key_index(store, names.last()@);
    }
}

/// Before any update, a subscription starts from the configuration: each
/// configured input that it names at its start value with its limits, each
/// configured output that it names without a value, in the order asked;
/// names that are not configured are left out.
pub proof fn law_fresh_subscription_sees_configuration(
    cfg_in: Seq<(String, ServerInputConfig)>,
    cfg_out: Seq<(String, ServerOutputConfig)>,
    store_in: Seq<(String, ServerInputState)>,
    store_out: Seq<(String, ServerOutputState)>,
    names_in: Seq<String>,
    names_out: Seq<String>,
)
    requires
        store_in.len() == cfg_in.len(),
        forall|j: int| 0 <= j < cfg_in.len() ==>
            (#[trigger] store_in[j]).0@ == cfg_in[j].0@ && input_view(store_in[j].1) == initial_input(cfg_in[j].1),
        store_out.len() == cfg_out.len(),
        forall|j: int| 0 <= j < cfg_out.len() ==>
            (#[trigger] store_out[j]).0@ == cfg_out[j].0@ && output_view(store_out[j].1) == initial_output(cfg_out[j].1),
    ensures
        snapshot_inputs(store_in, names_in) == initial_snapshot_inputs(cfg_in, names_in),
        snapshot_outputs(store_out, names_out) == initial_snapshot_outputs(cfg_out, names_out),
{
    lemma_initial_snapshot_inputs(cfg_in, store_in, names_in);
    lemma_initial_snapshot_outputs(cfg_out, store_out, names_out);
}

/// `new` has the names and kinds of `old`, entry by entry.
pub open spec fn same_input_kinds(old: Seq<(String, ServerInputState)>, new: Seq<(String, ServerInputState)>) -> bool {
    &&& new.len() == old.len()
    &&& forall|j: int| 0 <= j < old.len() ==>
        (#[trigger] new[j]).0@ == old[j].0@ && input_kind(new[j].1) == input_kind(old[j].1)
}

/// `new` has the names and kinds of `old`, entry by entry.
pub open spec fn same_output_kinds(old: Seq<(String, ServerOutputState)>, new: Seq<(String, ServerOutputState)>) -> bool {
    &&& new.len() == old.len()
    &&& forall|j: int| 0 <= j < old.len() ==>
        (#[trigger] new[j]).0@ == old[j].0@ && output_kind(new[j].1) == output_kind(old[j].1)
}

/// What one command does to the stored states: an update (`handle_update`)
/// steps the inputs and outputs; a subscription (`handle_subscribe`) leaves
/// them as they are.
pub open spec fn server_step(
    old_in: Seq<(String, ServerInputState)>,
    old_out: Seq<(String, ServerOutputState)>,
    us_in: Seq<(String, ServerInputState)>,
    us_out: Seq<(String, ServerOutputState)>,
    new_in: Seq<(String, ServerInputState)>,
    new_out: Seq<(String, ServerOutputState)>,
) -> bool {
    ||| inputs_step(old_in, us_in, new_in) && outputs_step(old_out, us_out, new_out)
    ||| new_in == old_in && new_out == old_out
}

/// Over any run of commands the server keeps every input and output it
/// started with, by name, place and kind; so an update whose values have the
/// configured kinds is accepted at every point of the run, as it was at the
/// start.
pub proof fn law_server_keeps_names_and_kinds(
    ins: Seq<Seq<(String, ServerInputState)>>,
    outs: Seq<Seq<(String, ServerOutputState)>>,
    cmd_in: Seq<Seq<(String, ServerInputState)>>,
    cmd_out: Seq<Seq<(String, ServerOutputState)>>,
    us_in: Seq<(String, ServerInputState)>,
    us_out: Seq<(String, ServerOutputState)>,
)
    requires
        ins.len() == cmd_in.len() + 1,
        outs.len() == ins.len(),
        cmd_out.len() == cmd_in.len(),
        forall|i: int| 0 <= i < cmd_in.len() ==>
            server_step(ins[i], outs[i], #[trigger] cmd_in[i], cmd_out[i], ins[i + 1], outs[i + 1]),
    ensures
        forall|i: int| 0 <= i < ins.len() ==> {
            &&& same_input_kinds(ins[0], #[trigger] ins[i])
            &&& same_output_kinds(outs[0], outs[i])
            &&& inputs_compatible(ins[0], us_in) ==> inputs_compatible(ins[i], us_in)
            &&& outputs_compatible(outs[0], us_out) ==> outputs_compatible(outs[i], us_out)
        },
    decreases cmd_in.len(),
{
    if cmd_in.len() > 0 {
        let n = cmd_in.len() - 1;
        let i2 = ins.drop_last();
        let o2 = outs.drop_last();
        let c2 = cmd_in.drop_last();
        let d2 = cmd_out.drop_last();
        assert forall|i: int| 0 <= i < c2.len() implies
            server_step(i2[i], o2[i], #[trigger] c2[i], d2[i], i2[i + 1], o2[i + 1]) by {
            assert(i2[i] == ins[i] && i2[i + 1] == ins[i + 1] && o2[i] == outs[i] && o2[i + 1] == outs[i + 1]);
            assert(c2[i] == cmd_in[i] && d2[i] == cmd_out[i]);
        }
        law_server_keeps_names_and_kinds(i2, o2, c2, d2, us_in, us_out);
        assert(i2[n] == ins[n] && o2[n] == outs[n]);
        let a = ins[n];
        let b = ins[n + 1];
        let p = outs[n];
        let q = outs[n + 1];
        assert(same_input_kinds(ins[0], a) && same_output_kinds(outs[0], p));
        assert(server_step(a, p, cmd_in[n], cmd_out[n], b, q));
        assert(same_input_kinds(ins[0], b));
        assert(same_output_kinds(outs[0], q));
        if inputs_compatible(ins[0], us_in) {
            assert forall|i: int| 0 <= i < us_in.len() implies
                (#[trigger] key_index(b, us_in[i].0@) matches Some(j) ==> input_kind(b[j].1) == input_kind(us_in[i].1)) by {
                lemma_key_index_same_names(b, ins[0], us_in[i].0@);
                lemma_key_index(ins[0], us_in[i].0@);
                if let Some(j) = key_index(ins[0], us_in[i].0@) {
                    assert(input_kind(ins[0][j].1) == input_kind(us_in[i].1));
                    assert(input_kind(b[j].1) == input_kind(ins[0][j].1));
                }
            }
        }
        if outputs_compatible(outs[0], us_out) {
            assert forall|i: int| 0 <= i < us_out.len() implies
                (#[trigger] key_index(q, us_out[i].0@) matches Some(j) ==> output_kind(q[j].1) == output_kind(us_out[i].1)) by {
                lemma_key_index_same_names(q, outs[0], us_out[i].0@);
                lemma_key_index(outs[0], us_out[i].0@);
                if let Some(j) = key_index(outs[0], us_out[i].0@) {
                    assert(output_kind(outs[0][j].1) == output_kind(us_out[i].1));
                    assert(output_kind(q[j].1) == output_kind(outs[0][j].1));
                }
            }
        }
        assert forall|i: int| 0 <= i < ins.len() implies {
            &&& same_input_kinds(ins[0], #[trigger] ins[i])
            &&& same_output_kinds(outs[0], outs[i])
            &&& inputs_compatible(ins[0], us_in) ==> inputs_compatible(ins[i], us_in)
            &&& outputs_compatible(outs[0], us_out) ==> outputs_compatible(outs[i], us_out)
        } by {
            if i < ins.len() - 1 {
                assert(i2[i] == ins[i] && o2[i] == outs[i]);
            }
        }
    }
}

/// Copies of the input states that `names` asks for.
pub fn snapshot_input_states(store: &Vec<(String, ServerInputState)>, names: &Vec<String>) -> (r: Vec<(String, ServerInputState)>)
    ensures
        inputs_view(r@) == snapshot_inputs(store@, names@),
{
    let mut r: Vec<(String, ServerInputState)> = Vec::new();
    let mut i: usize = 0;
    proof {
        assert(names@.take(0) =~= Seq::<String>::empty());
        assert(inputs_view(r@) =~= snapshot_inputs(store@, names@.take(0)));
    }
    while i < names.len()
        invariant
            i <= names.len(),
            inputs_view(r@) == snapshot_inputs(store@, names@.take(i as int)),
        decreases names.len() - i,
    {
        proof {
            assert(names@.take(i + 1).drop_last() =~= names@.take(i as int));
        }
        let ghost before = r@;
        match find_key(store, &names[i]) {
            Some(j) => {
                r.push((names[i].clone(), copy_input_state(&store[j].1)));
                proof {
                    assert(inputs_view(r@) =~= inputs_view(before).push((names@[i as int]@, input_view(store@[j as int].1))));
                }
            },
            None => {},
        }
        i = i + 1;
    }
    proof {
        assert(names@.take(names@.len() as int) =~= names@);
    }
    r
}

/// Copies of the output states that `names` asks for.
pub fn snapshot_output_states(store: &Vec<(String, ServerOutputState)>, names: &Vec<String>) -> (r: Vec<(String, ServerOutputState)>)
    ensures
        outputs_view(r@) == snapshot_outputs(store@, names@),
{
    let mut r: Vec<(String, ServerOutputState)> = Vec::new();
    let mut i: usize = 0;
    proof {
        assert(names@.take(0) =~= Seq::<String>::empty());
        assert(outputs_view(r@) =~= snapshot_outputs(store@, names@.take(0)));
    }
    while i < names.len()
        invariant
            i <= names.len(),
            outputs_view(r@) == snapshot_outputs(store@, names@.take(i as int)),
        decreases names.len() - i,
    {
        proof {
            assert(names@.take(i + 1).drop_last() =~= names@.take(i as int));
        }
        let ghost before = r@;
        match find_key(store, &names[i]) {
            Some(j) => {
                r.push((names[i].clone(), copy_output_state(&store[j].1)));
                proof {
                    assert(outputs_view(r@) =~= outputs_view(before).push((names@[i as int]@, output_view(store@[j as int].1))));
                }
            },
            None => {},
        }
        i = i + 1;
    }
    proof {
        assert(names@.take(names@.len() as int) =~= names@);
    }
    r
}

/// Names that stay in their places keep their distinctness.
proof fn lemma_same_names_unique<T, U>(a: Seq<(String, T)>, b: Seq<(String, U)>)
    requires
        keys_unique(a),
        a.len() == b.len(),
        forall|j: int| 0 <= j < a.len() ==> (#[trigger] b[j]).0@ == a[j].0@,
    ensures
        keys_unique(b),
{
    assert forall|i: int, j: int| 0 <= i < j < b.len() implies (#[trigger] b[i]).0@ != (#[trigger] b[j]).0@ by {
        assert(a[i].0@ != a[j].0@);
    }
}

/// Every object held by the input states of `s` has distinct member names.
pub open spec fn input_values_wf(s: Seq<(String, ServerInputState)>) -> bool {
    forall|j: int| 0 <= j < s.len() ==> input_view_wf(input_view(#[trigger] s[j].1))
}

/// Every object held by the output states of `s` has distinct member names.
pub open spec fn output_values_wf(s: Seq<(String, ServerOutputState)>) -> bool {
    forall|j: int| 0 <= j < s.len() ==> output_view_wf(output_view(#[trigger] s[j].1))
}

/// Updates keep objects well formed: when the stored inputs and the
/// updates hold only objects with distinct member names, so do the inputs
/// after the updates; likewise for outputs.
pub proof fn law_updates_keep_member_names_distinct(
    old_in: Seq<(String, ServerInputState)>,
    us_in: Seq<(String, ServerInputState)>,
    new_in: Seq<(String, ServerInputState)>,
    old_out: Seq<(String, ServerOutputState)>,
    us_out: Seq<(String, ServerOutputState)>,
    new_out: Seq<(String, ServerOutputState)>,
)
    requires
        inputs_step(old_in, us_in, new_in),
        outputs_step(old_out, us_out, new_out),
    ensures
        input_values_wf(old_in) && input_values_wf(us_in) ==> input_values_wf(new_in),
        output_values_wf(old_out) && output_values_wf(us_out) ==> output_values_wf(new_out),
{
    if input_values_wf(old_in) && input_values_wf(us_in) {
        assert forall|j: int| 0 <= j < new_in.len() implies input_view_wf(input_view(#[trigger] new_in[j].1)) by {
            assert(input_view(new_in[j].1) == input_updated(old_in, us_in, j));
            lemma_key_index(us_in, old_in[j].0@);
            if let Some(u) = key_index(us_in, old_in[j].0@) {
                assert(input_view_wf(input_view(us_in[u].1)));
                assert(input_view_wf(input_view(old_in[j].1)));
            } else {
                assert(input_view_wf(input_view(old_in[j].1)));
            }
        }
    }
    if output_values_wf(old_out) && output_values_wf(us_out) {
        assert forall|j: int| 0 <= j < new_out.len() implies output_view_wf(output_view(#[trigger] new_out[j].1)) by {
            assert(output_view(new_out[j].1) == output_updated(old_out, us_out, j));
            lemma_key_index(us_out, old_out[j].0@);
            if let Some(u) = key_index(us_out, old_out[j].0@) {
                assert(output_view_wf(output_view(us_out[u].1)));
            } else {
                assert(output_view_wf(output_view(old_out[j].1)));
            }
        }
    }
}

/// The server's state: every input and output it serves with its current
/// state, and the subscriptions to it. It decides what each command does;
/// the task that receives the commands and sends the answers runs it.
pub struct ServerState {
    pub inputs: Vec<(String, ServerInputState)>,
    pub outputs: Vec<(String, ServerOutputState)>,
    pub subscriptions: StateSubscriptions,
}

impl ServerState {
    pub open spec fn wf(&self) -> bool {
        &&& keys_unique(self.inputs@)
        &&& keys_unique(self.outputs@)
        &&& self.subscriptions.wf()
    }

    /// The state that the configured inputs and outputs start in, with no
    /// subscriptions yet.
    pub fn from_configs(inputs: &Vec<(String, ServerInputConfig)>, outputs: &Vec<(String, ServerOutputConfig)>) -> (r: Self)
        requires
            keys_unique(inputs@),
            keys_unique(outputs@),
        ensures
            r.wf(),
            r.inputs@.len() == inputs@.len(),
            forall|j: int| 0 <= j < inputs@.len() ==> {
                &&& (#[trigger] r.inputs@[j]).0@ == inputs@[j].0@
                &&& input_view(r.inputs@[j].1) == initial_input(inputs@[j].1)
            },
            r.outputs@.len() == outputs@.len(),
            forall|j: int| 0 <= j < outputs@.len() ==> {
                &&& (#[trigger] r.outputs@[j]).0@ == outputs@[j].0@
                &&& output_view(r.outputs@[j].1) == initial_output(outputs@[j].1)
            },
            r.subscriptions.keys@.len() == 0,
            r.subscriptions.channel_size == 100,
            (forall|j: int| 0 <= j < inputs@.len() ==> input_view_wf(initial_input(#[trigger] inputs@[j].1)))
                ==> input_values_wf(r.inputs@),
    {
        let mut ins: Vec<(String, ServerInputState)> = Vec::with_capacity(inputs.len());
        let mut i: usize = 0;
        while i < inputs.len()
            invariant
                i <= inputs.len(),
                ins@.len() == i,
                forall|j: int| 0 <= j < i ==> {
                    &&& (#[trigger] ins@[j]).0@ == inputs@[j].0@
                    &&& input_view(ins@[j].1) == initial_input(inputs@[j].1)
                },
            decreases inputs.len() - i,
        {
            ins.push((inputs[i].0.clone(), ServerInputState::from_config(&inputs[i].1)));
            i = i + 1;
        }
        let mut outs: Vec<(String, ServerOutputState)> = Vec::with_capacity(outputs.len());
        let mut i: usize = 0;
        while i < outputs.len()
            invariant
                i <= outputs.len(),
                outs@.len() == i,
                forall|j: int| 0 <= j < i ==> {
                    &&& (#[trigger] outs@[j]).0@ == outputs@[j].0@
                    &&& output_view(outs@[j].1) == initial_output(outputs@[j].1)
                },
            decreases outputs.len() - i,
        {
            outs.push((outputs[i].0.clone(), ServerOutputState::from_config(&outputs[i].1)));
            i = i + 1;
        }
        proof {
            lemma_same_names_unique(inputs@, ins@);
            lemma_same_names_unique(outputs@, outs@);
        }
        ServerState { inputs: ins, outputs: outs, subscriptions: StateSubscriptions::with_capacities(100, 100) }
    }

    /// Takes an update: changes the inputs and outputs it names, and returns
    /// what each subscription hears of the changes.
    pub fn handle_update(&mut self, update: &StateUpdate) -> (r: Vec<(usize, StateUpdate)>)
        requires
            old(self).wf(),
            keys_unique(update.inputs@),
            keys_unique(update.outputs@),
            inputs_compatible(old(self).inputs@, update.inputs@),
            outputs_compatible(old(self).outputs@, update.outputs@),
        ensures
            final(self).wf(),
            inputs_step(old(self).inputs@, update.inputs@, final(self).inputs@),
            outputs_step(old(self).outputs@, update.outputs@, final(self).outputs@),
            final(self).subscriptions == old(self).subscriptions,
            deliveries_view(r@) == published(
                old(self).subscriptions.keys@,
                (input_changes(old(self).inputs@, update.inputs@), output_changes(old(self).outputs@, update.outputs@)),
            ),
            input_values_wf(old(self).inputs@) && input_values_wf(update.inputs@) ==> input_values_wf(final(self).inputs@),
            output_values_wf(old(self).outputs@) && output_values_wf(update.outputs@) ==> output_values_wf(final(self).outputs@),
    {
        let ghost i0 = self.inputs@;
        let ghost o0 = self.outputs@;
        let inputs = apply_input_updates(&mut self.inputs, &update.inputs);
        let outputs = apply_output_updates(&mut self.outputs, &update.outputs);
        proof {
            lemma_same_names_unique(i0, self.inputs@);
            lemma_same_names_unique(o0, self.outputs@);
            law_updates_keep_member_names_distinct(i0, update.inputs@, self.inputs@, o0, update.outputs@, self.outputs@);
        }
        let changes = StateUpdate { inputs, outputs };
        self.subscriptions.publish(&changes)
    }

    /// Takes a subscription to `inputs` and `outputs`: returns the
    /// subscription that hears about them and their current states.
    pub fn handle_subscribe(&mut self, inputs: Vec<String>, outputs: Vec<String>) -> (r: (usize, StateUpdate))
        requires
            old(self).wf(),
        ensures
            final(self).wf(),
            final(self).inputs == old(self).inputs,
            final(self).outputs == old(self).outputs,
            final(self).subscriptions.channel_size == old(self).subscriptions.channel_size,
            subscribe_step(old(self).subscriptions.keys@, StateSubscriptionKey { inputs, outputs }, r.0 as int,
                final(self).subscriptions.keys@),
            update_view(r.1) == (snapshot_inputs(old(self).inputs@, inputs@), snapshot_outputs(old(self).outputs@, outputs@)),
    {
        let start = StateUpdate {
            inputs: snapshot_input_states(&self.inputs, &inputs),
            outputs: snapshot_output_states(&self.outputs, &outputs),
        };
        let sub = self.subscriptions.subscribe(inputs, outputs);
        (sub, start)
    }
}

/// After an update that changes a known input, reading that input gives
/// back the written value (with the input's own limits).
pub proof fn law_input_read_after_write(
    s1: Seq<(String, ServerInputState)>,
    us: Seq<(String, ServerInputState)>,
    s2: Seq<(String, ServerInputState)>,
    n: String,
)
    requires
        keys_unique(s1),
        inputs_step(s1, us, s2),
        key_index(s1, n@) is Some,
        key_index(us, n@) is Some,
    ensures
        snapshot_inputs(s2, seq![n]) == seq![(n@, input_updated(s1, us, key_index(s1, n@)->Some_0))],
        input_differs(s1[key_index(s1, n@)->Some_0].1, us[key_index(us, n@)->Some_0].1) ==>
            snapshot_inputs(s2, seq![n]) == seq![(n@, input_after(s1[key_index(s1, n@)->Some_0].1, us[key_index(us, n@)->Some_0].1))],
{
    let j = key_index(s1, n@)->Some_0;
    let ns = seq![n];
    lemma_key_index(s1, n@);
    lemma_key_index_same_names(s2, s1, n@);
    assert(ns.drop_last() =~= Seq::<String>::empty());
    assert(snapshot_inputs(s2, ns.drop_last()) == Seq::<(Seq<char>, InputView)>::empty());
    assert(ns.last() == n);
    assert(input_view(s2[j].1) == input_updated(s1, us, j));
    assert(snapshot_inputs(s2, ns) =~= seq![(n@, input_updated(s1, us, j))]);
}

/// Whether the input state `s` holds the value that `u` carries: the same
/// value (floats equal as IEEE numbers or bit for bit, lists and objects
/// equal as values or in content).
pub open spec fn holds_value(s: ServerInputState, u: ServerInputState) -> bool {
    match (s, u) {
        (ServerInputState::Float { value: a, .. }, ServerInputState::Float { value: b, .. }) =>
            a.bits == b.bits || ieee_eq(a.bits, b.bits),
        (ServerInputState::Bool { value: a }, ServerInputState::Bool { value: b }) => a == b,
        (ServerInputState::String { value: a, .. }, ServerInputState::String { value: b, .. }) => a@ == b@,
        (ServerInputState::Binary { value: a }, ServerInputState::Binary { value: b }) => a@ == b@,
        (ServerInputState::Array { value: a }, ServerInputState::Array { value: b }) =>
            array_view(a) == array_view(b) || array_eq(a, b),
        (ServerInputState::Object { value: a }, ServerInputState::Object { value: b }) =>
            members_view(a) == members_view(b) || object_eq(a, b),
        _ => false,
    }
}

/// Whether `b` has the limits of `a`: a Float's `min`, `max` and `step`, a
/// String's `max_length`.
pub open spec fn same_input_limits(a: ServerInputState, b: ServerInputState) -> bool {
    match (a, b) {
        (ServerInputState::Float { min, max, step, .. }, ServerInputState::Float { min: min2, max: max2, step: step2, .. }) =>
            min.bits == min2.bits && max.bits == max2.bits && step.bits == step2.bits,
        (ServerInputState::String { max_length, .. }, ServerInputState::String { max_length: max_length2, .. }) =>
            max_length == max_length2,
        _ => true,
    }
}

/// Read after write, for every kind and every pair of values: after an
/// update that gives a known input a value of its kind, the input holds
/// that value (a Bool input switched off is off, one switched on is on),
/// and keeps its own limits.
pub proof fn law_input_holds_written_value(
    s1: Seq<(String, ServerInputState)>,
    us: Seq<(String, ServerInputState)>,
    s2: Seq<(String, ServerInputState)>,
    j: int,
    u: int,
)
    requires
        inputs_step(s1, us, s2),
        0 <= j < s1.len(),
        key_index(us, s1[j].0@) == Some(u),
        input_kind(s1[j].1) == input_kind(us[u].1),
    ensures
        s2[j].0@ == s1[j].0@,
        holds_value(s2[j].1, us[u].1),
        same_input_limits(s1[j].1, s2[j].1),
{
    lemma_key_index(us, s1[j].0@);
    assert(input_view(s2[j].1) == input_updated(s1, us, j));
    if input_differs(s1[j].1, us[u].1) {
        assert(input_view(s2[j].1) == input_after(s1[j].1, us[u].1));
        match (s1[j].1, us[u].1, s2[j].1) {
            (ServerInputState::Array { .. }, ServerInputState::Array { value: b }, ServerInputState::Array { value: a }) => {
                assert(array_view(a) == array_view(b));
            },
            (ServerInputState::Object { .. }, ServerInputState::Object { value: b }, ServerInputState::Object { value: a }) => {
                assert(members_view(a) == members_view(b));
            },
            _ => {},
        }
    } else {
        assert(input_kept(s1, us, j));
        assert(s2[j] == s1[j]);
    }
}

/// After an update that writes a known output, reading that output gives
/// back the written value.
pub proof fn law_output_read_after_write(
    s1: Seq<(String, ServerOutputState)>,
    us: Seq<(String, ServerOutputState)>,
    s2: Seq<(String, ServerOutputState)>,
    n: String,
)
    requires
        outputs_step(s1, us, s2),
        key_index(s1, n@) is Some,
        key_index(us, n@) is Some,
    ensures
        snapshot_outputs(s2, seq![n]) == seq![(n@, output_view(us[key_index(us, n@)->Some_0].1))],
{
    let j = key_index(s1, n@)->Some_0;
    let ns = seq![n];
    lemma_key_index(s1, n@);
    lemma_key_index_same_names(s2, s1, n@);
    assert(ns.drop_last() =~= Seq::<String>::empty());
    assert(snapshot_outputs(s2, ns.drop_last()) == Seq::<(Seq<char>, OutputView)>::empty());
    assert(ns.last() == n);
    assert(output_view(s2[j].1) == output_updated(s1, us, j));
    assert(snapshot_outputs(s2, ns) =~= seq![(n@, output_view(us[key_index(us, n@)->Some_0].1))]);
}

/// Whether no two entries share a name.
pub fn names_distinct<T>(entries: &Vec<(String, T)>) -> (r: bool)
    ensures
        r == keys_unique(entries@),
{
    let mut i: usize = 0;
    while i < entries.len()
        invariant
            i <= entries.len(),
            forall|a: int, b: int| 0 <= a < b < entries@.len() && a < i ==> (#[trigger] entries@[a]).0@ != (#[trigger] entries@[b]).0@,
        decreases entries.len() - i,
    {
        let mut j: usize = i + 1;
        while j < entries.len()
            invariant
                i < entries.len(),
                i + 1 <= j <= entries.len(),
                forall|a: int, b: int| 0 <= a < b < entries@.len() && a < i ==> (#[trigger] entries@[a]).0@ != (#[trigger] entries@[b]).0@,
                forall|b: int| i < b < j ==> entries@[i as int].0@ != (#[trigger] entries@[b]).0@,
            decreases entries.len() - j,
        {
            if entries[i].0 == entries[j].0 {
                assert(!keys_unique(entries@)) by {
                    assert(entries@[i as int].0@ == entries@[j as int].0@);
                }
                return false;
            }
            j = j + 1;
        }
        i = i + 1;
    }
    true
}

impl ServerState {
    /// Whether `update` can be applied: its names are distinct, and each
    /// known input and output it names gets a value of its own kind.
    pub fn accepts(&self, update: &StateUpdate) -> (r: bool)
        requires
            self.wf(),
        ensures
            r == (keys_unique(update.inputs@) && keys_unique(update.outputs@)
                && inputs_compatible(self.inputs@, update.inputs@) && outputs_compatible(self.outputs@, update.outputs@)),
    {
        if !names_distinct(&update.inputs) || !names_distinct(&update.outputs) {
            return false;
        }
        let mut i: usize = 0;
        while i < update.inputs.len()
            invariant
                i <= update.inputs.len(),
                forall|u: int| 0 <= u < i ==>
                    (#[trigger] key_index(self.inputs@, update.inputs@[u].0@) matches Some(j)
                        ==> input_kind(self.inputs@[j].1) == input_kind(update.inputs@[u].1)),
            decreases update.inputs.len() - i,
        {
            if let Some(j) = find_key(&self.inputs, &update.inputs[i].0) {
                if self.inputs[j].1.kind() != update.inputs[i].1.kind() {
                    return false;
                }
            }
            i = i + 1;
        }
        let mut i: usize = 0;
        while i < update.outputs.len()
            invariant
                i <= update.outputs.len(),
                inputs_compatible(self.inputs@, update.inputs@),
                forall|u: int| 0 <= u < i ==>
                    (#[trigger] key_index(self.outputs@, update.outputs@[u].0@) matches Some(j)
                        ==> output_kind(self.outputs@[j].1) == output_kind(update.outputs@[u].1)),
            decreases update.outputs.len() - i,
        {
            if let Some(j) = find_key(&self.outputs, &update.outputs[i].0) {
                if self.outputs[j].1.kind() != update.outputs[i].1.kind() {
                    return false;
                }
            }
            i = i + 1;
        }
        true
    }
}

} // verus!
