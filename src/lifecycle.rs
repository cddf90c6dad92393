use vstd::prelude::*;

use crate::annotations::overlay;
use crate::config::{map_of, sorted, Pairs, FINALIZER};
use crate::engine::{
    has_finalizer, desired_of, marked, names_of, step_of, Decision, ObjectView, Step, REQUEUE_SECS,
};
use crate::error::Error;
use crate::keys::key_eq;

verus! {

/// What the scheduler should do next with an object.
pub enum Action {
    /// Reconcile again after this many seconds.
    Requeue(u64),
    /// Wait for the next change to the object.
    AwaitChange,
}

/// The next action after a decision was carried out: applied or up-to-date
/// objects are checked again after the fixed interval, the others wait.
pub fn action_for(d: &Decision) -> (r: Action)
    ensures
        (d is Skip || d is Apply) ==> r == Action::Requeue(REQUEUE_SECS),
        (d is AwaitChange || d is Cleanup) ==> r == Action::AwaitChange,
{
    match d {
        Decision::Skip | Decision::Apply(_) => Action::Requeue(REQUEUE_SECS),
        Decision::AwaitChange | Decision::Cleanup => Action::AwaitChange,
    }
}

/// Any failed attempt is retried after the fixed interval.
pub fn error_policy(_error: &Error) -> (r: Action)
    ensures
        r == Action::Requeue(REQUEUE_SECS),
{
    Action::Requeue(REQUEUE_SECS)
}

/// The finalizers with the marker added at the end, unless already present.
pub open spec fn with_marker(f: Seq<Seq<char>>) -> Seq<Seq<char>> {
    if marked(f) { f } else { f.push(FINALIZER@) }
}

/// The finalizers with every copy of the marker taken out, order kept.
pub open spec fn without_marker(f: Seq<Seq<char>>) -> Seq<Seq<char>> {
    f.filter(|s: Seq<char>| s != FINALIZER@)
}

/// The finalizers after a cleanup attempt: the marker goes only when cleanup
/// succeeded.
pub open spec fn after_cleanup_of(f: Seq<Seq<char>>, succeeded: bool) -> Seq<Seq<char>> {
    if succeeded { without_marker(f) } else { f }
}

/// A copy of the finalizers that carries the marker.
pub fn add_finalizer(finalizers: &Vec<String>) -> (r: Vec<String>)
    ensures
        names_of(r@) == with_marker(names_of(finalizers@)),
{
    let mut r = copy_names(finalizers);
    let found = has_finalizer(finalizers);
    if !found {
        r.push(String::from_str(FINALIZER));
        assert(names_of(r@) =~= names_of(finalizers@).push(FINALIZER@));
    }
    r
}

/// A copy of a list of strings.
pub fn copy_names(v: &Vec<String>) -> (r: Vec<String>)
    ensures
        names_of(r@) == names_of(v@),
{
    let mut r: Vec<String> = Vec::new();
    let n = v.len();
    let mut i: usize = 0;
    while i < n
        invariant
            n == v@.len(),
            i <= n,
            r@.len() == i,
            forall|j: int| 0 <= j < i ==> (#[trigger] r@[j])@ == v@[j]@,
        decreases n - i,
    {
        r.push(v[i].clone());
        i = i + 1;
    }
    assert(names_of(r@) =~= names_of(v@));
    r
}

/// A copy of the finalizers without the marker.
pub fn remove_finalizer(finalizers: &Vec<String>) -> (r: Vec<String>)
    ensures
        names_of(r@) == without_marker(names_of(finalizers@)),
        !marked(names_of(r@)),
{
    let mut r: Vec<String> = Vec::new();
    let n = finalizers.len();
    let mut i: usize = 0;
    while i < n
        invariant
            n == finalizers@.len(),
            i <= n,
            names_of(r@) == without_marker(names_of(finalizers@).take(i as int)),
        decreases n - i,
    {
        let ghost f = names_of(finalizers@);
        proof {
            assert(f.take(i + 1).drop_last() =~= f.take(i as int));
            reveal(Seq::filter);
        }
        let s = finalizers[i].clone();
        if !key_eq(s.as_str(), FINALIZER) {
            r.push(s);
            assert(names_of(r@) =~= without_marker(f.take(i as int)).push(f[i as int]));
        }
        i = i + 1;
    }
    assert(names_of(finalizers@).take(n as int) =~= names_of(finalizers@));
    proof {
        let g = names_of(r@);
        if marked(g) {
            let j = choose|j: int| 0 <= j < g.len() && g[j] == FINALIZER@;
            assert(g.contains(g[j]));
        }
    }
    r
}

/// The finalizers after a cleanup attempt with this result.
pub fn after_cleanup(finalizers: &Vec<String>, result: &Result<(), Error>) -> (r: Vec<String>)
    ensures
        names_of(r@) == after_cleanup_of(names_of(finalizers@), result is Ok),
{
    match result {
        Ok(()) => remove_finalizer(finalizers),
        Err(_) => {
            copy_names(finalizers)
        },
    }
}

/// The object as it stands once an apply has landed: the marker is present
/// and the sidecar runs with the patched environment `p`.
pub open spec fn applied(o: ObjectView, p: Pairs) -> ObjectView {
    ObjectView { finalizers: with_marker(o.finalizers), sidecar_env: Some(p), ..o }
}

pub proof fn lemma_with_marker_marked(f: Seq<Seq<char>>)
    ensures
        marked(with_marker(f)),
{
    if !marked(f) {
        assert(with_marker(f)[f.len() as int] == FINALIZER@);
    }
}

pub proof fn lemma_overlay_keeps_keys(m: Map<Seq<char>, Seq<char>>, q: Pairs, k: Seq<char>)
    requires
        m.contains_key(k),
    ensures
        overlay(m, q).contains_key(k),
    decreases q.len(),
{
    if q.len() > 0 {
        lemma_overlay_keeps_keys(m.insert(q[0].0, q[0].1), q.drop_first(), k);
    }
}

/// Setting sorted pairs in turn gives their mapping laid over `m`.
pub proof fn lemma_overlay_sorted(m: Map<Seq<char>, Seq<char>>, p: Pairs)
    requires
        sorted(p),
    ensures
        overlay(m, p) == m.union_prefer_right(map_of(p)),
    decreases p.len(),
{
    if p.len() == 0 {
        assert(m.union_prefer_right(map_of(p)) =~= m);
    } else {
        crate::config::lemma_map_of_drop_first(p);
        crate::config::lemma_map_of_index(p, 0);
        lemma_overlay_sorted(m.insert(p[0].0, p[0].1), p.drop_first());
        assert(m.insert(p[0].0, p[0].1).union_prefer_right(map_of(p.drop_first())) =~= m.union_prefer_right(
            map_of(p),
        ));
    }
}

/// Reconciling is idempotent: once the patch that an apply asked for has
/// landed, with no other change, the next reconciliation skips, and so does
/// every one after it, since a skip changes nothing.
pub proof fn lemma_reconcile_idempotent(
    o: ObjectView,
    defaults: Map<Seq<char>, Seq<char>>,
    name: Seq<char>,
    p: Pairs,
)
    requires
        step_of(o, defaults, name) is Apply,
        sorted(p),
        map_of(p) == desired_of(o, defaults),
    ensures
        step_of(applied(o, p), defaults, name) == Step::Skip,
{
    let m = desired_of(o, defaults);
    let o2 = applied(o, p);
    lemma_with_marker_marked(o.finalizers);
    lemma_overlay_sorted(defaults, p);
    assert forall|k: Seq<char>| #[trigger] defaults.contains_key(k) implies m.contains_key(k) by {
        lemma_overlay_keeps_keys(defaults, crate::annotations::overrides_of(o.annotations), k);
    }
    assert(defaults.union_prefer_right(m) =~= m);
    assert(desired_of(o2, defaults) == m);
}

/// Deletion takes precedence: a deleting object that carries the marker is
/// cleaned up, whatever its annotations, configuration or sidecar state.
pub proof fn lemma_deletion_precedence(o: ObjectView, defaults: Map<Seq<char>, Seq<char>>, name: Seq<char>)
    requires
        o.deleting,
        marked(o.finalizers),
    ensures
        step_of(o, defaults, name) == Step::Cleanup,
{
}

/// The marker is safe: a failed cleanup leaves it in place, so deletion
/// stays blocked, and a later successful cleanup removes it.
pub proof fn lemma_finalizer_safety(f: Seq<Seq<char>>)
    requires
        marked(f),
    ensures
        marked(after_cleanup_of(f, false)),
        !marked(after_cleanup_of(after_cleanup_of(f, false), true)),
{
    let g = without_marker(f);
    if marked(g) {
        let j = choose|j: int| 0 <= j < g.len() && g[j] == FINALIZER@;
        f.lemma_filter_pred(|s: Seq<char>| s != FINALIZER@, j);
    }
}

} // verus!
