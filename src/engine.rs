use vstd::prelude::*;

use crate::annotations::{
    create_env, enabled_in, is_enabled, overlaid, overlay, overrides_of,
};
use crate::config::{
    empty_var_message, first_missing, pairs_of, CirrusEnvironment, Pairs, FINALIZER,
};
use crate::error::Error;
use crate::keys::key_eq;

verus! {

/// Seconds after which an applied or up-to-date object is checked again.
pub const REQUEUE_SECS: u64 = 300;

/// Workload kinds the controller can watch; it runs against one at a time.
#[derive(PartialEq, Eq, Structural, Clone, Copy, Debug)]
pub enum ControllerType {
    Pod,
    Deployment,
    ReplicaSet,
    DaemonSet,
    StatefulSet,
}

/// What the core reads of a managed object.
pub struct ManagedObject {
    pub name: String,
    pub namespace: String,
    /// Annotation keys and values; keys are unique.
    pub annotations: Vec<(String, String)>,
    pub finalizers: Vec<String>,
    /// Whether a deletion timestamp is set.
    pub deleting: bool,
    /// The environment of the existing sidecar container, when there is one
    /// that declares an environment.
    pub sidecar_env: Option<Vec<(String, String)>>,
}

/// The part of a managed object the decision depends on.
pub struct ObjectView {
    pub annotations: Pairs,
    pub finalizers: Seq<Seq<char>>,
    pub deleting: bool,
    pub sidecar_env: Option<Pairs>,
}

pub open spec fn names_of(v: Seq<String>) -> Seq<Seq<char>> {
    v.map_values(|s: String| s@)
}

impl View for ManagedObject {
    type V = ObjectView;

    open spec fn view(&self) -> ObjectView {
        ObjectView {
            annotations: pairs_of(self.annotations@),
            finalizers: names_of(self.finalizers@),
            deleting: self.deleting,
            sidecar_env: match self.sidecar_env {
                Some(v) => Some(pairs_of(v@)),
                None => None,
            },
        }
    }
}

/// Whether the finalizer marker is among `f`.
pub open spec fn marked(f: Seq<Seq<char>>) -> bool {
    exists|i: int| 0 <= i < f.len() && f[i] == FINALIZER@
}

/// What one reconciliation decides for an object.
pub enum Decision {
    /// Nothing to do until the object changes.
    AwaitChange,
    /// The sidecar is in place and current.
    Skip,
    /// Ensure the finalizer marker, then patch in the sidecar with this configuration.
    Apply(CirrusEnvironment),
    /// Run cleanup, then remove the finalizer marker.
    Cleanup,
}

/// The decision in terms of views; `Invalid` carries the error message.
pub enum Step {
    AwaitChange,
    Skip,
    Apply(Map<Seq<char>, Seq<char>>),
    Cleanup,
    Invalid(Seq<char>),
}

/// The configuration an object asks for.
pub open spec fn desired_of(o: ObjectView, defaults: Map<Seq<char>, Seq<char>>) -> Map<Seq<char>, Seq<char>> {
    overlay(defaults, overrides_of(o.annotations))
}

/// The configuration the existing sidecar runs with, read over the defaults.
pub open spec fn observed_of(o: ObjectView, defaults: Map<Seq<char>, Seq<char>>) -> Option<Map<Seq<char>, Seq<char>>> {
    match o.sidecar_env {
        Some(p) => Some(overlay(defaults, p)),
        None => None,
    }
}

/// The decision rule. Deletion comes first: a deleting object is cleaned up
/// when it carries the marker, whatever else holds. Then enablement, then
/// validation, then the comparison of observed with desired state.
pub open spec fn step_of(o: ObjectView, defaults: Map<Seq<char>, Seq<char>>, name: Seq<char>) -> Step {
    let m = desired_of(o, defaults);
    if o.deleting {
        if marked(o.finalizers) { Step::Cleanup } else { Step::AwaitChange }
    } else if !enabled_in(o.annotations) {
        Step::AwaitChange
    } else if first_missing(m) is Some {
        Step::Invalid(empty_var_message(first_missing(m)->0, name))
    } else if marked(o.finalizers) && observed_of(o, defaults) == Some(m) {
        Step::Skip
    } else {
        Step::Apply(m)
    }
}

/// Whether an executable result is the step `s`.
pub open spec fn realizes(r: Result<Decision, Error>, s: Step) -> bool {
    match s {
        Step::AwaitChange => r matches Ok(Decision::AwaitChange),
        Step::Skip => r matches Ok(Decision::Skip),
        Step::Cleanup => r matches Ok(Decision::Cleanup),
        Step::Apply(m) => r matches Ok(Decision::Apply(e)) && e.wf() && e@ == m,
        Step::Invalid(msg) => r matches Err(Error::InvalidConfigurationError(t)) && t@ == msg,
    }
}

/// Whether the finalizer marker is among `finalizers`.
pub fn has_finalizer(finalizers: &Vec<String>) -> (r: bool)
    ensures
        r == marked(names_of(finalizers@)),
{
    let n = finalizers.len();
    let mut i: usize = 0;
    while i < n
        invariant
            n == finalizers@.len(),
            i <= n,
            forall|j: int| 0 <= j < i ==> #[trigger] names_of(finalizers@)[j] != FINALIZER@,
        decreases n - i,
    {
        if key_eq(finalizers[i].as_str(), FINALIZER) {
            assert(names_of(finalizers@)[i as int] == FINALIZER@);
            return true;
        }
        i = i + 1;
    }
    false
}

/// Decides what to do with `obj`, given the default configuration.
pub fn decide(obj: &ManagedObject, defaults: &CirrusEnvironment) -> (r: Result<Decision, Error>)
    requires
        defaults.wf(),
    ensures
        realizes(r, step_of(obj@, defaults@, obj.name@)),
        obj.deleting ==> !(r matches Ok(Decision::Apply(_))),
{
    let marker = has_finalizer(&obj.finalizers);
    if obj.deleting {
        return if marker { Ok(Decision::Cleanup) } else { Ok(Decision::AwaitChange) };
    }
    if !is_enabled(&obj.annotations) {
        return Ok(Decision::AwaitChange);
    }
    let env = create_env(&obj.annotations, obj.name.as_str(), defaults)?;
    if marker {
        match &obj.sidecar_env {
            Some(vars) => {
                let observed = overlaid(defaults, copy_pairs(vars));
                if same_config(&observed, &env) {
                    return Ok(Decision::Skip);
                }
            },
            None => {},
        }
    }
    Ok(Decision::Apply(env))
}

/// A copy of a list of pairs.
pub fn copy_pairs(v: &Vec<(String, String)>) -> (r: Vec<(String, String)>)
    ensures
        pairs_of(r@) == pairs_of(v@),
{
    let mut r: Vec<(String, String)> = Vec::new();
    let n = v.len();
    let mut i: usize = 0;
    while i < n
        invariant
            n == v@.len(),
            i <= n,
            r@.len() == i,
            forall|j: int| 0 <= j < i ==> (#[trigger] r@[j]).0@ == v@[j].0@ && r@[j].1@ == v@[j].1@,
        decreases n - i,
    {
        r.push((v[i].0.clone(), v[i].1.clone()));
        i = i + 1;
    }
    assert(pairs_of(r@) =~= pairs_of(v@));
    r
}

/// Whether two configurations hold the same names and values.
pub fn same_config(a: &CirrusEnvironment, b: &CirrusEnvironment) -> (r: bool)
    requires
        a.wf(),
        b.wf(),
    ensures
        r == (a@ == b@),
{
    let r = a.pairs_equal(b);
    proof {
        if a@ == b@ {
            crate::config::lemma_sorted_canonical(a.pairs(), b.pairs());
        }
    }
    r
}

} // verus!
