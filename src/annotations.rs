use vstd::prelude::*;

use crate::config::{
    empty_var_message, first_missing, pairs_of, CirrusEnvironment, Pairs, ANNOTATION_PREFIX,
};
use crate::error::Error;
use crate::keys::key_eq;
use crate::text::{has_prefix, replace_char, strip_prefix, swap_char, upper_of, uppercase};

verus! {

/// Sub-prefix, after the annotation prefix, of the keys that set configuration.
pub const ENV_PREFIX: &'static str = "env.";

/// Annotation that turns injection on when its value is exactly `"true"`.
pub const ENABLED_ANNOTATION: &'static str = "nimbus.mozilla.org/enabled";

/// The configuration key an annotation key sets, if it sets one:
/// `nimbus.mozilla.org/env.app.id` sets `APP_ID`.
pub open spec fn config_key_of(k: Seq<char>) -> Option<Seq<char>> {
    let p = ANNOTATION_PREFIX@.len() as int;
    let e = ENV_PREFIX@.len() as int;
    if has_prefix(k, ANNOTATION_PREFIX@) && has_prefix(k.skip(p), ENV_PREFIX@) {
        Some(upper_of(swap_char(k.skip(p).skip(e), '.', '_')))
    } else {
        None
    }
}

/// The configuration overrides that a list of annotations carries, in order.
pub open spec fn overrides_of(a: Pairs) -> Pairs
    decreases a.len(),
{
    if a.len() == 0 {
        Seq::empty()
    } else {
        let rest = overrides_of(a.drop_last());
        match config_key_of(a.last().0) {
            Some(k) => rest.push((k, a.last().1)),
            None => rest,
        }
    }
}

/// `m` with each pair of `p` set in turn, later pairs winning.
pub open spec fn overlay(m: Map<Seq<char>, Seq<char>>, p: Pairs) -> Map<Seq<char>, Seq<char>>
    decreases p.len(),
{
    if p.len() == 0 {
        m
    } else {
        overlay(m.insert(p[0].0, p[0].1), p.drop_first())
    }
}

/// The configuration key that `annotation_key` sets, if any.
pub fn config_key(annotation_key: &str) -> (r: Option<String>)
    ensures
        r matches Some(k) ==> config_key_of(annotation_key@) == Some(k@),
        r is None ==> config_key_of(annotation_key@) is None,
{
    match strip_prefix(annotation_key, ANNOTATION_PREFIX) {
        Some(rest) => match strip_prefix(rest.as_str(), ENV_PREFIX) {
            Some(field) => {
                let underscored = replace_char(field.as_str(), '.', '_');
                Some(uppercase(underscored.as_str()))
            },
            None => None,
        },
        None => None,
    }
}

/// Whether the enablement annotation is present with value exactly `"true"`.
pub open spec fn enabled_in(a: Pairs) -> bool {
    exists|i: int| 0 <= i < a.len() && a[i].0 == ENABLED_ANNOTATION@ && a[i].1 == "true"@
}

/// Sets each override in turn onto `env`.
pub fn apply_overrides(env: &mut CirrusEnvironment, overrides: Vec<(String, String)>)
    requires
        old(env).wf(),
    ensures
        final(env).wf(),
        final(env)@ == overlay(old(env)@, pairs_of(overrides@)),
{
    let ghost start = env@;
    assert(pairs_of(overrides@).skip(0) =~= pairs_of(overrides@));
    let n = overrides.len();
    let mut i: usize = 0;
    while i < n
        invariant
            n == overrides@.len(),
            i <= n,
            env.wf(),
            overlay(env@, pairs_of(overrides@).skip(i as int)) == overlay(start, pairs_of(overrides@)),
        decreases n - i,
    {
        let k = overrides[i].0.clone();
        let v = overrides[i].1.clone();
        proof {
            assert(pairs_of(overrides@).skip(i as int).drop_first() =~= pairs_of(overrides@).skip(i + 1));
        }
        env.set(k, v);
        i = i + 1;
    }
}

/// A copy of `defaults` with the overrides set in turn.
pub fn overlaid(defaults: &CirrusEnvironment, overrides: Vec<(String, String)>) -> (r: CirrusEnvironment)
    requires
        defaults.wf(),
    ensures
        r.wf(),
        r@ == overlay(defaults@, pairs_of(overrides@)),
{
    let mut env = CirrusEnvironment { map: defaults.env_vars() };
    apply_overrides(&mut env, overrides);
    env
}

/// The configuration for object `name`: `defaults` overlaid with the
/// overrides, then validated.
pub fn build_env(defaults: &CirrusEnvironment, overrides: Vec<(String, String)>, name: &str) -> (r: Result<CirrusEnvironment, Error>)
    requires
        defaults.wf(),
    ensures
        ({
            let m = overlay(defaults@, pairs_of(overrides@));
            &&& first_missing(m) is None ==> (r matches Ok(e) && e.wf() && e@ == m)
            &&& first_missing(m) matches Some(k) ==> (r matches Err(Error::InvalidConfigurationError(msg))
                && msg@ == empty_var_message(k, name@))
        }),
{
    let env = overlaid(defaults, overrides);
    env.validate(name)?;
    Ok(env)
}

/// The configuration that an object's annotations ask for: every annotation
/// `nimbus.mozilla.org/env.<dotted.name>` overrides `<DOTTED_NAME>` in
/// `defaults`; application id, name and channel must then be non-empty.
pub fn create_env(annotations: &Vec<(String, String)>, name: &str, defaults: &CirrusEnvironment) -> (r: Result<CirrusEnvironment, Error>)
    requires
        defaults.wf(),
    ensures
        ({
            let m = overlay(defaults@, overrides_of(pairs_of(annotations@)));
            &&& first_missing(m) is None ==> (r matches Ok(e) && e.wf() && e@ == m)
            &&& first_missing(m) matches Some(k) ==> (r matches Err(Error::InvalidConfigurationError(msg))
                && msg@ == empty_var_message(k, name@))
        }),
{
    let mut overrides: Vec<(String, String)> = Vec::new();
    let n = annotations.len();
    let mut i: usize = 0;
    while i < n
        invariant
            n == annotations@.len(),
            i <= n,
            pairs_of(overrides@) == overrides_of(pairs_of(annotations@).take(i as int)),
        decreases n - i,
    {
        let ghost before = overrides@;
        proof {
            assert(pairs_of(annotations@).take(i + 1).drop_last() =~= pairs_of(annotations@).take(i as int));
        }
        match config_key(annotations[i].0.as_str()) {
            Some(k) => {
                overrides.push((k, annotations[i].1.clone()));
                proof {
                    assert(pairs_of(overrides@) =~= pairs_of(before).push(pairs_of(overrides@).last()));
                }
            },
            None => {},
        }
        i = i + 1;
    }
    assert(pairs_of(annotations@).take(n as int) =~= pairs_of(annotations@));
    build_env(defaults, overrides, name)
}

/// Whether the enablement annotation is set to `"true"`.
pub fn is_enabled(annotations: &Vec<(String, String)>) -> (r: bool)
    ensures
        r == enabled_in(pairs_of(annotations@)),
{
    let n = annotations.len();
    let mut i: usize = 0;
    while i < n
        invariant
            n == annotations@.len(),
            i <= n,
            forall|j: int| 0 <= j < i ==> !(#[trigger] pairs_of(annotations@)[j].0 == ENABLED_ANNOTATION@
                && pairs_of(annotations@)[j].1 == "true"@),
        decreases n - i,
    {
        let k = annotations[i].0.as_str();
        let v = annotations[i].1.as_str();
        assert(pairs_of(annotations@)[i as int].0 == k@ && pairs_of(annotations@)[i as int].1 == v@);
        if key_eq(k, ENABLED_ANNOTATION) && key_eq(v, "true") {
            assert(pairs_of(annotations@)[i as int].0 == k@ && pairs_of(annotations@)[i as int].1 == v@);
            return true;
        }
        i = i + 1;
    }
    false
}

} // verus!
