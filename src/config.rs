use vstd::prelude::*;

use crate::error::Error;
use crate::text::{lower_of, lowercase, replace_char, swap_char};
use crate::keys::{
    key_eq, key_less, key_lt, lemma_key_lt_asymmetric, lemma_key_lt_irreflexive, lemma_key_lt_total,
    lemma_key_lt_transitive,
};

verus! {

/// Finalizer marker that blocks deletion until cleanup has run.
pub const FINALIZER: &'static str = "nimbus.mozilla.org/finalizer";

/// Label selector of the pod templates this controller has enabled.
pub const ENABLED: &'static str = "nimbus=enabled";

/// Prefix of every annotation this controller reads.
pub const ANNOTATION_PREFIX: &'static str = "nimbus.mozilla.org/";

pub const REMOTE_SETTING_URL: &'static str = "REMOTE_SETTING_URL";
pub const REMOTE_SETTING_REFRESH_RATE_IN_SECONDS: &'static str = "REMOTE_SETTING_REFRESH_RATE_IN_SECONDS";
pub const APP_ID: &'static str = "APP_ID";
pub const APP_NAME: &'static str = "APP_NAME";
pub const CHANNEL: &'static str = "CHANNEL";
pub const CIRRUS_FML_PATH: &'static str = "CIRRUS_FML_PATH";

pub const DEFAULT_REMOTE_SETTING_URL: &'static str = "https://firefox.settings.services.mozilla.com/v1/buckets/main/collections/nimbus-web-experiments/records";
pub const DEFAULT_REFRESH_RATE_IN_SECONDS: &'static str = "10";
pub const DEFAULT_FML_PATH: &'static str = "/nimbus.fml.yaml";

pub type Pairs = Seq<(Seq<char>, Seq<char>)>;

/// Keys strictly increasing, hence also unique.
pub open spec fn sorted(p: Pairs) -> bool {
    forall|i: int, j: int| 0 <= i < j < p.len() ==> key_lt(#[trigger] p[i].0, #[trigger] p[j].0)
}

/// The key/value mapping a list of pairs stands for.
pub open spec fn map_of(p: Pairs) -> Map<Seq<char>, Seq<char>> {
    Map::new(
        |k: Seq<char>| exists|i: int| 0 <= i < p.len() && p[i].0 == k,
        |k: Seq<char>| p[index_of(p, k)].1,
    )
}

/// Some position at which `k` is the key.
pub open spec fn index_of(p: Pairs, k: Seq<char>) -> int {
    choose|i: int| 0 <= i < p.len() && p[i].0 == k
}

pub open spec fn pairs_of(v: Seq<(String, String)>) -> Pairs {
    v.map_values(|e: (String, String)| (e.0@, e.1@))
}

pub proof fn lemma_map_of_index(p: Pairs, i: int)
    requires
        sorted(p),
        0 <= i < p.len(),
    ensures
        map_of(p).contains_key(p[i].0),
        map_of(p)[p[i].0] == p[i].1,
{
    let k = p[i].0;
    assert(exists|j: int| 0 <= j < p.len() && p[j].0 == k);
    let j = index_of(p, k);
    if j < i {
        assert(key_lt(p[j].0, p[i].0));
        lemma_key_lt_irreflexive(k);
    } else if i < j {
        assert(key_lt(p[i].0, p[j].0));
        lemma_key_lt_irreflexive(k);
    }
    assert(j == i);
    assert(map_of(p)[k] == p[index_of(p, k)].1);
}

/// Sorted pairs are the one canonical list of their mapping.
pub proof fn lemma_sorted_canonical(p: Pairs, q: Pairs)
    requires
        sorted(p),
        sorted(q),
        map_of(p) == map_of(q),
    ensures
        p == q,
    decreases p.len(),
{
    if p.len() == 0 {
        if q.len() > 0 {
            lemma_map_of_index(q, 0);
        }
        assert(p =~= q);
        return;
    }
    lemma_map_of_index(p, 0);
    assert(map_of(q).contains_key(p[0].0));
    let m = choose|m: int| 0 <= m < q.len() && q[m].0 == p[0].0;
    lemma_map_of_index(q, 0);
    let n = choose|n: int| 0 <= n < p.len() && p[n].0 == q[0].0;
    if m > 0 {
        assert(key_lt(q[0].0, q[m].0));
        if n > 0 {
            assert(key_lt(p[0].0, p[n].0));
            lemma_key_lt_asymmetric(p[0].0, q[0].0);
        } else {
            lemma_key_lt_irreflexive(p[0].0);
        }
    }
    assert(q[0].0 == p[0].0);
    lemma_map_of_index(q, 0);
    let pt = p.drop_first();
    let qt = q.drop_first();
    lemma_map_of_drop_first(p);
    lemma_map_of_drop_first(q);
    lemma_sorted_canonical(pt, qt);
    assert(p =~= seq![p[0]] + pt);
    assert(q =~= seq![q[0]] + qt);
}

pub proof fn lemma_map_of_drop_first(p: Pairs)
    requires
        sorted(p),
        p.len() > 0,
    ensures
        sorted(p.drop_first()),
        map_of(p.drop_first()) == map_of(p).remove(p[0].0),
{
    let t = p.drop_first();
    assert(sorted(t)) by {
        assert forall|i: int, j: int| 0 <= i < j < t.len() implies key_lt(#[trigger] t[i].0, #[trigger] t[j].0) by {
            assert(t[i] == p[i + 1] && t[j] == p[j + 1]);
        }
    }
    assert forall|k: Seq<char>| #[trigger] map_of(t).contains_key(k) <==> map_of(p).remove(p[0].0).contains_key(k) by {
        if map_of(t).contains_key(k) {
            let i = choose|i: int| 0 <= i < t.len() && t[i].0 == k;
            assert(p[i + 1].0 == k);
            assert(key_lt(p[0].0, p[i + 1].0));
            lemma_key_lt_irreflexive(k);
        }
        if map_of(p).remove(p[0].0).contains_key(k) {
            let i = choose|i: int| 0 <= i < p.len() && p[i].0 == k;
            assert(t[i - 1].0 == k);
        }
    }
    assert forall|k: Seq<char>| #[trigger] map_of(t).contains_key(k) implies map_of(t)[k] == map_of(p)[k] by {
        let i = choose|i: int| 0 <= i < t.len() && t[i].0 == k;
        lemma_map_of_index(t, i);
        lemma_map_of_index(p, i + 1);
    }
    assert(map_of(t) =~= map_of(p).remove(p[0].0));
}

/// The configuration handed to the sidecar: environment variable names and
/// values, held as a list sorted by name so that equal mappings are equal lists.
pub struct CirrusEnvironment {
    pub map: Vec<(String, String)>,
}

impl View for CirrusEnvironment {
    type V = Map<Seq<char>, Seq<char>>;

    open spec fn view(&self) -> Map<Seq<char>, Seq<char>> {
        map_of(self.pairs())
    }
}

impl CirrusEnvironment {
    pub open spec fn pairs(&self) -> Pairs {
        pairs_of(self.map@)
    }

    pub open spec fn wf(&self) -> bool {
        sorted(self.pairs())
    }

    /// An empty configuration.
    pub fn empty() -> (r: Self)
        ensures
            r.wf(),
            r@ == Map::<Seq<char>, Seq<char>>::empty(),
    {
        let r = CirrusEnvironment { map: Vec::new() };
        assert(r@ =~= Map::<Seq<char>, Seq<char>>::empty());
        r
    }

    /// Sets `key` to `value` and returns the value it had before, if any.
    pub fn set(&mut self, key: String, value: String) -> (r: Option<String>)
        requires
            old(self).wf(),
        ensures
            final(self).wf(),
            final(self)@ == old(self)@.insert(key@, value@),
            old(self)@.contains_key(key@) ==> r is Some && r->0@ == old(self)@[key@],
            !old(self)@.contains_key(key@) ==> r is None,
    {
        let ghost p = self.pairs();
        let ghost k = key@;
        let ghost v = value@;
        let n = self.map.len();
        let mut i: usize = 0;
        while i < n && key_less(self.map[i].0.as_str(), key.as_str())
            invariant
                n == self.map@.len(),
                p == self.pairs(),
                k == key@,
                sorted(p),
                i <= n,
                forall|j: int| 0 <= j < i ==> key_lt(#[trigger] p[j].0, k),
            decreases n - i,
        {
            i = i + 1;
        }
        proof {
            if i < n {
                assert(p[i as int].0 == self.map@[i as int].0@);
            }
        }
        if i < n && !key_less(key.as_str(), self.map[i].0.as_str()) {
            proof {
                if p[i as int].0 != k {
                    lemma_key_lt_total(p[i as int].0, k);
                }
                lemma_map_of_index(p, i as int);
                lemma_map_of_update(p, i as int, v);
            }
            let prev = self.map.remove(i);
            self.map.insert(i, (key, value));
            proof {
                assert(self.pairs() =~= p.update(i as int, (k, v)));
            }
            Some(prev.1)
        } else {
            proof {
                lemma_map_of_insert(p, i as int, k, v);
            }
            self.map.insert(i, (key, value));
            proof {
                assert(self.pairs() =~= p.insert(i as int, (k, v)));
            }
            None
        }
    }
}

impl CirrusEnvironment {
    /// Looks up the value of `key`.
    pub fn get(&self, key: &str) -> (r: Option<&String>)
        requires
            self.wf(),
        ensures
            self@.contains_key(key@) ==> r is Some && r->0@ == self@[key@],
            !self@.contains_key(key@) ==> r is None,
    {
        let n = self.map.len();
        let mut i: usize = 0;
        while i < n
            invariant
                n == self.map@.len(),
                self.wf(),
                i <= n,
                forall|j: int| 0 <= j < i ==> (#[trigger] self.pairs()[j]).0 != key@,
            decreases n - i,
        {
            let k = self.map[i].0.as_str();
            let lt = key_less(k, key);
            let gt = key_less(key, k);
            if !lt && !gt {
                proof {
                    assert(self.pairs()[i as int].0 == k@);
                    if k@ != key@ {
                        lemma_key_lt_total(k@, key@);
                    }
                    lemma_map_of_index(self.pairs(), i as int);
                }
                return Some(&self.map[i].1);
            }
            proof {
                assert(self.pairs()[i as int].0 == k@);
                lemma_key_lt_irreflexive(key@);
            }
            i = i + 1;
        }
        None
    }

    /// Seeds a configuration with the given defaults for each of the six keys.
    pub fn with_defaults(
        remote_setting_url: String,
        refresh_rate: String,
        app_id: String,
        app_name: String,
        channel: String,
        fml_path: String,
    ) -> (r: Self)
        ensures
            r.wf(),
            r@ == defaults_map(
                remote_setting_url@,
                refresh_rate@,
                app_id@,
                app_name@,
                channel@,
                fml_path@,
            ),
    {
        let mut r = Self::empty();
        r.set(String::from_str(REMOTE_SETTING_URL), remote_setting_url);
        r.set(String::from_str(REMOTE_SETTING_REFRESH_RATE_IN_SECONDS), refresh_rate);
        r.set(String::from_str(APP_ID), app_id);
        r.set(String::from_str(APP_NAME), app_name);
        r.set(String::from_str(CHANNEL), channel);
        r.set(String::from_str(CIRRUS_FML_PATH), fml_path);
        r
    }

    /// Fails when `key` is missing or empty, with a message that names the
    /// annotation to supply and the object `name`.
    pub fn check_var_not_empty(&self, key: &str, name: &str) -> (r: Result<(), Error>)
        requires
            self.wf(),
        ensures
            !value_empty(self@, key@) ==> r is Ok,
            value_empty(self@, key@) ==> (r matches Err(Error::InvalidConfigurationError(msg))
                && msg@ == empty_var_message(key@, name@)),
    {
        let empty = match self.get(key) {
            Some(v) => v.as_str().is_empty(),
            None => true,
        };
        if empty {
            let field = lowercase(replace_char(key, '_', '.').as_str());
            let mut msg = String::from_str(key);
            msg.append(EMPTY_VAR_TEXT);
            msg.append(field.as_str());
            msg.append(ANNOTATION_TEXT);
            msg.append(name);
            msg.append(".");
            return Err(Error::InvalidConfigurationError(msg));
        }
        Ok(())
    }

    /// Checks that application id, application name and channel are all set,
    /// reporting the first of them, in that order, that is empty.
    pub fn validate(&self, name: &str) -> (r: Result<(), Error>)
        requires
            self.wf(),
        ensures
            first_missing(self@) is None ==> r is Ok,
            first_missing(self@) matches Some(k) ==> (r matches Err(
                Error::InvalidConfigurationError(msg),
            ) && msg@ == empty_var_message(k, name@)),
    {
        self.check_var_not_empty(APP_ID, name)?;
        self.check_var_not_empty(APP_NAME, name)?;
        self.check_var_not_empty(CHANNEL, name)?;
        Ok(())
    }

    /// The name/value pairs, sorted by name.
    pub fn env_vars(&self) -> (r: Vec<(String, String)>)
        requires
            self.wf(),
        ensures
            pairs_of(r@) == self.pairs(),
    {
        let mut r: Vec<(String, String)> = Vec::new();
        let n = self.map.len();
        let mut i: usize = 0;
        while i < n
            invariant
                n == self.map@.len(),
                i <= n,
                r@.len() == i,
                forall|j: int| 0 <= j < i ==> (#[trigger] r@[j]).0@ == self.map@[j].0@ && r@[j].1@ == self.map@[j].1@,
            decreases n - i,
        {
            let k = self.map[i].0.clone();
            let v = self.map[i].1.clone();
            r.push((k, v));
            i = i + 1;
        }
        assert(pairs_of(r@) =~= self.pairs());
        r
    }
}

impl CirrusEnvironment {
    /// Whether both hold the same pairs in the same order.
    pub fn pairs_equal(&self, other: &Self) -> (r: bool)
        ensures
            r == (self.pairs() == other.pairs()),
    {
        let n = self.map.len();
        if n != other.map.len() {
            return false;
        }
        let mut i: usize = 0;
        while i < n
            invariant
                n == self.map@.len(),
                n == other.map@.len(),
                i <= n,
                forall|j: int| 0 <= j < i ==> #[trigger] self.pairs()[j] == other.pairs()[j],
            decreases n - i,
        {
            if !key_eq(self.map[i].0.as_str(), other.map[i].0.as_str()) || !key_eq(
                self.map[i].1.as_str(),
                other.map[i].1.as_str(),
            ) {
                assert(self.pairs()[i as int] != other.pairs()[i as int]);
                return false;
            }
            assert(self.pairs()[i as int] == other.pairs()[i as int]);
            i = i + 1;
        }
        assert(self.pairs() =~= other.pairs());
        true
    }
}

impl PartialEq for CirrusEnvironment {
    fn eq(&self, other: &CirrusEnvironment) -> (r: bool) {
        self.pairs_equal(other)
    }
}

impl vstd::std_specs::cmp::PartialEqSpecImpl for CirrusEnvironment {
    open spec fn obeys_eq_spec() -> bool {
        true
    }

    /// Same pairs in the same order; for well-formed values this is the same
    /// as equal mappings.
    open spec fn eq_spec(&self, other: &CirrusEnvironment) -> bool {
        self.pairs() == other.pairs()
    }
}

impl Default for CirrusEnvironment {
    /// The configuration with the built-in defaults; the three required
    /// values are empty.
    fn default() -> (r: Self)
        ensures
            r.wf(),
            r@ == defaults_map(
                DEFAULT_REMOTE_SETTING_URL@,
                DEFAULT_REFRESH_RATE_IN_SECONDS@,
                Seq::empty(),
                Seq::empty(),
                Seq::empty(),
                DEFAULT_FML_PATH@,
            ),
    {
        Self::with_defaults(
            String::from_str(DEFAULT_REMOTE_SETTING_URL),
            String::from_str(DEFAULT_REFRESH_RATE_IN_SECONDS),
            String::new(),
            String::new(),
            String::new(),
            String::from_str(DEFAULT_FML_PATH),
        )
    }
}

pub const EMPTY_VAR_TEXT: &'static str = " env var is empty \u{2014} add a value for the 'nimbus.mozilla.org/env.";
pub const ANNOTATION_TEXT: &'static str = "' annotation onto deployment ";

/// The configuration seeded with one value for each of the six keys.
pub open spec fn defaults_map(
    url: Seq<char>,
    rate: Seq<char>,
    app_id: Seq<char>,
    app_name: Seq<char>,
    channel: Seq<char>,
    fml: Seq<char>,
) -> Map<Seq<char>, Seq<char>> {
    Map::empty().insert(REMOTE_SETTING_URL@, url).insert(REMOTE_SETTING_REFRESH_RATE_IN_SECONDS@, rate).insert(
        APP_ID@,
        app_id,
    ).insert(APP_NAME@, app_name).insert(CHANNEL@, channel).insert(CIRRUS_FML_PATH@, fml)
}

/// A required value counts as missing when absent or empty.
pub open spec fn value_empty(m: Map<Seq<char>, Seq<char>>, key: Seq<char>) -> bool {
    !m.contains_key(key) || m[key].len() == 0
}

/// The first of the three required keys whose value is missing.
pub open spec fn first_missing(m: Map<Seq<char>, Seq<char>>) -> Option<Seq<char>> {
    if value_empty(m, APP_ID@) {
        Some(APP_ID@)
    } else if value_empty(m, APP_NAME@) {
        Some(APP_NAME@)
    } else if value_empty(m, CHANNEL@) {
        Some(CHANNEL@)
    } else {
        None
    }
}

/// The message for an empty `key` on the object `name`: it names the key and
/// the `env.` annotation, dotted and lower-cased, that sets it.
pub open spec fn empty_var_message(key: Seq<char>, name: Seq<char>) -> Seq<char> {
    key + EMPTY_VAR_TEXT@ + lower_of(swap_char(key, '_', '.')) + ANNOTATION_TEXT@ + name + "."@
}

/// Validation names exactly the missing field: when one of application id,
/// application name and channel is empty and the other two are set, that one
/// is the field reported.
pub proof fn lemma_validation_names_field(m: Map<Seq<char>, Seq<char>>, k: Seq<char>)
    requires
        k == APP_ID@ || k == APP_NAME@ || k == CHANNEL@,
        value_empty(m, k),
        k != APP_ID@ ==> !value_empty(m, APP_ID@),
        k != APP_NAME@ ==> !value_empty(m, APP_NAME@),
        k != CHANNEL@ ==> !value_empty(m, CHANNEL@),
    ensures
        first_missing(m) == Some(k),
{
}

pub proof fn lemma_map_of_update(p: Pairs, i: int, v: Seq<char>)
    requires
        sorted(p),
        0 <= i < p.len(),
    ensures
        sorted(p.update(i, (p[i].0, v))),
        map_of(p.update(i, (p[i].0, v))) == map_of(p).insert(p[i].0, v),
{
    let k = p[i].0;
    let q = p.update(i, (k, v));
    assert(sorted(q)) by {
        assert forall|a: int, b: int| 0 <= a < b < q.len() implies key_lt(#[trigger] q[a].0, #[trigger] q[b].0) by {
            assert(q[a].0 == p[a].0 && q[b].0 == p[b].0);
        }
    }
    assert forall|x: Seq<char>| #[trigger] map_of(q).contains_key(x) <==> map_of(p).insert(k, v).contains_key(x) by {
        if map_of(q).contains_key(x) {
            let j = choose|j: int| 0 <= j < q.len() && q[j].0 == x;
            assert(p[j].0 == x);
        }
        if map_of(p).contains_key(x) {
            let j = choose|j: int| 0 <= j < p.len() && p[j].0 == x;
            assert(q[j].0 == x);
        }
        assert(q[i].0 == k);
    }
    assert forall|x: Seq<char>| #[trigger] map_of(q).contains_key(x) implies map_of(q)[x] == map_of(p).insert(k, v)[x] by {
        let j = choose|j: int| 0 <= j < q.len() && q[j].0 == x;
        lemma_map_of_index(q, j);
        lemma_key_lt_irreflexive(k);
        if j < i {
            assert(q[j] == p[j] && key_lt(p[j].0, p[i].0));
            lemma_map_of_index(p, j);
        } else if j > i {
            assert(q[j] == p[j] && key_lt(p[i].0, p[j].0));
            lemma_map_of_index(p, j);
        }
    }
    assert(map_of(q) =~= map_of(p).insert(k, v));
}

pub proof fn lemma_map_of_insert(p: Pairs, i: int, k: Seq<char>, v: Seq<char>)
    requires
        sorted(p),
        0 <= i <= p.len(),
        forall|j: int| 0 <= j < i ==> key_lt(#[trigger] p[j].0, k),
        i < p.len() ==> key_lt(k, p[i].0),
    ensures
        sorted(p.insert(i, (k, v))),
        map_of(p.insert(i, (k, v))) == map_of(p).insert(k, v),
        !map_of(p).contains_key(k),
{
    let q = p.insert(i, (k, v));
    assert forall|j: int| i <= j < p.len() implies key_lt(k, #[trigger] p[j].0) by {
        if j > i {
            lemma_key_lt_transitive(k, p[i].0, p[j].0);
        }
    }
    assert(sorted(q)) by {
        assert forall|a: int, b: int| 0 <= a < b < q.len() implies key_lt(#[trigger] q[a].0, #[trigger] q[b].0) by {
            if b < i {
                assert(q[a] == p[a] && q[b] == p[b]);
            } else if b == i {
                assert(q[a] == p[a]);
            } else if a < i {
                assert(q[a] == p[a] && q[b] == p[b - 1]);
                lemma_key_lt_transitive(p[a].0, k, p[b - 1].0);
            } else if a == i {
                assert(q[b] == p[b - 1]);
            } else {
                assert(q[a] == p[a - 1] && q[b] == p[b - 1]);
            }
        }
    }
    assert(!map_of(p).contains_key(k)) by {
        if map_of(p).contains_key(k) {
            let j = choose|j: int| 0 <= j < p.len() && p[j].0 == k;
            lemma_key_lt_irreflexive(k);
        }
    }
    assert forall|x: Seq<char>| #[trigger] map_of(q).contains_key(x) <==> map_of(p).insert(k, v).contains_key(x) by {
        if map_of(q).contains_key(x) {
            let j = choose|j: int| 0 <= j < q.len() && q[j].0 == x;
            if j < i {
                assert(q[j] == p[j]);
            } else if j > i {
                assert(q[j] == p[j - 1]);
            }
        }
        if map_of(p).contains_key(x) {
            let j = choose|j: int| 0 <= j < p.len() && p[j].0 == x;
            if j < i {
                assert(q[j] == p[j]);
            } else {
                assert(q[j + 1] == p[j]);
            }
        }
        assert(q[i].0 == k);
    }
    assert forall|x: Seq<char>| #[trigger] map_of(q).contains_key(x) implies map_of(q)[x] == map_of(p).insert(k, v)[x] by {
        let j = choose|j: int| 0 <= j < q.len() && q[j].0 == x;
        lemma_map_of_index(q, j);
        lemma_key_lt_irreflexive(k);
        if j < i {
            assert(q[j] == p[j]);
            assert(key_lt(p[j].0, k));
            lemma_map_of_index(p, j);
            assert(x != k);
            assert(map_of(q)[x] == p[j].1);
            assert(map_of(p)[x] == p[j].1);
        } else if j > i {
            assert(q[j] == p[j - 1]);
            assert(key_lt(k, p[j - 1].0));
            lemma_map_of_index(p, j - 1);
            assert(x != k);
            assert(map_of(q)[x] == p[j - 1].1);
            assert(map_of(p)[x] == p[j - 1].1);
        } else {
            assert(q[i] == (k, v));
            assert(x == k);
            assert(map_of(q)[x] == v);
        }
    }
    assert(map_of(q) =~= map_of(p).insert(k, v));
}

} // verus!
