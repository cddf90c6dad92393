use vstd::prelude::*;

verus! {

/// What `str::to_uppercase` gives for a character sequence.
pub uninterp spec fn upper_of(s: Seq<char>) -> Seq<char>;

/// What `str::to_lowercase` gives for a character sequence.
pub uninterp spec fn lower_of(s: Seq<char>) -> Seq<char>;

/// Every occurrence of `from` in `s` written as `to`.
pub open spec fn swap_char(s: Seq<char>, from: char, to: char) -> Seq<char> {
    s.map_values(|c: char| if c == from { to } else { c })
}

/// Relies on `str::to_uppercase`: the result depends on the characters alone,
/// and an empty string stays empty.
#[verifier::external_body]
pub(crate) fn uppercase(s: &str) -> (r: String)
    ensures
        r@ == upper_of(s@),
        s@.len() == 0 ==> r@.len() == 0,
{
    s.to_uppercase()
}

/// Relies on `str::to_lowercase`: the result depends on the characters alone,
/// and an empty string stays empty.
#[verifier::external_body]
pub(crate) fn lowercase(s: &str) -> (r: String)
    ensures
        r@ == lower_of(s@),
        s@.len() == 0 ==> r@.len() == 0,
{
    s.to_lowercase()
}

/// Relies on `str::replace` with a `char` pattern: every match of `from` is
/// replaced by the one-character string `to`, other characters are kept.
#[verifier::external_body]
pub(crate) fn replace_char(s: &str, from: char, to: char) -> (r: String)
    ensures
        r@ == swap_char(s@, from, to),
{
    s.replace(from, &to.to_string())
}

/// Whether `s` begins with `p`.
pub open spec fn has_prefix(s: Seq<char>, p: Seq<char>) -> bool {
    p.len() <= s.len() && s.subrange(0, p.len() as int) == p
}

/// Strips `prefix` from the front of `s`, when `s` begins with it.
pub fn strip_prefix(s: &str, prefix: &str) -> (r: Option<String>)
    ensures
        has_prefix(s@, prefix@) ==> r is Some && r->0@ == s@.skip(prefix@.len() as int),
        !has_prefix(s@, prefix@) ==> r is None,
{
    let ls = s.unicode_len();
    let lp = prefix.unicode_len();
    if lp > ls {
        return None;
    }
    let mut i: usize = 0;
    while i < lp
        invariant
            ls == s@.len(),
            lp == prefix@.len(),
            lp <= ls,
            i <= lp,
            forall|j: int| 0 <= j < i ==> s@[j] == prefix@[j],
        decreases lp - i,
    {
        if s.get_char(i) != prefix.get_char(i) {
            return None;
        }
        i = i + 1;
    }
    assert(s@.subrange(0, lp as int) =~= prefix@);
    Some(String::from_str(s.substring_char(lp, ls)))
}

} // verus!
