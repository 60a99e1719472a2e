//! Best-effort symbol demangling with a per-run cache.
//!
//! A backend event's detail arrives wrapped in parentheses around the raw
//! mangled name. The wrapper is stripped first; the stripped name is the
//! cache key, so each distinct symbol is decoded at most once per run.
//! Decoding never fails the run: a name that cannot be decoded is used as it
//! is.

use vstd::prelude::*;
use crate::arith::saturating_add_usize;
use crate::linmap::LinMap;

verus! {

/// What the demangler returns for a mangled name: a function of the name
/// alone. A name that does not decode maps to itself.
pub uninterp spec fn demangled_of(s: Seq<char>) -> Seq<char>;

/// Relies on `cpp_demangle::Symbol::new` and `Symbol::demangle`: decoding is
/// a pure function of the mangled name; on any parse or print failure the
/// name is returned unchanged.
#[verifier::external_body]
fn demangle_raw(mangled: &str) -> (r: String)
    ensures
        r@ == demangled_of(mangled@),
{
    cpp_demangle::Symbol::new(mangled)
        .ok()
        .and_then(|sym| sym.demangle().ok())
        .unwrap_or_else(|| mangled.to_string())
}

/// How many characters of `(` the string starts with.
pub open spec fn leading_parens(s: Seq<char>) -> int
    decreases s.len(),
{
    if s.len() == 0 || s[0] != '(' {
        0
    } else {
        1 + leading_parens(s.skip(1))
    }
}

/// How many characters of `)` the string ends with.
pub open spec fn trailing_parens(s: Seq<char>) -> int
    decreases s.len(),
{
    if s.len() == 0 || s.last() != ')' {
        0
    } else {
        1 + trailing_parens(s.drop_last())
    }
}

/// The string with every leading `(` removed, then every trailing `)` of
/// what remains removed.
pub open spec fn strip_parens_spec(s: Seq<char>) -> Seq<char> {
    let t = s.skip(leading_parens(s));
    t.take(t.len() - trailing_parens(t))
}

proof fn lemma_leading_parens_at(s: Seq<char>, a: int)
    requires
        0 <= a <= s.len(),
        forall|i: int| 0 <= i < a ==> s[i] == '(',
        a < s.len() ==> s[a] != '(',
    ensures
        leading_parens(s) == a,
    decreases s.len(),
{
    if a == 0 {
    } else {
        assert(s[0] == '(');
        let t = s.skip(1);
        assert(forall|i: int| 0 <= i < a - 1 ==> t[i] == s[i + 1]);
        assert(a - 1 < t.len() ==> t[a - 1] == s[a]);
        lemma_leading_parens_at(t, a - 1);
    }
}

proof fn lemma_trailing_parens_at(s: Seq<char>, b: int)
    requires
        0 <= b <= s.len(),
        forall|i: int| b <= i < s.len() ==> s[i] == ')',
        b > 0 ==> s[b - 1] != ')',
    ensures
        trailing_parens(s) == s.len() - b,
    decreases s.len(),
{
    if b == s.len() {
    } else {
        assert(s.last() == s[s.len() - 1]);
        assert(s.last() == ')');
        let t = s.drop_last();
        assert(forall|i: int| 0 <= i < t.len() ==> t[i] == s[i]);
        lemma_trailing_parens_at(t, b);
    }
}

/// Strip the parenthesis wrapper from a raw backend identifier.
pub fn strip_parens(s: &str) -> (r: String)
    ensures
        r@ == strip_parens_spec(s@),
{
    let len = s.unicode_len();
    let mut a: usize = 0;
    while a < len && s.get_char(a) == '('
        invariant
            a <= len,
            len == s@.len(),
            forall|i: int| 0 <= i < a ==> s@[i] == '(',
        decreases len - a,
    {
        a = a + 1;
    }
    let mut b: usize = len;
    while b > a && s.get_char(b - 1) == ')'
        invariant
            a <= b <= len,
            len == s@.len(),
            forall|i: int| b <= i < len ==> s@[i] == ')',
        decreases b,
    {
        b = b - 1;
    }
    let r = s.substring_char(a, b);
    proof {
        lemma_leading_parens_at(s@, a as int);
        let t = s@.skip(a as int);
        assert(forall|i: int| 0 <= i < t.len() ==> t[i] == s@[a + i]);
        lemma_trailing_parens_at(t, b - a);
        assert(r@ =~= strip_parens_spec(s@));
    }
    r.to_owned()
}

/// The per-run demangle cache: a table from stripped mangled names to their
/// decoded form, and the number of decode calls made so far.
pub struct DemangleCache {
    pub entries: LinMap<String, String>,
    pub decode_count: usize,
}

impl DemangleCache {
    /// Every cached entry holds exactly what decoding its key yields.
    pub open spec fn wf(&self) -> bool {
        &&& self.entries.wf()
        &&& forall|k: Seq<char>| #[trigger]
            self.entries@.contains_key(k) ==> self.entries@[k]@ == demangled_of(k)
    }

    pub fn new() -> (r: Self)
        ensures
            r.wf(),
            r.entries@ == Map::<Seq<char>, String>::empty(),
            r.decode_count == 0,
    {
        DemangleCache { entries: LinMap::new(), decode_count: 0 }
    }

    /// Decode a mangled name, consulting the cache first. A name already in
    /// the cache costs no decode call and leaves the cache as it was.
    pub fn demangle(&mut self, mangled: &str) -> (r: String)
        requires
            old(self).wf(),
        ensures
            final(self).wf(),
            r@ == demangled_of(mangled@),
            final(self).entries@.dom() == old(self).entries@.dom().insert(mangled@),
            old(self).entries@.contains_key(mangled@) ==> *final(self) == *old(self),
            !old(self).entries@.contains_key(mangled@) ==> final(self).entries@ == old(
                self,
            ).entries@.insert(mangled@, r) && final(self).decode_count == crate::arith::spec_sat_add_usize(
                old(self).decode_count,
                1,
            ),
    {
        let key = mangled.to_owned();
        let hit = match self.entries.get(&key) {
            Some(v) => Some(v.clone()),
            None => None,
        };
        match hit {
            Some(v) => {
                proof {
                    assert(old(self).entries@.dom().insert(mangled@)
                        =~= old(self).entries@.dom());
                }
                v
            },
            None => {
                let decoded = demangle_raw(mangled);
                self.decode_count = saturating_add_usize(self.decode_count, 1);
                self.entries.set(key, decoded.clone());
                decoded
            },
        }
    }
}

} // verus!
