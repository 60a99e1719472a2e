//! String primitives the engine is built on: lexicographic comparison (the
//! natural order of map keys), prefix/suffix tests, splitting a path on `/`
//! and joining segments back together.
//!
//! Every executable function is specified against a direct recursive
//! definition over the string's view (`Seq<char>`).

use vstd::prelude::*;

verus! {

/// Lexicographic `<=` on character sequences, compared from position `i` on,
/// by code point. Prefixes order before their extensions.
pub open spec fn str_le_from(a: Seq<char>, b: Seq<char>, i: int) -> bool
    decreases a.len() - i,
{
    if i >= a.len() {
        true
    } else if i >= b.len() {
        false
    } else if a[i] != b[i] {
        (a[i] as int) < (b[i] as int)
    } else {
        str_le_from(a, b, i + 1)
    }
}

/// Lexicographic `<=` on character sequences, by code point.
pub open spec fn str_le(a: Seq<char>, b: Seq<char>) -> bool {
    str_le_from(a, b, 0)
}

/// The order is total.
pub proof fn lemma_str_le_total(a: Seq<char>, b: Seq<char>)
    ensures
        str_le(a, b) || str_le(b, a),
{
    lemma_str_le_from_total(a, b, 0);
}

proof fn lemma_str_le_from_total(a: Seq<char>, b: Seq<char>, i: int)
    requires
        0 <= i,
    ensures
        str_le_from(a, b, i) || str_le_from(b, a, i),
    decreases a.len() - i,
{
    if i < a.len() && i < b.len() {
        if a[i] == b[i] {
            lemma_str_le_from_total(a, b, i + 1);
        } else {
            assert((a[i] as int) != (b[i] as int));
        }
    }
}

/// The order is antisymmetric: mutual `<=` means the sequences are equal.
pub proof fn lemma_str_le_antisym(a: Seq<char>, b: Seq<char>)
    requires
        str_le(a, b),
        str_le(b, a),
    ensures
        a == b,
{
    lemma_str_le_from_antisym(a, b, 0);
    assert(a =~= b);
}

proof fn lemma_str_le_from_antisym(a: Seq<char>, b: Seq<char>, i: int)
    requires
        0 <= i,
        str_le_from(a, b, i),
        str_le_from(b, a, i),
        forall|j: int| 0 <= j < i ==> a[j] == b[j],
        i <= a.len(),
        i <= b.len(),
    ensures
        a.len() == b.len(),
        forall|j: int| 0 <= j < a.len() ==> a[j] == b[j],
    decreases a.len() - i,
{
    if i < a.len() && i < b.len() {
        if a[i] == b[i] {
            lemma_str_le_from_antisym(a, b, i + 1);
        } else {
            assert((a[i] as int) != (b[i] as int));
        }
    }
}

/// The order is transitive.
pub proof fn lemma_str_le_trans(a: Seq<char>, b: Seq<char>, c: Seq<char>)
    ensures
        str_le(a, b) && str_le(b, c) ==> str_le(a, c),
{
    lemma_str_le_from_trans(a, b, c, 0);
}

proof fn lemma_str_le_from_trans(a: Seq<char>, b: Seq<char>, c: Seq<char>, i: int)
    requires
        0 <= i,
    ensures
        str_le_from(a, b, i) && str_le_from(b, c, i) ==> str_le_from(a, c, i),
    decreases a.len() - i,
{
    if i < a.len() && i < b.len() && i < c.len() && a[i] == b[i] && b[i] == c[i] {
        lemma_str_le_from_trans(a, b, c, i + 1);
    }
}

/// Lexicographic comparison of two strings: `a <= b` by code point.
pub fn string_le(a: &str, b: &str) -> (r: bool)
    ensures
        r == str_le(a@, b@),
{
    let alen = a.unicode_len();
    let blen = b.unicode_len();
    let mut i: usize = 0;
    loop
        invariant
            i <= alen,
            i <= blen,
            alen == a@.len(),
            blen == b@.len(),
            str_le(a@, b@) == str_le_from(a@, b@, i as int),
            str_le(b@, a@) == str_le_from(b@, a@, i as int),
        decreases alen - i,
    {
        if i >= alen {
            return true;
        }
        if i >= blen {
            return false;
        }
        let ca = a.get_char(i);
        let cb = b.get_char(i);
        if ca != cb {
            return (ca as u32) < (cb as u32);
        }
        i = i + 1;
    }
}

/// Whether two strings hold the same characters.
pub fn str_eqs(a: &str, b: &str) -> (r: bool)
    ensures
        r == (a@ == b@),
{
    let oa = a.to_owned();
    let ob = b.to_owned();
    oa.eq(&ob)
}

/// `p` is a prefix of `s`.
pub open spec fn is_prefix(p: Seq<char>, s: Seq<char>) -> bool {
    p.len() <= s.len() && s.subrange(0, p.len() as int) == p
}

/// `x` is a suffix of `s`.
pub open spec fn is_suffix(x: Seq<char>, s: Seq<char>) -> bool {
    x.len() <= s.len() && s.subrange(s.len() - x.len(), s.len() as int) == x
}

/// Whether `s` starts with `p`, character by character.
pub fn starts_with(s: &str, p: &str) -> (r: bool)
    ensures
        r == is_prefix(p@, s@),
{
    let slen = s.unicode_len();
    let plen = p.unicode_len();
    if plen > slen {
        assert(!is_prefix(p@, s@));
        return false;
    }
    let mut i: usize = 0;
    while i < plen
        invariant
            i <= plen <= slen,
            slen == s@.len(),
            plen == p@.len(),
            forall|j: int| 0 <= j < i ==> s@[j] == p@[j],
        decreases plen - i,
    {
        if s.get_char(i) != p.get_char(i) {
            assert(!is_prefix(p@, s@)) by {
                assert(s@.subrange(0, p@.len() as int)[i as int] == s@[i as int]);
            }
            return false;
        }
        i = i + 1;
    }
    assert(s@.subrange(0, p@.len() as int) =~= p@);
    true
}

/// Whether `s` ends with `x`, character by character.
pub fn ends_with(s: &str, x: &str) -> (r: bool)
    ensures
        r == is_suffix(x@, s@),
{
    let slen = s.unicode_len();
    let xlen = x.unicode_len();
    if xlen > slen {
        assert(!is_suffix(x@, s@));
        return false;
    }
    let base = slen - xlen;
    let mut i: usize = 0;
    while i < xlen
        invariant
            i <= xlen <= slen,
            base == slen - xlen,
            slen == s@.len(),
            xlen == x@.len(),
            forall|j: int| 0 <= j < i ==> s@[base + j] == x@[j],
        decreases xlen - i,
    {
        if s.get_char(base + i) != x.get_char(i) {
            assert(!is_suffix(x@, s@)) by {
                assert(s@.subrange(s@.len() - x@.len(), s@.len() as int)[i as int] == s@[base
                    + i]);
            }
            return false;
        }
        i = i + 1;
    }
    assert(s@.subrange(s@.len() - x@.len(), s@.len() as int) =~= x@);
    true
}

/// The index of the first occurrence of `c` in `s`, or a negative value if
/// `c` does not occur.
pub open spec fn spec_find(s: Seq<char>, c: char) -> int
    decreases s.len(),
{
    if s.len() == 0 {
        -1
    } else if s[0] == c {
        0
    } else {
        let r = spec_find(s.skip(1), c);
        if r < 0 {
            -1
        } else {
            r + 1
        }
    }
}

/// `spec_find` returns either a negative value and no occurrence exists, or
/// the least index holding `c`.
pub proof fn lemma_spec_find(s: Seq<char>, c: char)
    ensures
        spec_find(s, c) < 0 ==> forall|i: int| 0 <= i < s.len() ==> s[i] != c,
        spec_find(s, c) >= 0 ==> spec_find(s, c) < s.len() && s[spec_find(s, c)] == c && forall|
            i: int,
        | 0 <= i < spec_find(s, c) ==> s[i] != c,
    decreases s.len(),
{
    if s.len() > 0 && s[0] != c {
        lemma_spec_find(s.skip(1), c);
        let r = spec_find(s.skip(1), c);
        if r >= 0 {
            assert forall|i: int| 0 <= i < r + 1 implies s[i] != c by {
                if i > 0 {
                    assert(s.skip(1)[i - 1] == s[i]);
                }
            }
        } else {
            assert forall|i: int| 0 <= i < s.len() implies s[i] != c by {
                if i > 0 {
                    assert(s.skip(1)[i - 1] == s[i]);
                }
            }
        }
    }
}

/// The least index holding `c` is exactly `spec_find`.
pub proof fn lemma_spec_find_unique(s: Seq<char>, c: char, k: int)
    requires
        0 <= k < s.len(),
        s[k] == c,
        forall|i: int| 0 <= i < k ==> s[i] != c,
    ensures
        spec_find(s, c) == k,
{
    lemma_spec_find(s, c);
    let r = spec_find(s, c);
    if r < 0 {
    } else if r < k {
    } else if r > k {
    }
}

/// Index of the first `c` in `s`, scanning left to right.
pub fn find_char(s: &str, c: char) -> (r: Option<usize>)
    ensures
        match r {
            Some(i) => i < s@.len() && spec_find(s@, c) == i,
            None => spec_find(s@, c) < 0,
        },
{
    let len = s.unicode_len();
    let mut i: usize = 0;
    while i < len
        invariant
            i <= len,
            len == s@.len(),
            forall|j: int| 0 <= j < i ==> s@[j] != c,
        decreases len - i,
    {
        if s.get_char(i) == c {
            proof {
                lemma_spec_find_unique(s@, c, i as int);
            }
            return Some(i);
        }
        i = i + 1;
    }
    proof {
        lemma_spec_find(s@, c);
    }
    None
}

/// The segments of `s` between occurrences of `sep`: `n` separators yield
/// `n + 1` segments, empty segments included.
pub open spec fn spec_split(s: Seq<char>, sep: char) -> Seq<Seq<char>>
    decreases s.len(),
{
    let k = spec_find(s, sep);
    if k < 0 || k >= s.len() {
        seq![s]
    } else {
        seq![s.subrange(0, k)] + spec_split(s.skip(k + 1), sep)
    }
}

/// Split `s` at every `/`.
pub fn split_slash(s: &str) -> (r: Vec<String>)
    ensures
        r@.map_values(|t: String| t@) == spec_split(s@, '/'),
    decreases s@.len(),
{
    let len = s.unicode_len();
    match find_char(s, '/') {
        None => {
            let mut r: Vec<String> = Vec::new();
            r.push(s.to_owned());
            assert(r@.map_values(|t: String| t@) =~= spec_split(s@, '/'));
            r
        },
        Some(k) => {
            let head = s.substring_char(0, k);
            let rest = s.substring_char(k + 1, len);
            let mut r: Vec<String> = Vec::new();
            r.push(head.to_owned());
            let mut tail = split_slash(rest);
            r.append(&mut tail);
            assert(r@.map_values(|t: String| t@) =~= spec_split(s@, '/'));
            r
        },
    }
}

/// The segments joined with `sep` between each pair.
pub open spec fn spec_join(segs: Seq<Seq<char>>, sep: char) -> Seq<char>
    decreases segs.len(),
{
    if segs.len() == 0 {
        Seq::empty()
    } else if segs.len() == 1 {
        segs[0]
    } else {
        segs[0] + seq![sep] + spec_join(segs.skip(1), sep)
    }
}

/// Appending one more segment extends the join on the right.
pub proof fn lemma_spec_join_push(segs: Seq<Seq<char>>, sep: char, x: Seq<char>)
    ensures
        segs.len() == 0 ==> spec_join(segs.push(x), sep) =~= x,
        segs.len() > 0 ==> spec_join(segs.push(x), sep) =~= spec_join(segs, sep) + seq![sep] + x,
    decreases segs.len(),
{
    if segs.len() == 0 {
        assert(segs.push(x) =~= seq![x]);
    } else if segs.len() == 1 {
        assert(segs.push(x).skip(1) =~= seq![x]);
        assert(spec_join(segs.push(x).skip(1), sep) == x);
        assert(segs.push(x)[0] == segs[0]);
        assert(spec_join(segs.push(x), sep) == segs.push(x)[0] + seq![sep] + spec_join(
            segs.push(x).skip(1),
            sep,
        ));
        assert(spec_join(segs.push(x), sep) =~= segs[0] + seq![sep] + x);
        assert(spec_join(segs, sep) == segs[0]);
    } else {
        lemma_spec_join_push(segs.skip(1), sep, x);
        assert(segs.push(x).skip(1) =~= segs.skip(1).push(x));
        assert(spec_join(segs.push(x), sep) == segs.push(x)[0] + seq![sep] + spec_join(
            segs.push(x).skip(1),
            sep,
        ));
        assert(spec_join(segs.skip(1).push(x), sep) =~= spec_join(segs.skip(1), sep) + seq![sep]
            + x);
        assert(spec_join(segs.push(x), sep) =~= spec_join(segs, sep) + seq![sep] + x);
    }
}

/// Join the segments with `/` between each pair.
pub fn join_slash(segs: &Vec<String>) -> (r: String)
    ensures
        r@ == spec_join(segs@.map_values(|t: String| t@), '/'),
{
    let mut r = String::new();
    let mut i: usize = 0;
    while i < segs.len()
        invariant
            i <= segs@.len(),
            r@ == spec_join(segs@.map_values(|t: String| t@).take(i as int), '/'),
        decreases segs@.len() - i,
    {
        if i > 0 {
            r.append("/");
        }
        r.append(segs[i].as_str());
        proof {
            reveal_strlit("/");
            assert("/"@ =~= seq!['/']);
            let m = segs@.map_values(|t: String| t@);
            lemma_spec_join_push(m.take(i as int), '/', m[i as int]);
            assert(m.take(i + 1) =~= m.take(i as int).push(m[i as int]));
            if i == 0 {
                assert(r@ =~= spec_join(m.take(i + 1), '/'));
            } else {
                assert(r@ =~= spec_join(m.take(i as int), '/') + seq!['/'] + m[i as int]);
                assert(r@ =~= spec_join(m.take(i + 1), '/'));
            }
        }
        i = i + 1;
    }
    proof {
        assert(segs@.map_values(|t: String| t@).take(segs@.len() as int) =~= segs@.map_values(
            |t: String| t@,
        ));
    }
    r
}

} // verus!
