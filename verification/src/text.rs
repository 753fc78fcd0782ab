//! Character-level text helpers shared by the parser, the attribution rules
//! and the loop detector.

use vstd::prelude::*;
use vstd::string::StrSliceExecFns;
use vstd::string::StringExecFns;

verus! {

/// Copy a string slice into an owned string.
pub fn copy_str(s: &str) -> (r: String)
    ensures
        r@ == s@,
{
    String::from_str(s)
}

/// Collect the characters of a string slice into a vector.
pub fn str_to_chars(s: &str) -> (v: Vec<char>)
    ensures
        v@ == s@,
{
    let n: usize = s.unicode_len();
    let mut v: Vec<char> = Vec::new();
    let mut i: usize = 0;
    while i < n
        invariant
            i <= n,
            n == s@.len(),
            v@ == s@.subrange(0, i as int),
        decreases n - i,
    {
        v.push(s.get_char(i));
        i = i + 1;
        assert(v@ =~= s@.subrange(0, i as int));
    }
    assert(v@ =~= s@);
    v
}

/// Relies on std's `String::push`: appends exactly one character.
#[verifier::external_body]
pub fn push_char(s: &mut String, c: char)
    ensures
        final(s)@ == old(s)@.push(c),
{
    s.push(c);
}

/// Build a string out of a character vector.
pub fn chars_to_string(v: &Vec<char>) -> (s: String)
    ensures
        s@ == v@,
{
    let mut s = String::new();
    let mut i: usize = 0;
    while i < v.len()
        invariant
            i <= v@.len(),
            s@ == v@.subrange(0, i as int),
        decreases v@.len() - i,
    {
        push_char(&mut s, v[i]);
        i = i + 1;
        assert(s@ =~= v@.subrange(0, i as int));
    }
    assert(s@ =~= v@);
    s
}

/// The characters with the Unicode `White_Space` property, the set that
/// drives whitespace collapsing in output normalization.
pub open spec fn is_ws_char(c: char) -> bool {
    let u = c as u32;
    (9 <= u && u <= 13) || u == 32 || u == 0x85 || u == 0xA0 || u == 0x1680 || (0x2000 <= u && u
        <= 0x200A) || u == 0x2028 || u == 0x2029 || u == 0x202F || u == 0x205F || u == 0x3000
}

/// Runtime test for `is_ws_char`.
pub fn is_whitespace_char(c: char) -> (r: bool)
    ensures
        r == is_ws_char(c),
{
    let u = c as u32;
    (9 <= u && u <= 13) || u == 32 || u == 0x85 || u == 0xA0 || u == 0x1680 || (0x2000 <= u && u
        <= 0x200A) || u == 0x2028 || u == 0x2029 || u == 0x202F || u == 0x205F || u == 0x3000
}

/// The first `max` characters of `s`, or all of it where it is shorter.
pub open spec fn spec_take_chars(s: Seq<char>, max: int) -> Seq<char> {
    if s.len() <= max {
        s
    } else {
        s.take(max)
    }
}

/// Runtime counterpart of `spec_take_chars`.
pub fn take_chars(s: &str, max: usize) -> (r: String)
    ensures
        r@ == spec_take_chars(s@, max as int),
{
    let n = s.unicode_len();
    if n <= max {
        copy_str(s)
    } else {
        let mut v = str_to_chars(s);
        v.truncate(max);
        assert(v@ =~= s@.take(max as int));
        chars_to_string(&v)
    }
}

/// The views of a vector of strings.
pub open spec fn string_views(v: Seq<String>) -> Seq<Seq<char>> {
    Seq::new(v.len(), |i: int| v[i]@)
}

/// The first component of `parts` with `head` prepended.
pub open spec fn prepend_first(head: Seq<char>, parts: Seq<Seq<char>>) -> Seq<Seq<char>>
    recommends
        parts.len() > 0,
{
    parts.update(0, head + parts[0])
}

/// `s` split on `sep`: the separators drop out, and `n` separators yield
/// `n + 1` pieces, so the empty string yields one empty piece.
pub open spec fn spec_split(s: Seq<char>, sep: char) -> Seq<Seq<char>>
    decreases s.len(),
{
    if s.len() == 0 {
        seq![Seq::<char>::empty()]
    } else if s.first() == sep {
        seq![Seq::<char>::empty()] + spec_split(s.drop_first(), sep)
    } else {
        prepend_first(seq![s.first()], spec_split(s.drop_first(), sep))
    }
}

pub proof fn lemma_split_len(s: Seq<char>, sep: char)
    ensures
        spec_split(s, sep).len() >= 1,
    decreases s.len(),
{
    if s.len() > 0 {
        lemma_split_len(s.drop_first(), sep);
    }
}

/// Runtime counterpart of `spec_split`.
pub fn split_char(s: &str, sep: char) -> (r: Vec<String>)
    ensures
        string_views(r@) == spec_split(s@, sep),
{
    let v = str_to_chars(s);
    let n = v.len();
    let mut parts: Vec<String> = Vec::new();
    let mut cur: String = String::new();
    let mut i: usize = 0;
    proof {
        lemma_split_len(s@, sep);
        assert(s@.skip(0) =~= s@);
        assert(prepend_first(cur@, spec_split(s@.skip(0), sep)) =~~= spec_split(s@, sep));
    }
    while i < n
        invariant
            i <= n,
            n == v@.len(),
            v@ == s@,
            spec_split(s@.skip(i as int), sep).len() >= 1,
            spec_split(s@, sep) =~~= string_views(parts@) + prepend_first(
                cur@,
                spec_split(s@.skip(i as int), sep),
            ),
        decreases n - i,
    {
        let c = v[i];
        proof {
            lemma_split_len(s@.skip(i as int + 1), sep);
            assert(s@.skip(i as int).first() == s@[i as int]);
            assert(s@.skip(i as int).drop_first() =~= s@.skip(i as int + 1));
        }
        if c == sep {
            let ghost old_parts = parts@;
            let ghost old_cur = cur@;
            parts.push(cur);
            cur = String::new();
            proof {
                assert(spec_split(s@.skip(i as int), sep) =~~= seq![Seq::<char>::empty()]
                    + spec_split(s@.skip(i as int + 1), sep));
                assert(prepend_first(
                    old_cur,
                    seq![Seq::<char>::empty()] + spec_split(s@.skip(i as int + 1), sep),
                ) =~~= seq![old_cur] + spec_split(s@.skip(i as int + 1), sep));
                assert(string_views(parts@) =~~= string_views(old_parts) + seq![old_cur]);
                assert(string_views(parts@) + prepend_first(
                    cur@,
                    spec_split(s@.skip(i as int + 1), sep),
                ) =~~= string_views(old_parts) + (seq![old_cur] + spec_split(
                    s@.skip(i as int + 1),
                    sep,
                )));
            }
        } else {
            let ghost old_cur = cur@;
            push_char(&mut cur, c);
            proof {
                let rest = spec_split(s@.skip(i as int + 1), sep);
                assert(spec_split(s@.skip(i as int), sep) =~~= prepend_first(seq![c], rest));
                assert(prepend_first(old_cur, prepend_first(seq![c], rest)) =~~= prepend_first(
                    old_cur + seq![c],
                    rest,
                ));
                assert(cur@ =~= old_cur + seq![c]);
            }
        }
        i = i + 1;
    }
    proof {
        assert(s@.skip(n as int) =~= Seq::<char>::empty());
        assert(prepend_first(cur@, spec_split(Seq::<char>::empty(), sep)) =~~= seq![cur@]);
    }
    let ghost final_cur = cur@;
    let ghost final_parts = parts@;
    parts.push(cur);
    proof {
        assert(string_views(parts@) =~~= string_views(final_parts) + seq![final_cur]);
        assert(string_views(parts@) =~~= spec_split(s@, sep));
    }
    parts
}

/// Character-for-character equality of two string slices.
pub fn str_eq(a: &str, b: &str) -> (r: bool)
    ensures
        r == (a@ == b@),
{
    let av = str_to_chars(a);
    let bv = str_to_chars(b);
    if av.len() != bv.len() {
        return false;
    }
    let n = av.len();
    let mut i: usize = 0;
    while i < n
        invariant
            i <= n,
            n == av@.len(),
            av@ == a@,
            bv@ == b@,
            a@.len() == b@.len(),
            forall|k: int| 0 <= k < i ==> a@[k] == b@[k],
        decreases n - i,
    {
        if av[i] != bv[i] {
            return false;
        }
        i = i + 1;
    }
    assert(a@ =~= b@);
    true
}

/// `needle` occurs contiguously somewhere in `hay`.
pub open spec fn spec_contains(hay: Seq<char>, needle: Seq<char>) -> bool {
    exists|i: int|
        0 <= i && i + needle.len() <= hay.len() && #[trigger] hay.subrange(
            i,
            i + needle.len() as int,
        ) == needle
}

/// The characters of `nv` occur in `hv` starting at position `at`.
fn match_at(hv: &Vec<char>, nv: &Vec<char>, at: usize) -> (r: bool)
    requires
        at + nv@.len() <= hv@.len(),
    ensures
        r == (hv@.subrange(at as int, at + nv@.len() as int) == nv@),
{
    let m = nv.len();
    let hlen = hv.len();
    let mut j: usize = 0;
    while j < m
        invariant
            j <= m,
            m == nv@.len(),
            hlen == hv@.len(),
            at + m <= hlen,
            forall|t: int| 0 <= t < j ==> hv@[at + t] == nv@[t],
        decreases m - j,
    {
        if hv[at + j] != nv[j] {
            assert(hv@.subrange(at as int, at + nv@.len() as int)[j as int] != nv@[j as int]);
            return false;
        }
        j = j + 1;
    }
    assert(hv@.subrange(at as int, at + nv@.len() as int) =~= nv@);
    true
}

/// Case-sensitive substring test, the containment rule used by the pricing
/// table and by agent attribution.
pub fn contains_sub(hay: &str, needle: &str) -> (r: bool)
    ensures
        r == spec_contains(hay@, needle@),
{
    let hv = str_to_chars(hay);
    let nv = str_to_chars(needle);
    contains_chars(&hv, &nv)
}

/// `contains_sub` on already collected character vectors.
pub fn contains_chars(hv: &Vec<char>, nv: &Vec<char>) -> (r: bool)
    ensures
        r == spec_contains(hv@, nv@),
{
    if nv.len() > hv.len() {
        return false;
    }
    let bound = hv.len() - nv.len();
    let mut i: usize = 0;
    loop
        invariant
            i <= bound,
            bound == hv@.len() - nv@.len(),
            nv@.len() <= hv@.len(),
            forall|k: int|
                0 <= k < i ==> #[trigger] hv@.subrange(k, k + nv@.len() as int) != nv@,
        decreases bound - i,
    {
        if match_at(hv, nv, i) {
            return true;
        }
        if i == bound {
            assert(forall|k: int|
                0 <= k && k + nv@.len() <= hv@.len() ==> #[trigger] hv@.subrange(
                    k,
                    k + nv@.len() as int,
                ) != nv@);
            return false;
        }
        i = i + 1;
    }
}

} // verus!
