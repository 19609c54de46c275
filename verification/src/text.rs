//! Verified helpers over byte strings.
//!
//! Page titles, embedded metadata, file paths and diagnostic messages all
//! flow through the core as UTF-8 byte vectors, so the basic string
//! operations (comparison, prefix test, trimming, decimal formatting,
//! joining) are implemented and specified here over `Seq<u8>`.

use vstd::prelude::*;

verus! {

/// Path-unsafe byte substitution: '/' (47) becomes '|' (124).
pub open spec fn sanitize_byte(b: u8) -> u8 {
    if b == 47 {
        124
    } else {
        b
    }
}

/// A title with every path separator replaced.
pub open spec fn sanitize_seq(s: Seq<u8>) -> Seq<u8> {
    s.map_values(|b: u8| sanitize_byte(b))
}

pub fn sanitize_title(v: &[u8]) -> (r: Vec<u8>)
    ensures
        r@ == sanitize_seq(v@),
{
    let n: usize = v.len();
    let mut out: Vec<u8> = Vec::new();
    for i in 0..n
        invariant
            n == v@.len(),
            out@ == sanitize_seq(v@.take(i as int)),
    {
        let b: u8 = v[i];
        if b == 47 {
            out.push(124);
        } else {
            out.push(b);
        }
        proof {
            assert(v@.take(i + 1) =~= v@.take(i as int).push(v@[i as int]));
            assert(sanitize_seq(v@.take(i + 1)) =~= sanitize_seq(v@.take(i as int)).push(
                sanitize_byte(v@[i as int]),
            ));
        }
    }
    proof {
        assert(v@.take(n as int) =~= v@);
    }
    out
}

pub fn bytes_eq(a: &[u8], b: &[u8]) -> (r: bool)
    ensures
        r == (a@ == b@),
{
    if a.len() != b.len() {
        return false;
    }
    let n: usize = a.len();
    for i in 0..n
        invariant
            n == a@.len() && n == b@.len(),
            forall|j: int| 0 <= j < i ==> a@[j] == b@[j],
    {
        if a[i] != b[i] {
            return false;
        }
    }
    proof {
        assert(a@ =~= b@);
    }
    true
}

pub fn starts_with(v: &[u8], p: &[u8]) -> (r: bool)
    ensures
        r == p@.is_prefix_of(v@),
{
    if p.len() > v.len() {
        return false;
    }
    let n: usize = p.len();
    for i in 0..n
        invariant
            n == p@.len(),
            n <= v@.len(),
            forall|j: int| 0 <= j < i ==> v@[j] == p@[j],
    {
        if v[i] != p[i] {
            return false;
        }
    }
    proof {
        assert(p@ =~= v@.subrange(0, p@.len() as int));
    }
    true
}

/// ASCII whitespace, as trimmed from script text: tab through carriage
/// return, and space.
pub open spec fn is_ascii_space(b: u8) -> bool {
    b == 32 || (9 <= b && b <= 13)
}

pub open spec fn trim_start(s: Seq<u8>) -> Seq<u8>
    decreases s.len(),
{
    if s.len() > 0 && is_ascii_space(s[0]) {
        trim_start(s.drop_first())
    } else {
        s
    }
}

pub open spec fn trim_end(s: Seq<u8>) -> Seq<u8>
    decreases s.len(),
{
    if s.len() > 0 && is_ascii_space(s[s.len() - 1]) {
        trim_end(s.drop_last())
    } else {
        s
    }
}

/// Leading and trailing ASCII whitespace removed.
pub open spec fn trimmed(s: Seq<u8>) -> Seq<u8> {
    trim_end(trim_start(s))
}

proof fn lemma_trim_start_at(s: Seq<u8>, k: int)
    requires
        0 <= k <= s.len(),
        forall|j: int| 0 <= j < k ==> is_ascii_space(s[j]),
        k < s.len() ==> !is_ascii_space(s[k]),
    ensures
        trim_start(s) == s.subrange(k, s.len() as int),
    decreases k,
{
    if k == 0 {
        assert(s.subrange(0, s.len() as int) =~= s);
    } else {
        assert(is_ascii_space(s[0]));
        lemma_trim_start_at(s.drop_first(), k - 1);
        assert(s.drop_first().subrange(k - 1, s.drop_first().len() as int) =~= s.subrange(
            k,
            s.len() as int,
        ));
    }
}

proof fn lemma_trim_end_at(s: Seq<u8>, k: int)
    requires
        0 <= k <= s.len(),
        forall|j: int| k <= j < s.len() ==> is_ascii_space(s[j]),
        k > 0 ==> !is_ascii_space(s[k - 1]),
    ensures
        trim_end(s) == s.subrange(0, k),
    decreases s.len() - k,
{
    if k == s.len() {
        assert(s.subrange(0, s.len() as int) =~= s);
    } else {
        assert(is_ascii_space(s[s.len() - 1]));
        lemma_trim_end_at(s.drop_last(), k);
        assert(s.drop_last().subrange(0, k) =~= s.subrange(0, k));
    }
}

fn is_space_byte(b: u8) -> (r: bool)
    ensures
        r == is_ascii_space(b),
{
    b == 32 || (9 <= b && b <= 13)
}

pub fn trim_ascii(v: &[u8]) -> (r: Vec<u8>)
    ensures
        r@ == trimmed(v@),
{
    let n: usize = v.len();
    let mut lo: usize = 0;
    while lo < n && is_space_byte(v[lo])
        invariant
            n == v@.len(),
            lo <= n,
            forall|j: int| 0 <= j < lo ==> is_ascii_space(v@[j]),
        decreases n - lo,
    {
        lo = lo + 1;
    }
    let mut hi: usize = n;
    while hi > lo && is_space_byte(v[hi - 1])
        invariant
            n == v@.len(),
            lo <= hi <= n,
            forall|j: int| 0 <= j < lo ==> is_ascii_space(v@[j]),
            forall|j: int| hi <= j < n ==> is_ascii_space(v@[j]),
        decreases hi,
    {
        hi = hi - 1;
    }
    proof {
        lemma_trim_start_at(v@, lo as int);
        let t = v@.subrange(lo as int, n as int);
        lemma_trim_end_at(t, hi - lo);
        assert(t.subrange(0, hi - lo) =~= v@.subrange(lo as int, hi as int));
    }
    let s: &[u8] = vstd::slice::slice_subrange(v, lo, hi);
    vstd::slice::slice_to_vec(s)
}

/// Decimal digits of `n`, most significant first.
pub open spec fn dec_of(n: nat) -> Seq<u8>
    decreases n,
{
    if n < 10 {
        seq![(48 + n) as u8]
    } else {
        dec_of(n / 10).push((48 + n % 10) as u8)
    }
}

pub fn push_dec_u64(out: &mut Vec<u8>, n: u64)
    ensures
        final(out)@ == old(out)@ + dec_of(n as nat),
    decreases n,
{
    if n >= 10 {
        push_dec_u64(out, n / 10);
    }
    let d: u8 = (n % 10) as u8 + 48;
    out.push(d);
    proof {
        if n < 10 {
            assert(old(out)@ + dec_of(n as nat) =~= old(out)@.push(d));
        } else {
            assert(old(out)@ + dec_of(n as nat) =~= (old(out)@ + dec_of((n / 10) as nat)).push(d));
        }
    }
}

/// Decimal rendering of a signed value: a '-' (45) sign, then the digits of
/// the magnitude.
pub open spec fn dec_of_i64(n: int) -> Seq<u8> {
    if n < 0 {
        seq![45u8] + dec_of((-n) as nat)
    } else {
        dec_of(n as nat)
    }
}

pub fn push_dec_i64(out: &mut Vec<u8>, n: i64)
    ensures
        final(out)@ == old(out)@ + dec_of_i64(n as int),
{
    if n >= 0 {
        push_dec_u64(out, n as u64);
    } else {
        out.push(45);
        let m: u64 = if n == i64::MIN {
            9223372036854775808u64
        } else {
            (-n) as u64
        };
        push_dec_u64(out, m);
        proof {
            assert(old(out)@ + dec_of_i64(n as int) =~= old(out)@.push(45u8) + dec_of(
                m as nat,
            ));
        }
    }
}

pub fn u64_to_dec(n: u64) -> (r: Vec<u8>)
    ensures
        r@ == dec_of(n as nat),
{
    let mut out: Vec<u8> = Vec::new();
    push_dec_u64(&mut out, n);
    proof {
        assert(Seq::<u8>::empty() + dec_of(n as nat) =~= dec_of(n as nat));
    }
    out
}

/// Relies on `String::from_utf8`: it succeeds exactly on valid UTF-8 input
/// and returns the decoded characters of that input.
#[verifier::external_body]
pub fn string_from_bytes(v: Vec<u8>) -> (r: Option<String>)
    ensures
        r is Some <==> vstd::utf8::valid_utf8(v@),
        r is Some ==> r.unwrap()@ == vstd::utf8::decode_utf8(v@),
{
    String::from_utf8(v).ok()
}

/// `items` joined left to right with `sep` between neighbours.
pub open spec fn join_with(items: Seq<Seq<u8>>, sep: Seq<u8>) -> Seq<u8>
    decreases items.len(),
{
    if items.len() == 0 {
        Seq::empty()
    } else {
        items[0] + tail_join(items.drop_first(), sep)
    }
}

pub open spec fn tail_join(items: Seq<Seq<u8>>, sep: Seq<u8>) -> Seq<u8>
    decreases items.len(),
{
    if items.len() == 0 {
        Seq::empty()
    } else {
        sep + items[0] + tail_join(items.drop_first(), sep)
    }
}

proof fn lemma_tail_join_push(items: Seq<Seq<u8>>, sep: Seq<u8>, x: Seq<u8>)
    ensures
        tail_join(items.push(x), sep) == tail_join(items, sep) + sep + x,
    decreases items.len(),
{
    if items.len() == 0 {
        assert(items.push(x).drop_first() =~= Seq::<Seq<u8>>::empty());
        assert(items.push(x)[0] == x);
        assert(tail_join(items.push(x), sep) == sep + x + tail_join(
            Seq::<Seq<u8>>::empty(),
            sep,
        ));
        assert(sep + x + tail_join(Seq::<Seq<u8>>::empty(), sep) =~= tail_join(items, sep) + sep
            + x);
    } else {
        lemma_tail_join_push(items.drop_first(), sep, x);
        assert(items.push(x).drop_first() =~= items.drop_first().push(x));
        assert(items.push(x)[0] == items[0]);
        assert(tail_join(items.push(x), sep) == sep + items[0] + tail_join(
            items.drop_first().push(x),
            sep,
        ));
        assert(sep + items[0] + (tail_join(items.drop_first(), sep) + sep + x) =~= (sep + items[0]
            + tail_join(items.drop_first(), sep)) + sep + x);
    }
}

pub fn join_bytes(items: &Vec<Vec<u8>>, sep: &[u8]) -> (r: Vec<u8>)
    ensures
        r@ == join_with(items@.map_values(|v: Vec<u8>| v@), sep@),
{
    let ghost model = items@.map_values(|v: Vec<u8>| v@);
    let mut out: Vec<u8> = Vec::new();
    if items.len() == 0 {
        return out;
    }
    out.extend_from_slice(items[0].as_slice());
    let n: usize = items.len();
    for i in 1..n
        invariant
            n == items@.len(),
            model == items@.map_values(|v: Vec<u8>| v@),
            out@ == model[0] + tail_join(model.take(i as int).drop_first(), sep@),
    {
        out.extend_from_slice(sep);
        out.extend_from_slice(items[i].as_slice());
        proof {
            lemma_tail_join_push(model.take(i as int).drop_first(), sep@, model[i as int]);
            assert(model.take(i + 1).drop_first() =~= model.take(i as int).drop_first().push(
                model[i as int],
            ));
            assert(out@ =~= model[0] + tail_join(model.take(i + 1).drop_first(), sep@));
        }
    }
    proof {
        assert(model.take(n as int) =~= model);
        assert(model.take(1int).drop_first() =~= Seq::<Seq<u8>>::empty());
    }
    out
}

} // verus!
