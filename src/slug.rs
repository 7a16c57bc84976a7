//! Opaque model slugs: a short, stable identifier for a
//! `(tenant, endpoint, model)` triple, derived from a SHA-256 digest.

use vstd::prelude::*;
use vstd::string::*;
use crate::text::push_char;

verus! {

/// The SHA-256 digest of a byte string.
pub uninterp spec fn sha256_of(b: Seq<u8>) -> Seq<u8>;

/// Relies on sha2::Sha256::digest: the SHA-256 digest of `bytes`, which is
/// 32 bytes long.
#[verifier::external_body]
fn sha256(bytes: &[u8]) -> (r: Vec<u8>)
    ensures
        r@ == sha256_of(bytes@),
        r@.len() == 32,
{
    <sha2::Sha256 as sha2::Digest>::digest(bytes).to_vec()
}

/// The bytes hashed for a slug: the three parts separated by newlines.
pub open spec fn slug_input(tenant: Seq<u8>, endpoint: Seq<u8>, model: Seq<u8>) -> Seq<u8> {
    tenant + seq![10u8] + endpoint + seq![10u8] + model
}

/// The big-endian value of a byte string.
pub open spec fn be_value(b: Seq<u8>) -> nat
    decreases b.len(),
{
    if b.len() == 0 {
        0
    } else {
        be_value(b.drop_last()) * 256 + b.last() as nat
    }
}

/// The base-62 digit of `d` (`0-9`, then `A-Z`, then `a-z`).
pub open spec fn base62_digit(d: nat) -> char {
    if d < 10 {
        ((48 + d) as u8) as char
    } else if d < 36 {
        ((55 + d) as u8) as char
    } else {
        ((61 + d) as u8) as char
    }
}

/// The base-62 numeral of `v`, most significant digit first, without
/// leading zeros (`0` for zero).
pub open spec fn base62(v: nat) -> Seq<char>
    decreases v,
{
    if v < 62 {
        seq![base62_digit(v)]
    } else {
        base62(v / 62).push(base62_digit(v % 62))
    }
}

/// The slug of a triple: the base-62 numeral of the first eight bytes of
/// the digest, read big-endian.
pub open spec fn slug_of(tenant: Seq<u8>, endpoint: Seq<u8>, model: Seq<u8>) -> Seq<char> {
    base62(be_value(sha256_of(slug_input(tenant, endpoint, model)).subrange(0, 8)))
}

fn digit(d: u64) -> (r: char)
    requires
        d < 62,
    ensures
        r == base62_digit(d as nat),
{
    if d < 10 {
        ((48 + d) as u8) as char
    } else if d < 36 {
        ((55 + d) as u8) as char
    } else {
        ((61 + d) as u8) as char
    }
}

/// The base-62 numeral of `value`.
pub fn base62_encode_u64(value: u64) -> (r: String)
    ensures
        r@ == base62(value as nat),
    decreases value,
{
    if value < 62 {
        let mut s = String::new();
        push_char(&mut s, digit(value));
        s
    } else {
        let mut s = base62_encode_u64(value / 62);
        push_char(&mut s, digit(value % 62));
        s
    }
}

spec fn pow256(n: nat) -> nat
    decreases n,
{
    if n == 0 {
        1
    } else {
        256 * pow256((n - 1) as nat)
    }
}

proof fn lemma_be_value_bound(b: Seq<u8>)
    ensures
        be_value(b) < pow256(b.len()),
    decreases b.len(),
{
    if b.len() > 0 {
        let d = b.drop_last();
        lemma_be_value_bound(d);
        let p = pow256(d.len());
        let x = be_value(d);
        let y = b.last() as int;
        assert(x * 256 + y < p * 256) by (nonlinear_arith)
            requires
                x < p,
                0 <= y < 256,
        ;
    }
}

proof fn lemma_pow256_grows(k: nat)
    requires
        k <= 7,
    ensures
        pow256(k) <= 0x100000000000000,
{
    reveal_with_fuel(pow256, 8);
    assert(pow256(7) == 0x100000000000000);
    if k < 7 {
        assert(pow256(k) <= pow256(7));
    }
}

fn read_be_u64(b: &Vec<u8>) -> (r: u64)
    requires
        b@.len() >= 8,
    ensures
        r == be_value(b@.subrange(0, 8)),
{
    let mut v: u64 = 0;
    let mut k: usize = 0;
    assert(b@.subrange(0, 0).len() == 0);
    while k < 8
        invariant
            b@.len() >= 8,
            k <= 8,
            v == be_value(b@.subrange(0, k as int)),
        decreases 8 - k,
    {
        proof {
            let s = b@.subrange(0, k + 1);
            assert(s.drop_last() =~= b@.subrange(0, k as int));
            lemma_be_value_bound(b@.subrange(0, k as int));
            lemma_pow256_grows(k as nat);
            assert(v * 256 + b@[k as int] <= u64::MAX) by (nonlinear_arith)
                requires
                    v < 0x100000000000000,
                    b@[k as int] < 256,
            ;
        }
        v = v * 256 + b[k] as u64;
        k += 1;
    }
    v
}

fn slug_bytes(tenant: &str, endpoint_slug: &str, model_id: &str) -> (r: Vec<u8>)
    ensures
        r@ == slug_input(tenant.spec_bytes(), endpoint_slug.spec_bytes(), model_id.spec_bytes()),
{
    let mut out: Vec<u8> = Vec::new();
    append_bytes(&mut out, tenant.as_bytes());
    out.push(10u8);
    append_bytes(&mut out, endpoint_slug.as_bytes());
    out.push(10u8);
    append_bytes(&mut out, model_id.as_bytes());
    out
}

fn append_bytes(out: &mut Vec<u8>, b: &[u8])
    ensures
        final(out)@ == old(out)@ + b@,
{
    let mut k: usize = 0;
    while k < b.len()
        invariant
            k <= b@.len(),
            out@ == old(out)@ + b@.subrange(0, k as int),
        decreases b.len() - k,
    {
        out.push(b[k]);
        proof {
            assert(b@.subrange(0, k + 1) =~= b@.subrange(0, k as int).push(b@[k as int]));
        }
        k += 1;
    }
    assert(b@.subrange(0, b@.len() as int) =~= b@);
}

/// The slug of `(tenant, endpoint_slug, model_id)`: SHA-256 over the three
/// parts joined by newlines, first eight digest bytes read big-endian, in
/// base 62.
pub fn encode_model_slug(tenant: &str, endpoint_slug: &str, model_id: &str) -> (r: String)
    ensures
        r@ == slug_of(tenant.spec_bytes(), endpoint_slug.spec_bytes(), model_id.spec_bytes()),
{
    let input = slug_bytes(tenant, endpoint_slug, model_id);
    let digest = sha256(input.as_slice());
    let value = read_be_u64(&digest);
    base62_encode_u64(value)
}

/// Slugs are deterministic: the same triple always gives the same slug.
pub proof fn lemma_slug_deterministic(t1: Seq<u8>, e1: Seq<u8>, m1: Seq<u8>, t2: Seq<u8>, e2: Seq<u8>, m2: Seq<u8>)
    requires
        t1 == t2,
        e1 == e2,
        m1 == m2,
    ensures
        slug_of(t1, e1, m1) == slug_of(t2, e2, m2),
{
}

proof fn lemma_split_at_separator(a1: Seq<u8>, b1: Seq<u8>, a2: Seq<u8>, b2: Seq<u8>)
    requires
        !a1.contains(10u8),
        !a2.contains(10u8),
        a1 + seq![10u8] + b1 == a2 + seq![10u8] + b2,
    ensures
        a1 == a2,
        b1 == b2,
{
    let s = a1 + seq![10u8] + b1;
    if a1.len() < a2.len() {
        assert(s[a1.len() as int] == 10u8);
        assert(s[a1.len() as int] == a2[a1.len() as int]);
        assert(a2.contains(10u8));
    } else if a2.len() < a1.len() {
        assert(s[a2.len() as int] == 10u8);
        assert(s[a2.len() as int] == a1[a2.len() as int]);
        assert(a1.contains(10u8));
    }
    assert(a1 =~= s.subrange(0, a1.len() as int));
    assert(a2 =~= s.subrange(0, a2.len() as int));
    assert(b1 =~= s.subrange(a1.len() as int + 1, s.len() as int));
    assert(b2 =~= s.subrange(a2.len() as int + 1, s.len() as int));
}

/// The hashed input determines the triple: when no part holds a newline,
/// two triples with the same slug input are the same triple, so two slugs
/// can only agree for different triples through a digest collision.
pub proof fn lemma_slug_input_injective(
    t1: Seq<u8>,
    e1: Seq<u8>,
    m1: Seq<u8>,
    t2: Seq<u8>,
    e2: Seq<u8>,
    m2: Seq<u8>,
)
    requires
        !t1.contains(10u8) && !e1.contains(10u8) && !m1.contains(10u8),
        !t2.contains(10u8) && !e2.contains(10u8) && !m2.contains(10u8),
        slug_input(t1, e1, m1) == slug_input(t2, e2, m2),
    ensures
        t1 == t2 && e1 == e2 && m1 == m2,
{
    let r1 = e1 + seq![10u8] + m1;
    let r2 = e2 + seq![10u8] + m2;
    assert(slug_input(t1, e1, m1) =~= t1 + seq![10u8] + r1);
    assert(slug_input(t2, e2, m2) =~= t2 + seq![10u8] + r2);
    lemma_split_at_separator(t1, r1, t2, r2);
    lemma_split_at_separator(e1, m1, e2, m2);
}

} // verus!
