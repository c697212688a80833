//! Byte-level utilities: XOR over byte sequences, random byte generation,
//! block alignment, and wall-clock pacing.

use std::time::Instant;
use vstd::arithmetic::div_mod::{lemma_fundamental_div_mod, lemma_mod_multiples_basic};
use vstd::prelude::*;
use vstd::slice::slice_to_vec;

verus! {

/// Byte-wise XOR of two sequences, paired up to the shorter length.
pub open spec fn xor2_seq(a: Seq<u8>, b: Seq<u8>) -> Seq<u8> {
    Seq::new(if a.len() <= b.len() { a.len() } else { b.len() }, |i: int| a[i] ^ b[i])
}

/// Byte-wise XOR of three same-length sequences.
pub open spec fn xor3_seq(a: Seq<u8>, b: Seq<u8>, c: Seq<u8>) -> Seq<u8>
    recommends
        a.len() == b.len(),
        b.len() == c.len(),
{
    Seq::new(a.len(), |i: int| (a[i] ^ b[i]) ^ c[i])
}

/// XOR cancels: combining a derived third value with the two others recovers
/// the original byte.
pub proof fn lemma_xor3_cancel(a: u8, b: u8, d: u8)
    ensures
        (a ^ b) ^ ((d ^ a) ^ b) == d,
{
    assert((a ^ b) ^ ((d ^ a) ^ b) == d) by (bit_vector);
}

/// XOR of three copies of a byte gives the byte back.
pub proof fn lemma_xor3_self(v: u8)
    ensures
        (v ^ v) ^ v == v,
{
    assert((v ^ v) ^ v == v) by (bit_vector);
}

/// Once three vectors have collapsed to one value, further mixing is a
/// no-op: the byte-wise XOR of three identical vectors is the vector itself.
pub proof fn lemma_xor3_collapse(v: Seq<u8>)
    ensures
        xor3_seq(v, v, v) == v,
{
    assert forall|j: int| 0 <= j < v.len() implies xor3_seq(v, v, v)[j] == v[j] by {
        lemma_xor3_self(v[j]);
    }
    assert(xor3_seq(v, v, v) =~= v);
}

/// Performs XOR on two byte slices, pairing bytes up to the shorter length.
pub fn xor_bytes(a: &[u8], b: &[u8]) -> (r: Vec<u8>)
    ensures
        r@ == xor2_seq(a@, b@),
{
    let n: usize = if a.len() <= b.len() {
        a.len()
    } else {
        b.len()
    };
    let mut r: Vec<u8> = Vec::new();
    let mut i: usize = 0;
    while i < n
        invariant
            n == xor2_seq(a@, b@).len(),
            n <= a@.len(),
            n <= b@.len(),
            i <= n,
            r@.len() == i,
            forall|j: int| 0 <= j < i ==> r@[j] == a@[j] ^ b@[j],
        decreases n - i,
    {
        r.push(a[i] ^ b[i]);
        i = i + 1;
    }
    assert(r@ =~= xor2_seq(a@, b@));
    r
}

/// The byte-wise XOR of three same-length slices.
pub(crate) fn xor3_block(a: &[u8], b: &[u8], c: &[u8]) -> (r: Vec<u8>)
    requires
        a@.len() == b@.len(),
        b@.len() == c@.len(),
    ensures
        r@ == xor3_seq(a@, b@, c@),
{
    let mut r: Vec<u8> = Vec::new();
    let mut i: usize = 0;
    while i < a.len()
        invariant
            a@.len() == b@.len(),
            b@.len() == c@.len(),
            i <= a@.len(),
            r@.len() == i,
            forall|j: int| 0 <= j < i ==> r@[j] == (a@[j] ^ b@[j]) ^ c@[j],
        decreases a@.len() - i,
    {
        r.push((a[i] ^ b[i]) ^ c[i]);
        i = i + 1;
    }
    proof {
        assert(r@ =~= xor3_seq(a@, b@, c@));
    }
    r
}

/// Compares two byte slices for equality.
pub fn bytes_equal(a: &[u8], b: &[u8]) -> (r: bool)
    ensures
        r == (a@ == b@),
{
    if a.len() != b.len() {
        return false;
    }
    let mut i: usize = 0;
    while i < a.len()
        invariant
            a@.len() == b@.len(),
            i <= a@.len(),
            forall|j: int| 0 <= j < i ==> a@[j] == b@[j],
        decreases a@.len() - i,
    {
        if a[i] != b[i] {
            return false;
        }
        i = i + 1;
    }
    proof {
        assert(a@ =~= b@);
    }
    true
}

/// Relies on `rand::thread_rng` and `Rng::gen::<u8>`: `length` bytes drawn
/// from a cryptographically secure source. Nothing is promised of their
/// values: they differ from call to call.
#[verifier::external_body]
pub fn random_bytes(length: usize) -> (r: Vec<u8>)
    ensures
        r@.len() == length,
{
    let mut rng = rand::thread_rng();
    (0..length).map(|_| rand::Rng::gen::<u8>(&mut rng)).collect()
}

/// Blocks the calling thread until at least `min_delay` nanoseconds have
/// passed since `start`. Pure pacing: it never fails. Relies on
/// `std::time::Instant::elapsed`; it returns once the monotonic clock shows
/// the delay has passed, so termination rests on the clock advancing.
#[verifier::external_body]
pub fn enforce_delay(start: &Instant, min_delay: u64) {
    while u64::try_from(start.elapsed().as_nanos()).unwrap_or(u64::MAX) < min_delay {
        std::hint::spin_loop();
    }
}

/// The filler length that aligns `n` bytes to blocks of `block_size`.
pub open spec fn fill_len_spec(n: int, block_size: int) -> int
    recommends
        block_size > 0,
{
    (block_size - n % block_size) % block_size
}

/// Aligning by the filler length lands exactly on a block boundary.
pub proof fn lemma_fill_len(n: int, block_size: int)
    requires
        n >= 0,
        block_size > 0,
    ensures
        0 <= fill_len_spec(n, block_size) < block_size,
        (n + fill_len_spec(n, block_size)) % block_size == 0,
{
    lemma_fundamental_div_mod(n, block_size);
    let m = n % block_size;
    if m == 0 {
        assert(fill_len_spec(n, block_size) == 0) by {
            lemma_mod_multiples_basic(1, block_size);
        }
        lemma_mod_multiples_basic(n / block_size, block_size);
    } else {
        assert((block_size - m) % block_size == block_size - m) by {
            lemma_fundamental_div_mod(block_size - m, block_size);
            lemma_mod_multiples_basic(0, block_size);
            assert((block_size - m) / block_size == 0) by {
                vstd::arithmetic::div_mod::lemma_basic_div(block_size - m, block_size);
            }
        }
        assert(n + (block_size - m) == (n / block_size + 1) * block_size) by (nonlinear_arith)
            requires
                n == block_size * (n / block_size) + m,
        ;
        lemma_mod_multiples_basic(n / block_size + 1, block_size);
    }
}

/// Aligns data to `block_size`-byte blocks by appending random filler.
pub fn pad_to_block_size(data: &[u8], block_size: usize) -> (r: Vec<u8>)
    requires
        block_size > 0,
        data@.len() + block_size <= usize::MAX,
    ensures
        r@.len() == data@.len() + fill_len_spec(data@.len() as int, block_size as int),
        (r@.len() as int) % (block_size as int) == 0,
        r@.subrange(0, data@.len() as int) == data@,
{
    proof {
        lemma_fill_len(data@.len() as int, block_size as int);
    }
    let padding_len: usize = (block_size - (data.len() % block_size)) % block_size;
    let mut padded = slice_to_vec(data);
    let mut fill = random_bytes(padding_len);
    padded.append(&mut fill);
    assert(padded@.subrange(0, data@.len() as int) =~= data@);
    padded
}

} // verus!
