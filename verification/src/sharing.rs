//! Three-party secret sharing over XOR: a secret is padded and split into
//! exactly three shares whose byte-wise XOR equals the padded buffer; three
//! verified shares of equal, aligned length reconstruct the secret. Large
//! buffers may be processed block by block in parallel.

use rayon::iter::{IndexedParallelIterator, IntoParallelRefIterator, ParallelIterator};
use vstd::arithmetic::div_mod::{
    lemma_div_pos_is_pos, lemma_fundamental_div_mod, lemma_fundamental_div_mod_converse,
};
use vstd::prelude::*;
use vstd::slice::{slice_subrange, slice_to_vec};

use crate::digest::{sha256_bytes, spec_sha256};
use crate::error::{CryptoError, CryptoResult};
use crate::padding;
use crate::utils::{bytes_equal, lemma_xor3_cancel, random_bytes, xor3_block, xor3_seq};

verus! {

/// Size of blocks for parallel processing: 64 KiB.
pub const BLOCK_SIZE: usize = 1024 * 64;

/// A share in the secret sharing scheme.
#[derive(Debug, Clone)]
pub struct Share {
    /// The share data. The field is writable so that callers can exercise
    /// integrity failures; `verify` reports whether the stored hash still
    /// matches the data.
    pub data: Vec<u8>,
    /// Share identifier (0, 1, or 2).
    pub id: u8,
    /// Hash of the share data, computed at construction. Writable for the
    /// same reason as `data`; `verify` checks it against the data.
    pub hash: [u8; 32],
}

impl Share {
    /// The share's integrity invariant: the stored hash is the digest of the
    /// data the share currently holds.
    pub open spec fn hash_ok(&self) -> bool {
        self.hash@ == spec_sha256(self.data@)
    }

    /// Creates a new share with given data and ID.
    pub fn new(data: Vec<u8>, id: u8) -> (s: Share)
        ensures
            s.data@ == data@,
            s.id == id,
            s.hash_ok(),
    {
        let hash = sha256_bytes(data.as_slice());
        Share { data, id, hash }
    }

    /// Verifies the integrity of the share: recomputes the digest of the
    /// data and compares it with the stored hash.
    pub fn verify(&self) -> (ok: bool)
        ensures
            ok == self.hash_ok(),
    {
        let computed = sha256_bytes(self.data.as_slice());
        bytes_equal(computed.as_slice(), self.hash.as_slice())
    }

    /// Gets a reference to the share data.
    pub fn data(&self) -> (d: &[u8])
        ensures
            d@ == self.data@,
    {
        self.data.as_slice()
    }
}

/// Configuration for the sharing scheme.
#[derive(Debug, Clone)]
pub struct SharingConfig {
    /// Whether to use parallel processing for large messages.
    pub parallel: bool,
    /// Minimum size for using parallel processing.
    pub parallel_threshold: usize,
    /// Block size for processing.
    pub block_size: usize,
}

impl Default for SharingConfig {
    /// The base configuration: parallel processing off, 64 KiB threshold and
    /// block size.
    fn default() -> (c: SharingConfig)
        ensures
            !c.parallel,
            c.parallel_threshold == BLOCK_SIZE,
            c.block_size == BLOCK_SIZE,
    {
        SharingConfig { parallel: false, parallel_threshold: BLOCK_SIZE, block_size: BLOCK_SIZE }
    }
}

/// What `split` promises of the three shares it derives from `data`: ids 0,
/// 1, 2 in order, intact hashes, equal lengths, and a byte-wise XOR equal to
/// `data`.
spec fn shares_of(shares: Seq<Share>, data: Seq<u8>) -> bool {
    &&& shares.len() == 3
    &&& forall|i: int| 0 <= i < 3 ==> (#[trigger] shares[i]).id == i
    &&& forall|i: int| 0 <= i < 3 ==> (#[trigger] shares[i]).hash_ok()
    &&& forall|i: int| 0 <= i < 3 ==> (#[trigger] shares[i]).data@.len() == data.len()
    &&& xor3_seq(shares[0].data@, shares[1].data@, shares[2].data@) == data
}

/// The shape `reconstruct` demands: exactly three shares of one common
/// length, aligned to the padding codec's unit.
pub open spec fn shares_shape_ok(shares: Seq<Share>) -> bool {
    &&& shares.len() == 3
    &&& shares[1].data@.len() == shares[0].data@.len()
    &&& shares[2].data@.len() == shares[0].data@.len()
    &&& (shares[0].data@.len() as int) % (padding::ALIGNMENT as int) == 0
}

/// All shares still match their stored hashes.
pub open spec fn shares_verified(shares: Seq<Share>) -> bool {
    forall|i: int| 0 <= i < shares.len() ==> (#[trigger] shares[i]).hash_ok()
}

/// The byte-wise XOR of the three shares' data.
pub open spec fn combined(shares: Seq<Share>) -> Seq<u8>
    recommends
        shares.len() == 3,
{
    xor3_seq(shares[0].data@, shares[1].data@, shares[2].data@)
}

/// Round trip of the sharing scheme: three shares whose XOR is a valid
/// padding of a secret, with intact hashes and the padded size as their
/// common length — exactly what `split` hands out — satisfy `reconstruct`'s
/// checks, and decoding their XOR gives back exactly that secret.
pub proof fn lemma_split_reconstruct(shares: Seq<Share>, secret: Seq<u8>)
    requires
        shares.len() == 3,
        forall|i: int| 0 <= i < 3 ==> (#[trigger] shares[i]).hash_ok(),
        forall|i: int|
            0 <= i < 3 ==> (#[trigger] shares[i]).data@.len() == padding::padded_size_spec(
                secret.len() as int,
            ),
        padding::is_padding_of(combined(shares), secret),
    ensures
        shares_shape_ok(shares),
        shares_verified(shares),
        padding::unpad_spec(combined(shares)) == Some(secret),
{
    padding::lemma_padded_size(secret.len() as int);
    padding::lemma_pad_unpad(combined(shares), secret);
}

/// Derives three same-length buffers from `block`: two random, the third the
/// byte-wise XOR of the block with both, so that the XOR of all three is the
/// block itself.
fn split_block(block: &[u8]) -> (r: (Vec<u8>, Vec<u8>, Vec<u8>))
    ensures
        r.0@.len() == block@.len(),
        r.1@.len() == block@.len(),
        r.2@.len() == block@.len(),
        xor3_seq(r.0@, r.1@, r.2@) == block@,
{
    let share_a = random_bytes(block.len());
    let share_b = random_bytes(block.len());
    let mut share_c: Vec<u8> = Vec::new();
    let mut i: usize = 0;
    while i < block.len()
        invariant
            share_a@.len() == block@.len(),
            share_b@.len() == block@.len(),
            i <= block@.len(),
            share_c@.len() == i,
            forall|j: int| 0 <= j < i ==> share_c@[j] == (block@[j] ^ share_a@[j]) ^ share_b@[j],
        decreases block@.len() - i,
    {
        share_c.push((block[i] ^ share_a[i]) ^ share_b[i]);
        i = i + 1;
    }
    proof {
        assert forall|j: int| 0 <= j < block@.len() implies xor3_seq(
            share_a@,
            share_b@,
            share_c@,
        )[j] == block@[j] by {
            lemma_xor3_cancel(share_a@[j], share_b@[j], block@[j]);
        }
        assert(xor3_seq(share_a@, share_b@, share_c@) =~= block@);
    }
    (share_a, share_b, share_c)
}

/// The number of `block_size` blocks that cover `len` bytes.
spec fn n_blocks_spec(len: int, block_size: int) -> int
    recommends
        block_size > 0,
{
    (len + block_size - 1) / block_size
}

/// Where block `j` ends inside a buffer of `len` bytes: one block size
/// further, or at the buffer's end.
spec fn blk_end(len: int, block_size: int, j: int) -> int {
    if j * block_size <= len {
        j * block_size
    } else {
        len
    }
}

/// A valid chunking: as many blocks as cover the data, each block the slice
/// of the data between its boundaries.
spec fn chunks_ok(blocks: Seq<Vec<u8>>, data: Seq<u8>, block_size: int) -> bool {
    &&& blocks.len() == n_blocks_spec(data.len() as int, block_size)
    &&& forall|j: int|
        0 <= j < blocks.len() ==> (#[trigger] blocks[j])@ == data.subrange(
            blk_end(data.len() as int, block_size, j),
            blk_end(data.len() as int, block_size, j + 1),
        )
}

/// Block boundaries are ordered and stay inside the buffer.
proof fn lemma_blk_end_props(len: int, bs: int, j: int)
    requires
        len >= 0,
        bs > 0,
        j >= 0,
    ensures
        0 <= blk_end(len, bs, j) <= len,
        blk_end(len, bs, j) <= blk_end(len, bs, j + 1),
{
    assert(j * bs >= 0) by (nonlinear_arith)
        requires
            j >= 0 && bs > 0,
    ;
    assert((j + 1) * bs == j * bs + bs) by (nonlinear_arith);
}

/// The block count covers the data: the last block boundary is the length.
proof fn lemma_n_blocks(len: int, block_size: int)
    requires
        len >= 0,
        block_size > 0,
    ensures
        n_blocks_spec(len, block_size) >= 0,
        n_blocks_spec(len, block_size) * block_size >= len,
        blk_end(len, block_size, n_blocks_spec(len, block_size)) == len,
{
    let t = len + block_size - 1;
    let n = n_blocks_spec(len, block_size);
    lemma_div_pos_is_pos(t, block_size);
    lemma_fundamental_div_mod(t, block_size);
    assert(n * block_size == block_size * n) by (nonlinear_arith);
    if n * block_size <= len {
        assert(blk_end(len, block_size, n) == n * block_size);
        assert(n * block_size >= len);
    }
}

/// Splits `data` into consecutive blocks of `block_size` bytes; the last
/// block holds whatever remains.
fn chunk_blocks(data: &[u8], block_size: usize) -> (blocks: Vec<Vec<u8>>)
    requires
        block_size > 0,
    ensures
        chunks_ok(blocks@, data@, block_size as int),
{
    let ghost len = data@.len() as int;
    let ghost bs = block_size as int;
    let mut blocks: Vec<Vec<u8>> = Vec::new();
    let mut offset: usize = 0;
    proof {
        assert(blocks@.len() * bs == 0) by (nonlinear_arith)
            requires
                blocks@.len() == 0,
        ;
        if len == 0 {
            lemma_fundamental_div_mod_converse(len + bs - 1, bs, 0, bs - 1);
        }
    }
    while offset < data.len()
        invariant
            block_size > 0,
            bs == block_size as int,
            len == data@.len() as int,
            offset <= data@.len(),
            offset == blocks@.len() * bs || offset == len,
            offset == len ==> blocks@.len() == n_blocks_spec(len, bs),
            offset < len ==> offset == blocks@.len() * bs,
            forall|j: int|
                0 <= j < blocks@.len() ==> (#[trigger] blocks@[j])@ == data@.subrange(
                    blk_end(len, bs, j),
                    blk_end(len, bs, j + 1),
                ),
        decreases data@.len() - offset,
    {
        let ghost j = blocks@.len() as int;
        let end: usize = if data.len() - offset < block_size {
            data.len()
        } else {
            offset + block_size
        };
        proof {
            assert((j + 1) * bs == j * bs + bs) by (nonlinear_arith);
            assert(j * bs >= 0) by (nonlinear_arith)
                requires
                    j >= 0 && bs > 0,
            ;
            assert(blk_end(len, bs, j) == offset);
            if end < data.len() {
                assert(blk_end(len, bs, j + 1) == end);
            } else {
                assert(end == len);
                assert(blk_end(len, bs, j + 1) == end);
            }
        }
        blocks.push(slice_to_vec(slice_subrange(data, offset, end)));
        proof {
            if end == len {
                let r = len + bs - 1 - (j + 1) * bs;
                assert((j + 1) * bs == j * bs + bs) by (nonlinear_arith);
                assert(r >= 0);
                assert(r < bs);
                lemma_fundamental_div_mod_converse(len + bs - 1, bs, j + 1, r);
            }
        }
        offset = end;
    }
    proof {
        if len > 0 {
            assert(offset == len);
        }
    }
    blocks
}

/// XOR distributes over concatenation of same-length triples.
proof fn lemma_xor3_append(
    a: Seq<u8>,
    b: Seq<u8>,
    c: Seq<u8>,
    x: Seq<u8>,
    y: Seq<u8>,
    z: Seq<u8>,
)
    requires
        a.len() == b.len(),
        b.len() == c.len(),
        x.len() == y.len(),
        y.len() == z.len(),
    ensures
        xor3_seq(a + x, b + y, c + z) == xor3_seq(a, b, c) + xor3_seq(x, y, z),
{
    assert(xor3_seq(a + x, b + y, c + z) =~= xor3_seq(a, b, c) + xor3_seq(x, y, z));
}

/// XOR of three subranges is the subrange of the XOR.
proof fn lemma_xor3_subrange(a: Seq<u8>, b: Seq<u8>, c: Seq<u8>, x: int, y: int)
    requires
        a.len() == b.len(),
        b.len() == c.len(),
        0 <= x <= y <= a.len(),
    ensures
        xor3_seq(a.subrange(x, y), b.subrange(x, y), c.subrange(x, y)) == xor3_seq(
            a,
            b,
            c,
        ).subrange(x, y),
{
    assert(xor3_seq(a.subrange(x, y), b.subrange(x, y), c.subrange(x, y)) =~= xor3_seq(
        a,
        b,
        c,
    ).subrange(x, y));
}

/// Relies on rayon's `par_iter().map().collect()` over an indexed parallel
/// iterator: the closure runs on every block and the results are collected
/// in the blocks' order. The closure only calls the verified `split_block`.
#[verifier::external_body]
fn par_split_blocks(blocks: &Vec<Vec<u8>>) -> (triples: Vec<(Vec<u8>, Vec<u8>, Vec<u8>)>)
    ensures
        triples@.len() == blocks@.len(),
        forall|i: int|
            0 <= i < blocks@.len() ==> ({
                &&& (#[trigger] triples@[i]).0@.len() == blocks@[i]@.len()
                &&& triples@[i].1@.len() == blocks@[i]@.len()
                &&& triples@[i].2@.len() == blocks@[i]@.len()
                &&& xor3_seq(triples@[i].0@, triples@[i].1@, triples@[i].2@) == blocks@[i]@
            }),
{
    blocks.par_iter().map(|b| split_block(b.as_slice())).collect()
}

/// Relies on rayon's `zip`/`map`/`collect` over indexed parallel iterators:
/// the closure runs on the blocks at equal indices and the results keep the
/// blocks' order. The closure only calls the verified `xor3_block`.
#[verifier::external_body]
fn par_xor3_blocks(a: &Vec<Vec<u8>>, b: &Vec<Vec<u8>>, c: &Vec<Vec<u8>>) -> (r: Vec<Vec<u8>>)
    requires
        a@.len() == b@.len(),
        b@.len() == c@.len(),
        forall|i: int|
            0 <= i < a@.len() ==> (#[trigger] a@[i])@.len() == b@[i]@.len() && b@[i]@.len()
                == c@[i]@.len(),
    ensures
        r@.len() == a@.len(),
        forall|i: int|
            0 <= i < a@.len() ==> (#[trigger] r@[i])@ == xor3_seq(a@[i]@, b@[i]@, c@[i]@),
{
    a.par_iter()
        .zip(b.par_iter())
        .zip(c.par_iter())
        .map(|((x, y), z)| xor3_block(x.as_slice(), y.as_slice(), z.as_slice()))
        .collect()
}

/// Implementation of three-party secret sharing.
pub struct ThreePartySecretSharing {
    config: SharingConfig,
}

impl ThreePartySecretSharing {
    /// The splitter's invariant: a positive block size.
    pub closed spec fn wf(&self) -> bool {
        self.config.block_size > 0
    }

    /// Creates a new instance with given configuration.
    pub fn new(config: SharingConfig) -> (s: ThreePartySecretSharing)
        requires
            config.block_size > 0,
        ensures
            s.wf(),
    {
        ThreePartySecretSharing { config }
    }

    /// Creates a new instance with default configuration.
    pub fn default() -> (s: ThreePartySecretSharing)
        ensures
            s.wf(),
    {
        Self::new(SharingConfig::default())
    }

    /// Splits a secret into three shares. An empty secret is rejected; any
    /// other secret is padded and split so that the XOR of the three shares
    /// is a valid padding of the secret.
    pub fn split(&mut self, secret: &[u8]) -> (r: CryptoResult<Vec<Share>>)
        requires
            old(self).wf(),
            secret@.len() + padding::LENGTH_SIZE + padding::ALIGNMENT <= usize::MAX,
        ensures
            *final(self) == *old(self),
            match r {
                Ok(shares) => {
                    &&& secret@.len() > 0
                    &&& shares@.len() == 3
                    &&& forall|i: int| 0 <= i < 3 ==> (#[trigger] shares@[i]).id == i
                    &&& forall|i: int| 0 <= i < 3 ==> (#[trigger] shares@[i]).hash_ok()
                    &&& forall|i: int|
                        0 <= i < 3 ==> (#[trigger] shares@[i]).data@.len()
                            == padding::padded_size_spec(secret@.len() as int)
                    &&& padding::is_padding_of(combined(shares@), secret@)
                },
                Err(e) => e matches CryptoError::InvalidInput(_) && secret@.len() == 0,
            },
    {
        if secret.is_empty() {
            return Err(CryptoError::InvalidInput("Secret cannot be empty".to_owned()));
        }
        let padded = match padding::pad_data(secret) {
            Ok(p) => p,
            Err(e) => {
                // Unreachable: the length bound keeps the input below the
                // codec's u64 limit.
                proof {
                    assert(false);
                }
                return Err(e);
            },
        };
        proof {
            padding::lemma_padded_size(secret@.len() as int);
        }
        if self.config.parallel && padded.len() >= self.config.parallel_threshold {
            self.split_parallel(padded.as_slice())
        } else {
            self.split_sequential(padded.as_slice())
        }
    }

    /// Reconstructs the secret from three verified shares of one aligned
    /// common length: their byte-wise XOR is decoded by the padding codec.
    pub fn reconstruct(&self, shares: &[Share]) -> (r: CryptoResult<Vec<u8>>)
        requires
            self.wf(),
        ensures
            match r {
                Ok(d) => {
                    &&& shares_shape_ok(shares@)
                    &&& shares_verified(shares@)
                    &&& padding::unpad_spec(combined(shares@)) == Some(d@)
                },
                Err(e) => match e {
                    CryptoError::InvalidInput(_) => !shares_shape_ok(shares@) || (
                    shares_verified(shares@) && padding::unpad_spec(combined(shares@)) is None),
                    CryptoError::VerificationFailed(_) => shares_shape_ok(shares@)
                        && !shares_verified(shares@),
                    _ => false,
                },
            },
    {
        if shares.len() != 3 {
            return Err(CryptoError::InvalidInput("Need exactly 3 shares".to_owned()));
        }
        let share_len = shares[0].data.len();
        if shares[1].data.len() != share_len || shares[2].data.len() != share_len {
            return Err(CryptoError::InvalidInput("Share lengths must match".to_owned()));
        }
        if share_len % padding::ALIGNMENT != 0 {
            return Err(
                CryptoError::InvalidInput("Share length must be aligned to 16 bytes".to_owned()),
            );
        }
        let mut i: usize = 0;
        while i < 3
            invariant
                shares@.len() == 3,
                shares_shape_ok(shares@),
                i <= 3,
                forall|j: int| 0 <= j < i ==> (#[trigger] shares@[j]).hash_ok(),
            decreases 3 - i,
        {
            if !shares[i].verify() {
                proof {
                    assert(!shares@[i as int].hash_ok());
                    assert(!shares_verified(shares@));
                }
                return Err(
                    CryptoError::VerificationFailed("Share verification failed".to_owned()),
                );
            }
            i = i + 1;
        }
        let reconstructed = if self.config.parallel && share_len >= self.config.parallel_threshold {
            self.reconstruct_parallel(shares)
        } else {
            self.reconstruct_sequential(shares)
        };
        padding::unpad_data(reconstructed.as_slice())
    }

    /// Splits the whole padded buffer at once: two random buffers and a
    /// derived third.
    fn split_sequential(&self, data: &[u8]) -> (r: CryptoResult<Vec<Share>>)
        ensures
            r matches Ok(shares) && shares_of(shares@, data@),
    {
        let (a, b, c) = split_block(data);
        let mut shares: Vec<Share> = Vec::new();
        shares.push(Share::new(a, 0));
        shares.push(Share::new(b, 1));
        shares.push(Share::new(c, 2));
        Ok(shares)
    }

    /// Splits the padded buffer block by block in parallel and concatenates
    /// the per-block buffers in block order.
    fn split_parallel(&self, data: &[u8]) -> (r: CryptoResult<Vec<Share>>)
        requires
            self.wf(),
        ensures
            r matches Ok(shares) && shares_of(shares@, data@),
    {
        let ghost len = data@.len() as int;
        let ghost bs = self.config.block_size as int;
        let blocks = chunk_blocks(data, self.config.block_size);
        let mut triples = par_split_blocks(&blocks);
        let n_exec: usize = triples.len();
        let ghost n = n_exec as int;
        proof {
            lemma_n_blocks(len, bs);
            assert(blk_end(len, bs, 0) == 0) by {
                assert(0int * bs == 0) by (nonlinear_arith);
            }
        }
        let mut share_a: Vec<u8> = Vec::new();
        let mut share_b: Vec<u8> = Vec::new();
        let mut share_c: Vec<u8> = Vec::new();
        let mut j: usize = 0;
        proof {
            assert(xor3_seq(share_a@, share_b@, share_c@) =~= data@.subrange(0, 0));
        }
        while triples.len() > 0
            invariant
                len == data@.len() as int,
                bs > 0,
                n == n_blocks_spec(len, bs),
                blk_end(len, bs, n) == len,
                chunks_ok(blocks@, data@, bs),
                n <= usize::MAX,
                j + triples@.len() == n,
                forall|i: int|
                    0 <= i < triples@.len() ==> ({
                        let t = #[trigger] triples@[i];
                        &&& t.0@.len() == blocks@[j + i]@.len()
                        &&& t.1@.len() == blocks@[j + i]@.len()
                        &&& t.2@.len() == blocks@[j + i]@.len()
                        &&& xor3_seq(t.0@, t.1@, t.2@) == blocks@[j + i]@
                    }),
                share_a@.len() == blk_end(len, bs, j as int),
                share_b@.len() == blk_end(len, bs, j as int),
                share_c@.len() == blk_end(len, bs, j as int),
                xor3_seq(share_a@, share_b@, share_c@) == data@.subrange(
                    0,
                    blk_end(len, bs, j as int),
                ),
            decreases triples@.len(),
        {
            let ghost jj = j as int;
            let ghost olda = share_a@;
            let ghost oldb = share_b@;
            let ghost oldc = share_c@;
            let (mut ta, mut tb, mut tc) = triples.remove(0);
            share_a.append(&mut ta);
            share_b.append(&mut tb);
            share_c.append(&mut tc);
            proof {
                let lo = blk_end(len, bs, jj);
                let hi = blk_end(len, bs, jj + 1);
                lemma_blk_end_props(len, bs, jj);
                assert(blocks@[jj]@ == data@.subrange(lo, hi));
                assert(blocks@[jj]@.len() == hi - lo);
                lemma_xor3_append(olda, oldb, oldc, ta@, tb@, tc@);
                assert(data@.subrange(0, lo) + data@.subrange(lo, hi) =~= data@.subrange(0, hi));
                assert(xor3_seq(share_a@, share_b@, share_c@) == data@.subrange(0, hi));
            }
            j = j + 1;
        }
        proof {
            assert(data@.subrange(0, len) =~= data@);
        }
        let mut shares: Vec<Share> = Vec::new();
        shares.push(Share::new(share_a, 0));
        shares.push(Share::new(share_b, 1));
        shares.push(Share::new(share_c, 2));
        Ok(shares)
    }

    /// XORs the three shares block by block in parallel and concatenates the
    /// results in block order.
    fn reconstruct_parallel(&self, shares: &[Share]) -> (r: Vec<u8>)
        requires
            self.wf(),
            shares_shape_ok(shares@),
        ensures
            r@ == combined(shares@),
    {
        let ghost len = shares@[0].data@.len() as int;
        let ghost bs = self.config.block_size as int;
        let blocks_a = chunk_blocks(shares[0].data.as_slice(), self.config.block_size);
        let blocks_b = chunk_blocks(shares[1].data.as_slice(), self.config.block_size);
        let blocks_c = chunk_blocks(shares[2].data.as_slice(), self.config.block_size);
        let n_exec: usize = blocks_a.len();
        let ghost n = n_exec as int;
        proof {
            lemma_n_blocks(len, bs);
            assert forall|i: int| 0 <= i < n implies ({
                &&& (#[trigger] blocks_a@[i])@.len() == blocks_b@[i]@.len()
                &&& blocks_b@[i]@.len() == blocks_c@[i]@.len()
            }) by {
                lemma_blk_end_props(len, bs, i);
            }
        }
        let mut xored = par_xor3_blocks(&blocks_a, &blocks_b, &blocks_c);
        proof {
            assert(blk_end(len, bs, 0) == 0) by {
                assert(0int * bs == 0) by (nonlinear_arith);
            }
            assert forall|i: int| 0 <= i < n implies (#[trigger] xored@[i])@ == combined(
                shares@,
            ).subrange(blk_end(len, bs, i), blk_end(len, bs, i + 1)) by {
                lemma_blk_end_props(len, bs, i);
                lemma_xor3_subrange(
                    shares@[0].data@,
                    shares@[1].data@,
                    shares@[2].data@,
                    blk_end(len, bs, i),
                    blk_end(len, bs, i + 1),
                );
            }
        }
        let mut result: Vec<u8> = Vec::new();
        let mut j: usize = 0;
        proof {
            assert(result@ =~= combined(shares@).subrange(0, 0));
        }
        while xored.len() > 0
            invariant
                shares@.len() == 3,
                len == shares@[0].data@.len() as int,
                shares@[1].data@.len() == len,
                shares@[2].data@.len() == len,
                bs > 0,
                n == n_blocks_spec(len, bs),
                blk_end(len, bs, n) == len,
                n <= usize::MAX,
                j + xored@.len() == n,
                forall|i: int|
                    0 <= i < xored@.len() ==> (#[trigger] xored@[i])@ == combined(
                        shares@,
                    ).subrange(blk_end(len, bs, j + i), blk_end(len, bs, j + i + 1)),
                result@ == combined(shares@).subrange(0, blk_end(len, bs, j as int)),
            decreases xored@.len(),
        {
            let ghost jj = j as int;
            let mut blk = xored.remove(0);
            result.append(&mut blk);
            proof {
                let lo = blk_end(len, bs, jj);
                let hi = blk_end(len, bs, jj + 1);
                lemma_blk_end_props(len, bs, jj);
                assert(combined(shares@).subrange(0, lo) + combined(shares@).subrange(lo, hi)
                    =~= combined(shares@).subrange(0, hi));
            }
            j = j + 1;
        }
        proof {
            assert(combined(shares@).subrange(0, len) =~= combined(shares@));
        }
        result
    }

    /// XORs the three shares byte by byte over the whole buffer.
    fn reconstruct_sequential(&self, shares: &[Share]) -> (r: Vec<u8>)
        requires
            shares_shape_ok(shares@),
        ensures
            r@ == combined(shares@),
    {
        xor3_block(
            shares[0].data.as_slice(),
            shares[1].data.as_slice(),
            shares[2].data.as_slice(),
        )
    }
}

} // verus!
