//! The padding codec: length-prefixed, block-aligned byte encoding and
//! decoding. A padded buffer is the 8-byte little-endian length of the
//! original data, the data itself, and random filler up to a 16-byte boundary.

use vstd::bytes::*;
use vstd::prelude::*;
use vstd::slice::{slice_subrange, slice_to_vec};

use crate::error::{CryptoError, CryptoResult};
use crate::utils::random_bytes;

verus! {

/// The alignment unit: every padded buffer's length is a multiple of this.
pub const ALIGNMENT: usize = 16;

/// The width of the little-endian length prefix.
pub const LENGTH_SIZE: usize = 8;

/// The padded size for `n` bytes of data: the length prefix plus the data,
/// rounded up to the alignment unit.
pub open spec fn padded_size_spec(n: int) -> int {
    ((n + LENGTH_SIZE + ALIGNMENT - 1) / (ALIGNMENT as int)) * (ALIGNMENT as int)
}

/// What it means for `p` to be a valid padding of `x`: aligned total length,
/// the length prefix holding `x`'s length, and `x` itself right after it.
/// The filler bytes beyond `x` are unconstrained.
pub open spec fn is_padding_of(p: Seq<u8>, x: Seq<u8>) -> bool {
    &&& x.len() <= u64::MAX
    &&& p.len() == padded_size_spec(x.len() as int)
    &&& p.subrange(0, LENGTH_SIZE as int) == spec_u64_to_le_bytes(x.len() as u64)
    &&& p.subrange(LENGTH_SIZE as int, LENGTH_SIZE + x.len()) == x
}

/// What decoding returns: `None` where the buffer is too short or its length
/// prefix overruns it, else the data slice the prefix delimits.
pub open spec fn unpad_spec(p: Seq<u8>) -> Option<Seq<u8>> {
    if p.len() < LENGTH_SIZE {
        None
    } else {
        let n = spec_u64_from_le_bytes(p.subrange(0, LENGTH_SIZE as int)) as int;
        if n + LENGTH_SIZE > p.len() {
            None
        } else {
            Some(p.subrange(LENGTH_SIZE as int, LENGTH_SIZE + n))
        }
    }
}

/// The padded size is aligned, covers the prefix and the data, and wastes
/// less than one alignment unit.
pub proof fn lemma_padded_size(n: int)
    requires
        n >= 0,
    ensures
        padded_size_spec(n) % (ALIGNMENT as int) == 0,
        padded_size_spec(n) >= n + LENGTH_SIZE,
        padded_size_spec(n) < n + LENGTH_SIZE + ALIGNMENT,
{
    let t = n + LENGTH_SIZE + ALIGNMENT - 1;
    vstd::arithmetic::div_mod::lemma_fundamental_div_mod(t, ALIGNMENT as int);
    vstd::arithmetic::div_mod::lemma_mod_multiples_basic(t / (ALIGNMENT as int), ALIGNMENT as int);
}

/// Round trip: any buffer that is a valid padding of `x` decodes back to
/// exactly `x`, whatever its filler bytes hold.
pub proof fn lemma_pad_unpad(p: Seq<u8>, x: Seq<u8>)
    requires
        is_padding_of(p, x),
    ensures
        unpad_spec(p) == Some(x),
{
    lemma_auto_spec_u64_to_from_le_bytes();
    lemma_padded_size(x.len() as int);
    assert(spec_u64_from_le_bytes(p.subrange(0, LENGTH_SIZE as int)) == x.len() as u64);
}

/// The required padded size for input of `input_size` bytes.
pub fn calculate_padded_size(input_size: usize) -> (r: usize)
    requires
        input_size + LENGTH_SIZE + ALIGNMENT <= usize::MAX,
    ensures
        r == padded_size_spec(input_size as int),
        r % ALIGNMENT == 0,
        r >= input_size + LENGTH_SIZE,
{
    proof {
        lemma_padded_size(input_size as int);
    }
    ((input_size + LENGTH_SIZE + ALIGNMENT - 1) / ALIGNMENT) * ALIGNMENT
}

/// Encodes `data` as a padded buffer: little-endian length prefix, the data,
/// then random filler up to the alignment unit.
pub fn pad_data(data: &[u8]) -> (r: CryptoResult<Vec<u8>>)
    requires
        data@.len() + LENGTH_SIZE + ALIGNMENT <= usize::MAX,
    ensures
        match r {
            Ok(p) => {
                &&& is_padding_of(p@, data@)
                &&& (p@.len() as int) % (ALIGNMENT as int) == 0
                &&& p@.len() >= data@.len() + LENGTH_SIZE
            },
            Err(e) => e matches CryptoError::InvalidInput(_) && data@.len() > u64::MAX,
        },
{
    if data.len() as u128 > u64::MAX as u128 {
        return Err(CryptoError::InvalidInput("Input too large".to_owned()));
    }
    let padded_size = calculate_padded_size(data.len());
    let mut padded = u64_to_le_bytes(data.len() as u64);
    proof {
        lemma_auto_spec_u64_to_from_le_bytes();
    }
    let mut body = slice_to_vec(data);
    padded.append(&mut body);
    let mut fill = random_bytes(padded_size - (data.len() + LENGTH_SIZE));
    padded.append(&mut fill);
    proof {
        assert(padded@.subrange(0, LENGTH_SIZE as int) =~= spec_u64_to_le_bytes(
            data@.len() as u64,
        ));
        assert(padded@.subrange(LENGTH_SIZE as int, LENGTH_SIZE + data@.len()) =~= data@);
    }
    Ok(padded)
}

/// Decodes a padded buffer: validates the length prefix and returns the data
/// it delimits, without the filler.
pub fn unpad_data(padded: &[u8]) -> (r: CryptoResult<Vec<u8>>)
    ensures
        match r {
            Ok(d) => unpad_spec(padded@) == Some(d@),
            Err(e) => e matches CryptoError::InvalidInput(_) && unpad_spec(padded@) is None,
        },
{
    if padded.len() < LENGTH_SIZE {
        return Err(CryptoError::InvalidInput("Invalid padded data length".to_owned()));
    }
    let prefix = slice_subrange(padded, 0, LENGTH_SIZE);
    let original_len = u64_from_le_bytes(prefix);
    if original_len > (padded.len() - LENGTH_SIZE) as u64 {
        return Err(CryptoError::InvalidInput("Invalid length prefix".to_owned()));
    }
    let n = original_len as usize;
    let out = slice_to_vec(slice_subrange(padded, LENGTH_SIZE, LENGTH_SIZE + n));
    Ok(out)
}

} // verus!
