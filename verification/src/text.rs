//! Byte-to-text conversion shared by the decoder, the capability table
//! and the file reader: trimming the host's trailing null padding and
//! lossy UTF-8 decoding.

use vstd::prelude::*;

verus! {

use vstd::utf8::{valid_utf8, decode_utf8};

/// The characters that lossy UTF-8 decoding yields for `bytes`: a pure
/// function of the bytes, named rather than spelled out.
pub uninterp spec fn lossy_decode(bytes: Seq<u8>) -> Seq<char>;

/// `bytes` with every trailing zero byte removed.
pub open spec fn trim_nuls(bytes: Seq<u8>) -> Seq<u8>
    decreases bytes.len(),
{
    if bytes.len() > 0 && bytes.last() == 0u8 {
        trim_nuls(bytes.drop_last())
    } else {
        bytes
    }
}

/// `trim_nuls` keeps exactly the prefix that ends before the trailing
/// zero bytes.
pub proof fn lemma_trim_nuls_take(bytes: Seq<u8>, n: int)
    requires
        0 <= n <= bytes.len(),
        n == 0 || bytes[n - 1] != 0u8,
        forall|j: int| n <= j < bytes.len() ==> bytes[j] == 0u8,
    ensures
        trim_nuls(bytes) == bytes.take(n),
    decreases bytes.len(),
{
    if bytes.len() == 0 {
        assert(trim_nuls(bytes) =~= bytes.take(n));
    } else if bytes.last() == 0u8 {
        assert(n < bytes.len());
        lemma_trim_nuls_take(bytes.drop_last(), n);
        assert(bytes.drop_last().take(n) =~= bytes.take(n));
    } else {
        assert(n == bytes.len());
        assert(trim_nuls(bytes) =~= bytes.take(n));
    }
}

/// Trimming bytes that carry no trailing zero changes nothing.
pub proof fn lemma_trim_nuls_noop(bytes: Seq<u8>)
    requires
        bytes.len() == 0 || bytes.last() != 0u8,
    ensures
        trim_nuls(bytes) == bytes,
{
}

/// Trimming never lengthens the bytes.
pub proof fn lemma_trim_nuls_len(bytes: Seq<u8>)
    ensures
        trim_nuls(bytes).len() <= bytes.len(),
    decreases bytes.len(),
{
    if bytes.len() > 0 && bytes.last() == 0u8 {
        lemma_trim_nuls_len(bytes.drop_last());
    }
}

/// Relies on `String::from_utf8_lossy`: the result depends on the bytes
/// alone; bytes that already form valid UTF-8 decode exactly, with no
/// replacement; and the result never has more characters than there
/// were bytes, since every decoded character and every replacement
/// character stands for at least one input byte.
#[verifier::external_body]
pub fn utf8_lossy(bytes: &Vec<u8>) -> (r: String)
    ensures
        r@ == lossy_decode(bytes@),
        valid_utf8(bytes@) ==> r@ == decode_utf8(bytes@),
        r@.len() <= bytes@.len(),
{
    String::from_utf8_lossy(bytes).into_owned()
}

/// Removes the trailing zero bytes with which the host pads its
/// fixed-size reply buffers.
pub fn trim_nul_bytes(bytes: &Vec<u8>) -> (r: Vec<u8>)
    ensures
        r@ == trim_nuls(bytes@),
{
    let mut n: usize = bytes.len();
    while n > 0 && bytes[n - 1] == 0u8
        invariant
            n <= bytes.len(),
            forall|j: int| n <= j < bytes.len() ==> bytes@[j] == 0u8,
        decreases n,
    {
        n = n - 1;
    }
    let mut out: Vec<u8> = Vec::new();
    let mut i: usize = 0;
    while i < n
        invariant
            i <= n <= bytes.len(),
            out@ =~= bytes@.take(i as int),
        decreases n - i,
    {
        out.push(bytes[i]);
        i = i + 1;
    }
    proof {
        lemma_trim_nuls_take(bytes@, n as int);
    }
    out
}

} // verus!
