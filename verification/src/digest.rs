//! SHA-256 digests of downloaded files, written in lowercase hexadecimal as
//! catalogs list them.
use vstd::prelude::*;
use sha2::Digest;

verus! {

/// What `sha2::Sha256::digest` returns for `bytes`: their SHA-256 digest.
pub uninterp spec fn sha256(bytes: Seq<u8>) -> Seq<u8>;

/// `sha2::Sha256::digest` (the `Digest` trait): the 32-byte SHA-256 digest
/// of `bytes`. Claimed: the digest is 32 bytes and depends on the bytes
/// alone, and is named `sha256`; the algorithm is not restated.
#[verifier::external_body]
fn sha256_digest(bytes: &[u8]) -> (d: Vec<u8>)
    ensures
        d@ == sha256(bytes@),
        d@.len() == 32,
{
    sha2::Sha256::digest(bytes).to_vec()
}

/// The lowercase hexadecimal digit for `n` (below 16).
pub open spec fn hex_digit(n: u8) -> char {
    if n < 10 {
        ('0' as u8 + n) as char
    } else {
        ('a' as u8 + n - 10) as char
    }
}

/// `bytes` in lowercase hexadecimal, two digits per byte, high digit first.
pub open spec fn hex_of(bytes: Seq<u8>) -> Seq<char>
    decreases bytes.len(),
{
    if bytes.len() == 0 {
        Seq::<char>::empty()
    } else {
        hex_of(bytes.drop_last()) + seq![hex_digit(bytes.last() / 16), hex_digit(bytes.last() % 16)]
    }
}

fn push_hex_digit(out: &mut String, n: u8)
    requires
        n < 16,
    ensures
        final(out)@ == old(out)@.push(hex_digit(n)),
{
    if n < 10 {
        out.push(('0' as u8 + n) as char);
    } else {
        out.push(('a' as u8 + n - 10) as char);
    }
}

/// The SHA-256 digest of `bytes`, in lowercase hexadecimal.
pub fn sha256_hex(bytes: &[u8]) -> (h: String)
    ensures
        h@ == hex_of(sha256(bytes@)),
        h@.len() == 64,
{
    let d = sha256_digest(bytes);
    let mut out = String::new();
    let mut k: usize = 0;
    assert(d@.take(0) =~= Seq::<u8>::empty());
    while k < d.len()
        invariant
            k <= d.len(),
            out@ == hex_of(d@.take(k as int)),
            out@.len() == 2 * k,
        decreases d.len() - k,
    {
        let b = d[k];
        assert(d@.take(k + 1).drop_last() =~= d@.take(k as int));
        push_hex_digit(&mut out, b / 16);
        push_hex_digit(&mut out, b % 16);
        k = k + 1;
    }
    assert(d@.take(d.len() as int) =~= d@);
    out
}

} // verus!
