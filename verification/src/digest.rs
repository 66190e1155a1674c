//! Commitment engine: the cryptographic digest over frame payloads and the
//! chaining rule that links each sealed entry to its predecessor.
use sha2::Digest;
use vstd::prelude::*;

verus! {

/// The digest that SHA-256 assigns to a byte sequence. Left uninterpreted:
/// the hash itself is computed by the `sha2` crate, not re-stated here.
pub uninterp spec fn sha256_of(bytes: Seq<u8>) -> Seq<u8>;

/// Relies on sha2::Sha256 (via the Digest trait): the digest is 32 bytes and
/// depends on the input bytes alone.
#[verifier::external_body]
fn sha256(bytes: &Vec<u8>) -> (r: Vec<u8>)
    ensures
        r@ == sha256_of(bytes@),
        r@.len() == 32,
{
    sha2::Sha256::digest(bytes.as_slice()).to_vec()
}

/// The commitment to a frame payload: its SHA-256 digest.
pub open spec fn commit_spec(payload: Seq<u8>) -> Seq<u8> {
    sha256_of(payload)
}

/// Compute the commitment to a frame payload.
pub fn commit(payload: &Vec<u8>) -> (r: Vec<u8>)
    ensures
        r@ == commit_spec(payload@),
        r@.len() == 32,
{
    sha256(payload)
}

/// The chaining rule: an entry's root commits to its own frame commitment `a`
/// and to the previous entry's root `b`, in that fixed operand order.
/// Swapping the operands would change every root, so the order is part of the
/// ledger's compatibility contract.
pub open spec fn combine_spec(a: Seq<u8>, b: Seq<u8>) -> Seq<u8> {
    sha256_of(a + b)
}

/// The fixed constant standing in for "previous root" when sealing into an
/// empty ledger: 32 zero bytes.
pub open spec fn genesis_root_spec() -> Seq<u8> {
    Seq::new(32, |i: int| 0u8)
}

/// Build the genesis root constant.
pub fn genesis_root() -> (r: Vec<u8>)
    ensures
        r@ == genesis_root_spec(),
{
    let mut v: Vec<u8> = Vec::new();
    let mut i: usize = 0;
    while i < 32
        invariant
            i <= 32,
            v@.len() == i,
            forall|j: int| 0 <= j < i ==> v@[j] == 0u8,
        decreases 32 - i,
    {
        v.push(0u8);
        i = i + 1;
    }
    proof {
        assert(v@ =~= genesis_root_spec());
    }
    v
}

/// Chain two digests: digest(concat(a, b)), frame commitment first.
pub fn combine(a: &Vec<u8>, b: &Vec<u8>) -> (r: Vec<u8>)
    ensures
        r@ == combine_spec(a@, b@),
        r@.len() == 32,
{
    let mut buf: Vec<u8> = Vec::new();
    let mut i: usize = 0;
    while i < a.len()
        invariant
            i <= a@.len(),
            buf@ == a@.subrange(0, i as int),
        decreases a@.len() - i,
    {
        buf.push(a[i]);
        proof {
            assert(buf@ =~= a@.subrange(0, i + 1 as int));
        }
        i = i + 1;
    }
    proof {
        assert(buf@ =~= a@);
    }
    let mut k: usize = 0;
    while k < b.len()
        invariant
            k <= b@.len(),
            buf@ == a@ + b@.subrange(0, k as int),
        decreases b@.len() - k,
    {
        buf.push(b[k]);
        proof {
            assert(buf@ =~= a@ + b@.subrange(0, k + 1 as int));
        }
        k = k + 1;
    }
    proof {
        assert(buf@ =~= a@ + b@);
    }
    sha256(&buf)
}

/// Compare two byte vectors for element-wise equality.
pub fn bytes_eq(a: &Vec<u8>, b: &Vec<u8>) -> (r: bool)
    ensures
        r == (a@ == b@),
{
    if a.len() != b.len() {
        return false;
    }
    let mut i: usize = 0;
    while i < a.len()
        invariant
            i <= a@.len(),
            a@.len() == b@.len(),
            forall|j: int| 0 <= j < i ==> a@[j] == b@[j],
        decreases a@.len() - i,
    {
        if a[i] != b[i] {
            return false;
        }
        i = i + 1;
    }
    proof {
        assert(a@ =~= b@);
    }
    true
}

/// Copy a byte vector.
pub fn clone_bytes(a: &Vec<u8>) -> (r: Vec<u8>)
    ensures
        r@ == a@,
{
    let mut v: Vec<u8> = Vec::new();
    let mut i: usize = 0;
    while i < a.len()
        invariant
            i <= a@.len(),
            v@ == a@.subrange(0, i as int),
        decreases a@.len() - i,
    {
        v.push(a[i]);
        proof {
            assert(v@ =~= a@.subrange(0, i + 1 as int));
        }
        i = i + 1;
    }
    proof {
        assert(v@ =~= a@);
    }
    v
}

/// The lowercase hexadecimal digit for a nibble.
pub open spec fn hex_digit(n: u8) -> char
    recommends
        n < 16,
{
    if n < 10 {
        (n + 0x30) as char
    } else {
        (n + 0x57) as char
    }
}

/// Lowercase hexadecimal rendering of a byte sequence: one pair of digits per
/// byte, high nibble first.
pub open spec fn hex_of(bytes: Seq<u8>) -> Seq<char>
    decreases bytes.len(),
{
    if bytes.len() == 0 {
        Seq::empty()
    } else {
        hex_of(bytes.drop_last()).push(hex_digit(bytes.last() / 16)).push(
            hex_digit(bytes.last() % 16),
        )
    }
}

/// Relies on hex::encode: one pair of lowercase hexadecimal digits per byte,
/// high nibble first.
#[verifier::external_body]
fn hex_encode(b: &Vec<u8>) -> (r: String)
    ensures
        r@ == hex_of(b@),
{
    hex::encode(b.as_slice())
}

/// Render a digest as a lowercase hexadecimal string for display.
pub fn digest_hex(b: &Vec<u8>) -> (r: String)
    ensures
        r@ == hex_of(b@),
{
    hex_encode(b)
}

} // verus!
