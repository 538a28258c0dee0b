use vstd::prelude::*;

verus! {

/// The SHA-256 digest of a byte string.
pub uninterp spec fn sha256_digest(data: Seq<u8>) -> Seq<u8>;

/// Relies on `sha2::Sha256::digest`: the SHA-256 digest of `data`, 32 bytes.
#[verifier::external_body]
pub(crate) fn sha256(data: &[u8]) -> (r: Vec<u8>)
    ensures
        r@ == sha256_digest(data@),
        r@.len() == 32,
{
    <sha2::Sha256 as sha2::Digest>::digest(data).to_vec()
}

/// The lower-case hexadecimal digit for `n < 16`.
pub open spec fn hex_digit(n: int) -> char {
    seq!['0', '1', '2', '3', '4', '5', '6', '7', '8', '9', 'a', 'b', 'c', 'd', 'e', 'f'][n]
}

/// Two lower-case hexadecimal digits per byte, high nibble first.
pub open spec fn hex_lower(b: Seq<u8>) -> Seq<char>
    decreases b.len(),
{
    if b.len() == 0 {
        Seq::empty()
    } else {
        hex_lower(b.drop_last()) + seq![hex_digit(b.last() as int / 16), hex_digit(b.last() as int % 16)]
    }
}

/// Relies on `hex::encode`: two lower-case digits per byte, in order.
#[verifier::external_body]
pub(crate) fn to_hex(b: &[u8]) -> (r: String)
    ensures
        r@ == hex_lower(b@),
{
    hex::encode(b)
}

/// The SHA-512 digest of a byte string.
pub uninterp spec fn sha512_digest(data: Seq<u8>) -> Seq<u8>;

/// Relies on `sha2::Sha512::digest`: the SHA-512 digest of `data`, 64 bytes.
#[verifier::external_body]
pub(crate) fn sha512(data: &[u8]) -> (r: Vec<u8>)
    ensures
        r@ == sha512_digest(data@),
        r@.len() == 64,
{
    <sha2::Sha512 as sha2::Digest>::digest(data).to_vec()
}

/// Two digits per byte.
pub proof fn lemma_hex_len(b: Seq<u8>)
    ensures
        hex_lower(b).len() == 2 * b.len(),
    decreases b.len(),
{
    if b.len() > 0 {
        lemma_hex_len(b.drop_last());
    }
}

proof fn lemma_hex_digit_injective(x: int, y: int)
    requires
        0 <= x < 16,
        0 <= y < 16,
        hex_digit(x) == hex_digit(y),
    ensures
        x == y,
{
}

/// Distinct byte strings have distinct hexadecimal forms.
pub proof fn lemma_hex_injective(a: Seq<u8>, b: Seq<u8>)
    ensures
        hex_lower(a) == hex_lower(b) <==> a == b,
    decreases a.len(),
{
    if hex_lower(a) == hex_lower(b) {
        lemma_hex_len(a);
        lemma_hex_len(b);
        if a.len() > 0 {
            let ha = hex_lower(a.drop_last());
            let hb = hex_lower(b.drop_last());
            lemma_hex_len(a.drop_last());
            lemma_hex_len(b.drop_last());
            let n = ha.len() as int;
            assert(hex_lower(a)[n] == hex_lower(b)[n]);
            assert(hex_lower(a)[n + 1] == hex_lower(b)[n + 1]);
            assert(ha =~= hex_lower(a).subrange(0, n));
            assert(hb =~= hex_lower(b).subrange(0, n));
            lemma_hex_injective(a.drop_last(), b.drop_last());
            let x = a.last() as int;
            let y = b.last() as int;
            lemma_hex_digit_injective(x / 16, y / 16);
            lemma_hex_digit_injective(x % 16, y % 16);
            assert(a.last() == b.last());
            assert(a =~= a.drop_last().push(a.last()));
            assert(b =~= b.drop_last().push(b.last()));
        } else {
            assert(b.len() == 0);
            assert(a =~= b);
        }
    }
}

} // verus!
