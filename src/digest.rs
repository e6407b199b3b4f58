//! Content-derived command identifiers: the uppercase hex SHA-256 of a manifest.
use vstd::prelude::*;

verus! {

/// The sixteen uppercase hexadecimal digits, by value.
pub open spec fn hex_digits() -> Seq<char> {
    seq!['0', '1', '2', '3', '4', '5', '6', '7', '8', '9', 'A', 'B', 'C', 'D', 'E', 'F']
}

/// Uppercase hex encoding: two digits per byte, high nibble first.
pub open spec fn hex_upper(b: Seq<u8>) -> Seq<char> {
    Seq::new(
        2 * b.len(),
        |i: int|
            if i % 2 == 0 {
                hex_digits()[b[i / 2] as int / 16]
            } else {
                hex_digits()[b[i / 2] as int % 16]
            },
    )
}

/// The SHA-256 digest of a byte string.
pub uninterp spec fn sha256_of(data: Seq<u8>) -> Seq<u8>;

/// The identifier of a command whose manifest holds the bytes `manifest`.
pub open spec fn command_id_of(manifest: Seq<u8>) -> Seq<char> {
    hex_upper(sha256_of(manifest))
}

/// Relies on `ring::digest::digest` with `SHA256`: a 32-byte digest of the input.
/// It panics only on inputs of 2^61 bytes or more.
#[verifier::external_body]
fn sha256(data: &[u8]) -> (r: Vec<u8>)
    requires
        data@.len() < 0x2000_0000_0000_0000,
    ensures
        r@ == sha256_of(data@),
        r@.len() == 32,
{
    ring::digest::digest(&ring::digest::SHA256, data).as_ref().to_vec()
}

/// Relies on `data_encoding::HEXUPPER.encode`: two uppercase hex digits per byte,
/// high nibble first.
#[verifier::external_body]
fn hex_upper_encode(data: &[u8]) -> (r: String)
    ensures
        r@ == hex_upper(data@),
{
    data_encoding::HEXUPPER.encode(data)
}

/// The identifier of a command: the uppercase hex SHA-256 of its manifest's raw bytes.
pub fn command_id(manifest: &[u8]) -> (r: String)
    requires
        manifest@.len() < 0x2000_0000_0000_0000,
    ensures
        r@ == command_id_of(manifest@),
        r@.len() == 64,
{
    let d = sha256(manifest);
    hex_upper_encode(d.as_slice())
}

/// Identical manifest bytes give identical command ids (`command_id` returns
/// `command_id_of` of its input).
pub proof fn lemma_command_id_deterministic(a: Seq<u8>, b: Seq<u8>)
    requires
        a == b,
    ensures
        command_id_of(a) == command_id_of(b),
{
}

/// Hex encoding loses nothing: two byte strings with the same encoding are equal.
pub proof fn lemma_hex_upper_injective(a: Seq<u8>, b: Seq<u8>)
    requires
        hex_upper(a) == hex_upper(b),
    ensures
        a == b,
{
    assert(a.len() == b.len()) by {
        assert(hex_upper(a).len() == 2 * a.len());
        assert(hex_upper(b).len() == 2 * b.len());
    }
    assert forall|k: int| 0 <= k < a.len() implies a[k] == b[k] by {
        let ha = hex_upper(a);
        let hb = hex_upper(b);
        assert(ha[2 * k] == hb[2 * k]);
        assert(ha[2 * k + 1] == hb[2 * k + 1]);
        assert((2 * k) / 2 == k);
        assert((2 * k + 1) / 2 == k);
        assert((2 * k) % 2 == 0);
        assert((2 * k + 1) % 2 == 1);
        let x = a[k];
        let y = b[k];
        assert(x as int / 16 == y as int / 16 && x as int % 16 == y as int % 16) by {
            lemma_hex_digit_injective(x as int / 16, y as int / 16);
            lemma_hex_digit_injective(x as int % 16, y as int % 16);
        }
        assert(x == y) by (bit_vector)
            requires
                x / 16 == y / 16 && x % 16 == y % 16,
        ;
    }
    assert(a =~= b);
}

proof fn lemma_hex_digit_injective(m: int, n: int)
    requires
        0 <= m < 16,
        0 <= n < 16,
        hex_digits()[m] == hex_digits()[n],
    ensures
        m == n,
{
    let d = hex_digits();
    assert(d[0] == '0' && d[1] == '1' && d[2] == '2' && d[3] == '3' && d[4] == '4' && d[5] == '5'
        && d[6] == '6' && d[7] == '7' && d[8] == '8' && d[9] == '9' && d[10] == 'A' && d[11] == 'B'
        && d[12] == 'C' && d[13] == 'D' && d[14] == 'E' && d[15] == 'F');
}

/// Two manifests share an id exactly when they share a SHA-256 digest, so ids
/// differ wherever the digest tells the manifests apart.
pub proof fn lemma_command_id_tracks_digest(a: Seq<u8>, b: Seq<u8>)
    ensures
        command_id_of(a) == command_id_of(b) <==> sha256_of(a) == sha256_of(b),
{
    if command_id_of(a) == command_id_of(b) {
        lemma_hex_upper_injective(sha256_of(a), sha256_of(b));
    }
}

} // verus!
