//! Invitation tokens.

use vstd::prelude::*;

verus! {

/// Random bytes of a token.
pub const TOKEN_BYTES: usize = 32;

#[derive(Debug, Clone)]
pub struct InvitationToken {
    /// The token, which the inviter sees once.
    pub plaintext: String,
    /// What is stored, and looked up by.
    pub hash: String,
}

/// The digits of base64 for addresses, from zero to sixty-three.
pub open spec fn base64_char(v: int) -> char {
    if v < 26 {
        ('A' as int + v) as char
    } else if v < 52 {
        ('a' as int + v - 26) as char
    } else if v < 62 {
        ('0' as int + v - 52) as char
    } else if v == 62 {
        '-'
    } else {
        '_'
    }
}

/// The byte at `i`, zero past the end.
pub open spec fn byte_at(bytes: Seq<u8>, i: int) -> int {
    if 0 <= i < bytes.len() {
        bytes[i] as int
    } else {
        0
    }
}

/// Bytes as base64 for addresses, without padding: each three bytes are four
/// digits, and a rest of one or two bytes is two or three.
pub open spec fn base64_url(bytes: Seq<u8>) -> Seq<char> {
    Seq::new(
        ((bytes.len() * 4 + 2) / 3) as nat,
        |i: int|
            {
                let g = i / 4 * 3;
                let bits = byte_at(bytes, g) * 65536 + byte_at(bytes, g + 1) * 256 + byte_at(
                    bytes,
                    g + 2,
                );
                let weight = if i % 4 == 0 {
                    262144int
                } else if i % 4 == 1 {
                    4096
                } else if i % 4 == 2 {
                    64
                } else {
                    1
                };
                base64_char(bits / weight % 64)
            },
    )
}

/// The SHA-256 digest of a text in UTF-8.
pub uninterp spec fn sha256_of_text(s: Seq<char>) -> Seq<u8>;

/// `base64::Engine::encode` of `URL_SAFE_NO_PAD`: the digits of RFC 4648 for
/// addresses and file names, without padding.
#[verifier::external_body]
fn encode_base64(bytes: &Vec<u8>) -> (r: String)
    requires
        bytes@.len() <= usize::MAX / 4,
    ensures
        r@ == base64_url(bytes@),
{
    base64::Engine::encode(&base64::engine::general_purpose::URL_SAFE_NO_PAD, bytes)
}

/// `sha2::Sha256::digest`: thirty-two bytes, which depend on the text alone.
#[verifier::external_body]
fn sha256(s: &str) -> (r: Vec<u8>)
    ensures
        r@ == sha256_of_text(s@),
        r@.len() == 32,
{
    <sha2::Sha256 as sha2::Digest>::digest(s.as_bytes()).to_vec()
}

/// `rand::RngExt::fill` of the generator of `rand::rng`: `n` bytes, drawn at
/// random.
#[verifier::external_body]
fn random_bytes(n: usize) -> (r: Vec<u8>)
    requires
        n <= 4096,
    ensures
        r@.len() == n,
{
    let mut buf = vec![0u8; n];
    rand::RngExt::fill(&mut rand::rng(), &mut buf[..]);
    buf
}

/// What is stored of a token.
pub open spec fn stored_form(token: Seq<char>) -> Seq<char> {
    base64_url(sha256_of_text(token))
}

/// What is stored of a token.
pub fn hash_invitation_token(token: &str) -> (r: String)
    ensures
        r@ == stored_form(token@),
{
    let digest = sha256(token);
    encode_base64(&digest)
}

/// The token that random bytes make.
pub fn token_from(bytes: &Vec<u8>) -> (r: InvitationToken)
    requires
        bytes@.len() == TOKEN_BYTES,
    ensures
        r.plaintext@ == base64_url(bytes@),
        r.plaintext@.len() == 43,
        r.hash@ == stored_form(r.plaintext@),
{
    let plaintext = encode_base64(bytes);
    let hash = hash_invitation_token(plaintext.as_str());
    InvitationToken { plaintext, hash }
}

/// A new token: what [`token_from`] makes of bytes drawn at random.
pub fn new_invitation_token() -> (r: InvitationToken)
    ensures
        exists|bytes: Seq<u8>| bytes.len() == TOKEN_BYTES && r.plaintext@ == #[trigger] base64_url(
            bytes,
        ),
        r.plaintext@.len() == 43,
        r.hash@ == stored_form(r.plaintext@),
{
    let bytes = random_bytes(TOKEN_BYTES);
    token_from(&bytes)
}

/// How twenty-four bits fall into four digits.
proof fn lemma_bits(x: u32, y: u32, z: u32)
    requires
        x < 256,
        y < 256,
        z < 256,
    ensures
        (x * 65536 + y * 256 + z) / 262144 % 64 == x / 4,
        (x * 65536 + y * 256 + z) / 4096 % 64 == x % 4 * 16 + y / 16,
        (x * 65536 + y * 256 + z) / 64 % 64 == y % 16 * 4 + z / 64,
        (x * 65536 + y * 256 + z) / 1 % 64 == z % 64,
{
    assert((x * 65536 + y * 256 + z) / 262144 == x / 4);
    assert((x * 65536 + y * 256 + z) / 4096 == x * 16 + y / 16);
    assert((x * 65536 + y * 256 + z) / 64 == x * 1024 + y * 4 + z / 64);
}

/// The digit that stands at `i`, in terms of its three bytes.
proof fn lemma_digit(bytes: Seq<u8>, i: int)
    requires
        0 <= i < base64_url(bytes).len(),
    ensures
        i % 4 == 0 ==> base64_url(bytes)[i] == base64_char(byte_at(bytes, i / 4 * 3) / 4),
        i % 4 == 1 ==> base64_url(bytes)[i] == base64_char(
            byte_at(bytes, i / 4 * 3) % 4 * 16 + byte_at(bytes, i / 4 * 3 + 1) / 16,
        ),
        i % 4 == 2 ==> base64_url(bytes)[i] == base64_char(
            byte_at(bytes, i / 4 * 3 + 1) % 16 * 4 + byte_at(bytes, i / 4 * 3 + 2) / 64,
        ),
        i % 4 == 3 ==> base64_url(bytes)[i] == base64_char(byte_at(bytes, i / 4 * 3 + 2) % 64),
{
    let g = i / 4 * 3;
    lemma_bits(
        byte_at(bytes, g) as u32,
        byte_at(bytes, g + 1) as u32,
        byte_at(bytes, g + 2) as u32,
    );
}

proof fn lemma_same_digit(a: int, b: int)
    requires
        0 <= a < 64,
        0 <= b < 64,
        base64_char(a) == base64_char(b),
    ensures
        a == b,
{
}

/// Two runs of bytes of one length that are written alike are the same: a
/// token loses nothing of its random bytes.
pub proof fn writing_loses_nothing(a: Seq<u8>, b: Seq<u8>)
    requires
        a.len() == b.len(),
        base64_url(a) == base64_url(b),
    ensures
        a == b,
{
    let n = a.len() as int;
    assert forall|k: int| 0 <= k < n implies a[k] == b[k] by {
        let g = k / 3;
        let i = g * 4 + k % 3;
        assert(i / 4 == g && i % 4 == k % 3);
        assert(0 <= i && i + 1 < base64_url(a).len());
        lemma_digit(a, i);
        lemma_digit(b, i);
        lemma_digit(a, i + 1);
        lemma_digit(b, i + 1);
        let (a0, a1, a2) = (byte_at(a, g * 3), byte_at(a, g * 3 + 1), byte_at(a, g * 3 + 2));
        let (b0, b1, b2) = (byte_at(b, g * 3), byte_at(b, g * 3 + 1), byte_at(b, g * 3 + 2));
        if k % 3 == 0 {
            lemma_same_digit(a0 / 4, b0 / 4);
            lemma_same_digit(a0 % 4 * 16 + a1 / 16, b0 % 4 * 16 + b1 / 16);
            assert(a0 % 4 == b0 % 4);
        } else if k % 3 == 1 {
            lemma_same_digit(a0 % 4 * 16 + a1 / 16, b0 % 4 * 16 + b1 / 16);
            lemma_same_digit(a1 % 16 * 4 + a2 / 64, b1 % 16 * 4 + b2 / 64);
            assert(a1 / 16 == b1 / 16);
            assert(a1 % 16 == b1 % 16);
        } else {
            lemma_same_digit(a1 % 16 * 4 + a2 / 64, b1 % 16 * 4 + b2 / 64);
            lemma_same_digit(a2 % 64, b2 % 64);
            assert(a2 / 64 == b2 / 64);
        }
    }
    assert(a =~= b);
}

// ---------------------------------------------------------------------------
// Laws
// ---------------------------------------------------------------------------

/// A new token is found by what is stored of it, and has forty-three
/// characters that an address can carry as they are.
pub proof fn new_token_is_found(t: InvitationToken, typed: &str, r: String)
    requires
        call_ensures(new_invitation_token, (), t),
        typed@ == t.plaintext@,
        call_ensures(hash_invitation_token, (typed,), r),
    ensures
        r@ == t.hash@,
        t.plaintext@.len() == 43,
        forall|i: int|
            0 <= i < 43 ==> 'A' <= #[trigger] t.plaintext@[i] <= 'Z' || 'a' <= t.plaintext@[i]
                <= 'z' || '0' <= t.plaintext@[i] <= '9' || t.plaintext@[i] == '-'
                || t.plaintext@[i] == '_',
{
    let bytes = choose|bytes: Seq<u8>|
        bytes.len() == TOKEN_BYTES && t.plaintext@ == #[trigger] base64_url(bytes);
    assert forall|i: int| 0 <= i < 43 implies 'A' <= #[trigger] t.plaintext@[i] <= 'Z' || 'a'
        <= t.plaintext@[i] <= 'z' || '0' <= t.plaintext@[i] <= '9' || t.plaintext@[i] == '-'
        || t.plaintext@[i] == '_' by {
        lemma_digit_is_plain(bytes, i);
    }
}

proof fn lemma_digit_is_plain(bytes: Seq<u8>, i: int)
    requires
        0 <= i < base64_url(bytes).len(),
    ensures
        ({
            let c = base64_url(bytes)[i];
            'A' <= c <= 'Z' || 'a' <= c <= 'z' || '0' <= c <= '9' || c == '-' || c == '_'
        }),
{
    let g = i / 4 * 3;
    let bits = byte_at(bytes, g) * 65536 + byte_at(bytes, g + 1) * 256 + byte_at(bytes, g + 2);
    assert forall|v: int| 0 <= v < 64 implies ({
        let c = #[trigger] base64_char(v);
        'A' <= c <= 'Z' || 'a' <= c <= 'z' || '0' <= c <= '9' || c == '-' || c == '_'
    }) by {
        if v < 26 {
            assert(base64_char(v) as int == 65 + v);
        } else if v < 52 {
            assert(base64_char(v) as int == 97 + v - 26);
        } else if v < 62 {
            assert(base64_char(v) as int == 48 + v - 52);
        }
    }
    assert(0 <= bits / 262144 % 64 < 64);
    assert(0 <= bits / 4096 % 64 < 64);
    assert(0 <= bits / 64 % 64 < 64);
    assert(0 <= bits / 1 % 64 < 64);
}

/// Two tokens of different bytes differ, and one is stored as any token that
/// is written alike.
pub proof fn tokens_keep_their_bytes(
    a: &Vec<u8>,
    b: &Vec<u8>,
    ta: InvitationToken,
    tb: InvitationToken,
    typed: &str,
    stored: String,
)
    requires
        a@.len() == 32,
        b@.len() == 32,
        call_ensures(token_from, (a,), ta),
        call_ensures(token_from, (b,), tb),
        typed@ == ta.plaintext@,
        call_ensures(hash_invitation_token, (typed,), stored),
    ensures
        ta.plaintext@ == tb.plaintext@ <==> a@ == b@,
        ta.hash@ == stored@,
{
    if ta.plaintext@ == tb.plaintext@ {
        writing_loses_nothing(a@, b@);
    }
}

} // verus!
