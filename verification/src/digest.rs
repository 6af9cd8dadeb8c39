//! SHA-256 digests of content that arrives in pieces.

use sha2::Digest;
use vstd::prelude::*;

verus! {

/// The most bytes that one digest can cover: SHA-256 counts the bits of its
/// input in 64 bits.
pub const MAX_CONTENT: u64 = 0x1fff_ffff_ffff_ffff;

/// The hasher of the crate `sha2`, as an opaque type.
#[verifier::external_type_specification]
#[verifier::external_body]
pub struct ExSha256(sha2::Sha256);

/// The bytes that a hasher has been fed, in order.
pub uninterp spec fn hashed(hasher: sha2::Sha256) -> Seq<u8>;

/// The SHA-256 digest of some content, as `sha2` computes it.
pub uninterp spec fn sha256(content: Seq<u8>) -> [u8; 32];

/// `sha2::Sha256::new`: a hasher that has been fed nothing.
#[verifier::external_body]
fn new_hasher() -> (hasher: sha2::Sha256)
    ensures
        hashed(hasher) == Seq::<u8>::empty(),
{
    sha2::Sha256::new()
}

/// `sha2::Digest::update`: the hasher has then been fed `data` after all that
/// it was fed before.
#[verifier::external_body]
fn feed_hasher(hasher: &mut sha2::Sha256, data: &[u8])
    requires
        hashed(*old(hasher)).len() + data@.len() <= MAX_CONTENT,
    ensures
        hashed(*final(hasher)) == hashed(*old(hasher)) + data@,
{
    hasher.update(data)
}

/// `sha2::Digest::finalize`: the digest of everything that the hasher was fed,
/// which depends on nothing else.
#[verifier::external_body]
fn finish_hasher(hasher: sha2::Sha256) -> (digest: [u8; 32])
    requires
        hashed(hasher).len() <= MAX_CONTENT,
    ensures
        digest == sha256(hashed(hasher)),
{
    hasher.finalize().into()
}

/// The lower-case hexadecimal digit for a number below 16.
pub open spec fn hex_digit(n: int) -> char {
    if n < 10 {
        ('0' as int + n) as char
    } else {
        ('a' as int + n - 10) as char
    }
}

/// Bytes in lower-case hexadecimal, two digits for each, the high half first.
pub open spec fn hex(bytes: Seq<u8>) -> Seq<char> {
    Seq::new(
        2 * bytes.len(),
        |i: int|
            if i % 2 == 0 {
                hex_digit(bytes[i / 2] as int / 16)
            } else {
                hex_digit(bytes[i / 2] as int % 16)
            },
    )
}

/// The digest of some content as peers show and send it: SHA-256 in hexadecimal.
pub open spec fn digest_text(content: Seq<u8>) -> Seq<char> {
    hex(sha256(content)@)
}

fn ascii_hex_digit(n: u8) -> (digit: u8)
    requires
        n < 16,
    ensures
        digit as int == hex_digit(n as int) as int,
        digit < 128,
{
    if n < 10 {
        48 + n
    } else {
        97 + (n - 10)
    }
}

/// Hexadecimal digits are ASCII.
pub proof fn lemma_hex_is_ascii(bytes: Seq<u8>)
    ensures
        vstd::utf8::is_ascii_chars(hex(bytes)),
        vstd::utf8::encode_utf8(hex(bytes)).len() == 2 * bytes.len(),
{
    vstd::utf8::is_ascii_chars_encode_utf8(hex(bytes));
}

/// Writes bytes in lower-case hexadecimal.
pub fn to_hex(bytes: &[u8]) -> (text: String)
    requires
        2 * bytes@.len() <= usize::MAX,
    ensures
        text@ == hex(bytes@),
{
    let mut ascii: Vec<u8> = Vec::new();
    let mut i: usize = 0;
    while i < bytes.len()
        invariant
            i <= bytes@.len(),
            ascii@.len() == 2 * i,
            forall|k: int| 0 <= k < ascii@.len() ==> ascii@[k] == hex(bytes@)[k] as u8,
        decreases bytes@.len() - i,
    {
        let byte: u8 = bytes[i];
        ascii.push(ascii_hex_digit(byte / 16));
        ascii.push(ascii_hex_digit(byte % 16));
        assert(hex(bytes@)[2 * i] == hex_digit(byte as int / 16));
        assert(hex(bytes@)[2 * i + 1] == hex_digit(byte as int % 16));
        i = i + 1;
    }
    proof {
        lemma_hex_is_ascii(bytes@);
        vstd::utf8::is_ascii_chars_encode_utf8(hex(bytes@));
        assert(ascii@ =~= vstd::utf8::encode_utf8(hex(bytes@)));
        vstd::utf8::encode_utf8_valid_utf8(hex(bytes@));
        vstd::utf8::encode_utf8_decode_utf8(hex(bytes@));
    }
    match String::from_utf8(ascii) {
        Ok(text) => text,
        // Never taken: the digits are ASCII.
        Err(_) => String::new(),
    }
}

/// Computes the digest of content that comes in pieces, so that no more than
/// one piece has to be in memory. Its view is the content so far.
pub struct ContentHasher {
    state: sha2::Sha256,
    length: u64,
}

impl View for ContentHasher {
    type V = Seq<u8>;

    closed spec fn view(&self) -> Seq<u8> {
        hashed(self.state)
    }
}

impl ContentHasher {
    #[verifier::type_invariant]
    spec fn counts_its_content(self) -> bool {
        &&& self.length == hashed(self.state).len()
        &&& self.length <= MAX_CONTENT
    }

    /// No content yet.
    pub fn new() -> (hasher: ContentHasher)
        ensures
            hasher@ == Seq::<u8>::empty(),
    {
        ContentHasher { state: new_hasher(), length: 0 }
    }

    /// The length of the content so far.
    pub fn len(&self) -> (length: u64)
        ensures
            length == self@.len(),
            length <= MAX_CONTENT,
    {
        proof {
            use_type_invariant(self);
        }
        self.length
    }

    /// Adds a piece at the end of the content.
    pub fn update(self, piece: &[u8]) -> (longer: ContentHasher)
        requires
            self@.len() + piece@.len() <= MAX_CONTENT,
        ensures
            longer@ == self@ + piece@,
    {
        proof {
            use_type_invariant(&self);
        }
        let ContentHasher { state, length } = self;
        let mut state = state;
        feed_hasher(&mut state, piece);
        ContentHasher { state, length: length + piece.len() as u64 }
    }

    /// The digest of the whole content.
    pub fn finish(self) -> (digest: String)
        ensures
            digest@ == digest_text(self@),
            digest@.len() == 64,
    {
        proof {
            use_type_invariant(&self);
        }
        let bytes = finish_hasher(self.state);
        to_hex(bytes.as_slice())
    }
}

/// Bytes in hexadecimal: each byte gives two characters, the digit for its high half
/// and then the digit for its low half, in lower case.
pub proof fn law_hex_shows_every_byte(bytes: Seq<u8>)
    ensures
        hex(bytes).len() == 2 * bytes.len(),
        forall|i: int|
            #![trigger bytes[i]]
            0 <= i < bytes.len() ==> hex(bytes)[2 * i] == "0123456789abcdef"@[bytes[i] as int / 16]
                && hex(bytes)[2 * i + 1] == "0123456789abcdef"@[bytes[i] as int % 16],
{
    reveal_strlit("0123456789abcdef");
    assert forall|i: int| #![trigger bytes[i]] 0 <= i < bytes.len() implies hex(bytes)[2 * i]
        == "0123456789abcdef"@[bytes[i] as int / 16] && hex(bytes)[2 * i + 1]
        == "0123456789abcdef"@[bytes[i] as int % 16] by {
        lemma_digits();
        let byte = bytes[i] as int;
        assert(0 <= byte / 16 < 16 && 0 <= byte % 16 < 16);
    }
}

/// The digits are those of the list of digits.
proof fn lemma_digits()
    ensures
        "0123456789abcdef"@.len() == 16,
        forall|n: int| 0 <= n < 16 ==> hex_digit(n) == #[trigger] "0123456789abcdef"@[n],
{
    reveal_strlit("0123456789abcdef");
}

proof fn lemma_digits_differ(m: int, n: int)
    requires
        0 <= m < 16,
        0 <= n < 16,
        hex_digit(m) == hex_digit(n),
    ensures
        m == n,
{
}

/// Different bytes are shown differently.
pub proof fn law_hex_is_unambiguous(a: Seq<u8>, b: Seq<u8>)
    ensures
        hex(a) == hex(b) <==> a == b,
{
    if hex(a) == hex(b) {
        assert(hex(a).len() == 2 * a.len() && hex(b).len() == 2 * b.len());
        assert forall|i: int| 0 <= i < a.len() implies a[i] == b[i] by {
            let x = a[i] as int;
            let y = b[i] as int;
            assert(hex(a)[2 * i] == hex_digit(x / 16) && hex(b)[2 * i] == hex_digit(y / 16));
            assert(hex(a)[2 * i + 1] == hex_digit(x % 16) && hex(b)[2 * i + 1] == hex_digit(
                y % 16,
            ));
            lemma_digits_differ(x / 16, y / 16);
            lemma_digits_differ(x % 16, y % 16);
            assert(x == 16 * (x / 16) + x % 16 && y == 16 * (y / 16) + y % 16);
        }
        assert(a =~= b);
    }
}

/// The text of a digest shows the whole SHA-256 value of the whole content, byte by
/// byte, in lower-case hexadecimal.
pub proof fn law_digest_shows_sha256(content: Seq<u8>)
    ensures
        digest_text(content).len() == 64,
        forall|i: int|
            #![trigger sha256(content)@[i]]
            0 <= i < 32 ==> digest_text(content)[2 * i]
                == "0123456789abcdef"@[sha256(content)@[i] as int / 16] && digest_text(content)[2
                * i + 1] == "0123456789abcdef"@[sha256(content)@[i] as int % 16],
{
    law_hex_shows_every_byte(sha256(content)@);
}

/// Two contents have the same digest text if and only if the SHA-256 values of the
/// two whole contents are the same.
pub proof fn law_equal_digests_mean_equal_sha256(a: Seq<u8>, b: Seq<u8>)
    ensures
        digest_text(a) == digest_text(b) <==> sha256(a)@ == sha256(b)@,
        digest_text(a) == digest_text(b) <==> sha256(a) == sha256(b),
{
    law_hex_is_unambiguous(sha256(a)@, sha256(b)@);
    if sha256(a)@ == sha256(b)@ {
        assert(sha256(a) =~= sha256(b));
    }
}

} // verus!
