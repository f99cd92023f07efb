//! SHA-256 content digests in their `sha256:<64 lowercase hex digits>` form.
use sha2::Digest;
use vstd::prelude::*;
use vstd::string::StringSliceAdditionalSpecFns;
use vstd::utf8::encode_utf8;

use crate::text::{chars_of, push_char};

verus! {

/// What SHA-256 yields for the given bytes.
pub uninterp spec fn sha256(data: Seq<u8>) -> Seq<u8>;

/// Hashes the bytes with the `sha2` crate.
///
/// Trusted: `sha2::Sha256::digest` returns the 32-byte SHA-256 hash of exactly
/// the bytes it is given, so the result is a function of `data` alone.
#[verifier::external_body]
fn sha256_of(data: &[u8]) -> (r: Vec<u8>)
    ensures
        r@ == sha256(data@),
        r@.len() == 32,
{
    sha2::Sha256::digest(data).to_vec()
}

/// The algorithm prefix of every digest text.
pub open spec fn digest_prefix() -> Seq<char> {
    seq!['s', 'h', 'a', '2', '5', '6', ':']
}

pub open spec fn is_lower_hex(c: char) -> bool {
    ('0' <= c && c <= '9') || ('a' <= c && c <= 'f')
}

/// The lowercase hexadecimal digit of a nibble.
pub open spec fn hex_digit(n: u8) -> char {
    if n < 10 {
        (n + 48) as char
    } else {
        (n + 87) as char
    }
}

/// Lowercase hexadecimal rendering of a byte sequence, two digits per byte.
pub open spec fn lower_hex(data: Seq<u8>) -> Seq<char>
    decreases data.len(),
{
    if data.len() == 0 {
        seq![]
    } else {
        seq![hex_digit(data[0] / 16), hex_digit(data[0] % 16)] + lower_hex(data.drop_first())
    }
}

/// The text of a well-formed digest: the prefix and 64 lowercase hex digits.
pub open spec fn is_digest_text(s: Seq<char>) -> bool {
    &&& s.len() == 71
    &&& s.take(7) == digest_prefix()
    &&& forall|i: int| 7 <= i < 71 ==> is_lower_hex(#[trigger] s[i])
}

/// The digest text of the SHA-256 hash of `data`.
pub open spec fn digest_of(data: Seq<u8>) -> Seq<char> {
    digest_prefix() + lower_hex(sha256(data))
}

/// A validated, lowercase SHA-256 content digest.
#[derive(Debug, PartialEq, Eq, Hash, PartialOrd, Ord)]
pub struct Sha256Digest {
    text: String,
}

impl View for Sha256Digest {
    type V = Seq<char>;

    closed spec fn view(&self) -> Seq<char> {
        self.text@
    }
}

/// Why a digest string was rejected.
#[derive(Clone, Copy, Debug, PartialEq, Eq, Structural)]
pub enum DigestParseError {
    /// The algorithm prefix was not `sha256:`.
    MissingPrefix,
    /// SHA-256 requires exactly 64 hexadecimal digits; carries the byte length found.
    InvalidLength(usize),
    /// Uppercase or non-hexadecimal characters were present.
    InvalidHex,
}

/// The outcome of parsing a digest text.
pub open spec fn spec_parse_digest(s: Seq<char>) -> Result<Seq<char>, DigestParseError> {
    if s.len() < 7 || s.take(7) != digest_prefix() {
        Err(DigestParseError::MissingPrefix)
    } else if encode_utf8(s.skip(7)).len() as usize != 64 {
        Err(DigestParseError::InvalidLength(encode_utf8(s.skip(7)).len() as usize))
    } else if !(forall|i: int| 7 <= i < s.len() ==> is_lower_hex(#[trigger] s[i])) {
        Err(DigestParseError::InvalidHex)
    } else {
        Ok(s)
    }
}

pub(crate) fn hex_char_of(n: u8) -> (c: char)
    requires
        n < 16,
    ensures
        c == hex_digit(n),
{
    if n < 10 {
        (n + 48) as char
    } else {
        (n + 87) as char
    }
}

fn is_lower_hex_char(c: char) -> (b: bool)
    ensures
        b == is_lower_hex(c),
{
    ('0' <= c && c <= '9') || ('a' <= c && c <= 'f')
}

proof fn lemma_lower_hex_len(data: Seq<u8>)
    ensures
        lower_hex(data).len() == 2 * data.len(),
    decreases data.len(),
{
    if data.len() > 0 {
        lemma_lower_hex_len(data.drop_first());
    }
}

proof fn lemma_lower_hex_digits(data: Seq<u8>)
    ensures
        forall|i: int| 0 <= i < lower_hex(data).len() ==> is_lower_hex(#[trigger] lower_hex(data)[i]),
    decreases data.len(),
{
    lemma_lower_hex_len(data);
    if data.len() > 0 {
        lemma_lower_hex_digits(data.drop_first());
        let hi = data[0] / 16;
        let lo = data[0] % 16;
        assert(is_lower_hex(hex_digit(hi)));
        assert(is_lower_hex(hex_digit(lo)));
        let head = seq![hex_digit(hi), hex_digit(lo)];
        let tail = lower_hex(data.drop_first());
        assert forall|i: int| 0 <= i < lower_hex(data).len() implies is_lower_hex(
            #[trigger] lower_hex(data)[i],
        ) by {
            if i < 2 {
                assert(lower_hex(data)[i] == head[i]);
            } else {
                assert(lower_hex(data)[i] == tail[i - 2]);
            }
        }
    }
}

/// Every hash rendered as a digest is a well-formed digest text.
pub proof fn lemma_digest_of_is_digest_text(data: Seq<u8>)
    requires
        sha256(data).len() == 32,
    ensures
        is_digest_text(digest_of(data)),
{
    lemma_lower_hex_len(sha256(data));
    lemma_lower_hex_digits(sha256(data));
    let d = digest_of(data);
    assert(d.take(7) =~= digest_prefix());
    assert forall|i: int| 7 <= i < 71 implies is_lower_hex(#[trigger] d[i]) by {
        assert(d[i] == lower_hex(sha256(data))[i - 7]);
    }
}

impl Clone for Sha256Digest {
    fn clone(&self) -> (r: Self)
        ensures
            r == *self,
    {
        Sha256Digest { text: self.text.clone() }
    }
}

/// How a rejected digest text is explained.
pub open spec fn digest_error_text(e: DigestParseError) -> Seq<char> {
    match e {
        DigestParseError::MissingPrefix => "digest must start with `sha256:`"@,
        DigestParseError::InvalidLength(n) => "digest contains "@ + crate::text::decimal(n as nat)
            + " hexadecimal digits; expected 64"@,
        DigestParseError::InvalidHex => "digest must contain lowercase hexadecimal digits only"@,
    }
}

impl DigestParseError {
    /// The human-readable explanation.
    pub fn to_display_string(&self) -> (r: String)
        ensures
            r@ == digest_error_text(*self),
    {
        match self {
            DigestParseError::MissingPrefix => String::from_str("digest must start with `sha256:`"),
            DigestParseError::InvalidLength(n) => {
                let digits = crate::text::decimal_string(*n);
                crate::text::concat3(
                    "digest contains ",
                    digits.as_str(),
                    " hexadecimal digits; expected 64",
                )
            },
            DigestParseError::InvalidHex => String::from_str(
                "digest must contain lowercase hexadecimal digits only",
            ),
        }
    }
}

impl Sha256Digest {
    /// Hashes exactly the supplied bytes.
    pub fn of_bytes(bytes: &[u8]) -> (r: Self)
        ensures
            r@ == digest_of(bytes@),
            is_digest_text(r@),
    {
        let hash = sha256_of(bytes);
        let mut text = String::new();
        push_char(&mut text, 's');
        push_char(&mut text, 'h');
        push_char(&mut text, 'a');
        push_char(&mut text, '2');
        push_char(&mut text, '5');
        push_char(&mut text, '6');
        push_char(&mut text, ':');
        assert(text@ =~= digest_prefix());
        assert(hash@.skip(0) =~= hash@);
        let mut i: usize = 0;
        while i < hash.len()
            invariant
                i <= hash@.len(),
                hash@.len() == 32,
                text@ + lower_hex(hash@.skip(i as int)) == digest_prefix() + lower_hex(hash@),
            decreases hash@.len() - i,
        {
            let b = hash[i];
            assert(hash@.skip(i as int).drop_first() =~= hash@.skip(i + 1));
            assert(hash@.skip(i as int)[0] == b);
            let ghost before = text@;
            push_char(&mut text, hex_char_of(b / 16));
            push_char(&mut text, hex_char_of(b % 16));
            assert(text@ + lower_hex(hash@.skip(i + 1)) =~= before + lower_hex(
                hash@.skip(i as int),
            ));
            i = i + 1;
        }
        assert(hash@.skip(32) =~= Seq::<u8>::empty());
        assert(text@ =~= digest_prefix() + lower_hex(hash@));
        proof {
            lemma_digest_of_is_digest_text(bytes@);
        }
        Sha256Digest { text }
    }

    /// Parses the `sha256:<64 lowercase hex digits>` representation.
    pub fn parse(value: &str) -> (r: Result<Self, DigestParseError>)
        ensures
            r matches Ok(d) ==> spec_parse_digest(value@) == Ok::<Seq<char>, DigestParseError>(d@),
            r matches Err(e) ==> spec_parse_digest(value@) == Err::<Seq<char>, DigestParseError>(e),
            r is Ok ==> is_digest_text(r->Ok_0@),
    {
        let chars = chars_of(value);
        let prefix = ['s', 'h', 'a', '2', '5', '6', ':'];
        assert(prefix@ =~= digest_prefix());
        if chars.len() < 7 {
            return Err(DigestParseError::MissingPrefix);
        }
        let mut k: usize = 0;
        while k < 7
            invariant
                k <= 7,
                chars@ == value@,
                chars@.len() >= 7,
                prefix@ == digest_prefix(),
                forall|j: int| 0 <= j < k ==> chars@[j] == prefix@[j],
            decreases 7 - k,
        {
            if chars[k] != prefix[k] {
                assert(value@.take(7)[k as int] != digest_prefix()[k as int]);
                return Err(DigestParseError::MissingPrefix);
            }
            k = k + 1;
        }
        assert(value@.take(7) =~= digest_prefix());
        let rest = value.substring_char(7, chars.len());
        assert(rest@ =~= value@.skip(7));
        let byte_len = rest.len();
        assert(rest.spec_bytes() == encode_utf8(rest@));
        if byte_len != 64 {
            return Err(DigestParseError::InvalidLength(byte_len));
        }
        let mut i: usize = 7;
        while i < chars.len()
            invariant
                7 <= i <= chars@.len(),
                chars@ == value@,
                value@.take(7) == digest_prefix(),
                encode_utf8(value@.skip(7)).len() as usize == 64,
                forall|j: int| 7 <= j < i ==> is_lower_hex(#[trigger] chars@[j]),
            decreases chars@.len() - i,
        {
            if !is_lower_hex_char(chars[i]) {
                assert(!is_lower_hex(value@[i as int]));
                return Err(DigestParseError::InvalidHex);
            }
            i = i + 1;
        }
        proof {
            lemma_ascii_utf8_len(value@.skip(7));
        }
        Ok(Sha256Digest { text: String::from_str(value) })
    }

    /// Whether two digests have the same text.
    pub fn same_as(&self, other: &Self) -> (r: bool)
        ensures
            r == (self@ == other@),
    {
        self.text == other.text
    }

    /// Returns the normalized textual representation.
    pub fn as_str(&self) -> (r: &str)
        ensures
            r@ == self@,
    {
        self.text.as_str()
    }
}

/// The UTF-8 length of a text made of ASCII characters is its character count.
pub proof fn lemma_ascii_utf8_len(s: Seq<char>)
    requires
        forall|i: int| 0 <= i < s.len() ==> (#[trigger] s[i] as u32) < 128,
    ensures
        encode_utf8(s).len() == s.len(),
    decreases s.len(),
{
    if s.len() > 0 {
        lemma_ascii_utf8_len(s.drop_first());
        assert(vstd::utf8::encode_scalar(s[0] as u32).len() == 1);
    }
}

} // verus!
