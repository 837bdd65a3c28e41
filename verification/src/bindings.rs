//! The calls into outside code that the library makes: Base64 decoding, lossy
//! UTF-8 decoding, SHA-256, lower-case hex encoding and URL parsing.

use vstd::prelude::*;
use base64::Engine;
use sha2::Digest;
use url::ParseError as P;
use crate::models::opt_text;

verus! {

/// What `base64::engine::general_purpose::STANDARD.decode` gives for `input`:
/// the decoded bytes, or `None` where the decoder refuses the input.
pub uninterp spec fn base64_standard_decode(input: Seq<u8>) -> Option<Seq<u8>>;

/// `base64::engine::general_purpose::STANDARD.decode`.
///
/// Trusted: the result depends on `input` alone and is named by
/// `base64_standard_decode`; which inputs the decoder accepts and what it
/// gives for them is left to that name.
#[verifier::external_body]
pub(crate) fn decode_base64(input: &[u8]) -> (r: Option<Vec<u8>>)
    ensures
        match r {
            Some(b) => base64_standard_decode(input@) == Some(b@),
            None => base64_standard_decode(input@) is None,
        },
{
    base64::engine::general_purpose::STANDARD.decode(input).ok()
}

/// What `String::from_utf8_lossy` gives for `bytes`.
pub uninterp spec fn utf8_lossy(bytes: Seq<u8>) -> Seq<char>;

/// `String::from_utf8_lossy`, made an owned string.
///
/// Trusted: the result depends on `bytes` alone and is named by `utf8_lossy`;
/// as the documentation states, valid UTF-8 comes out as the text it encodes.
/// What replaces invalid sequences is left to the name.
#[verifier::external_body]
pub(crate) fn decode_utf8_lossy(bytes: &[u8]) -> (s: String)
    ensures
        s@ == utf8_lossy(bytes@),
        vstd::utf8::valid_utf8(bytes@) ==> s@ == vstd::utf8::decode_utf8(bytes@),
{
    String::from_utf8_lossy(bytes).into_owned()
}

/// The SHA-256 digest of `data`, as `sha2::Sha256` computes it.
pub uninterp spec fn sha256_digest(data: Seq<u8>) -> Seq<u8>;

/// `sha2::Sha256`: `new`, one `update` with `data`, `finalize`.
///
/// Trusted: the digest depends on `data` alone, is named by `sha256_digest`,
/// and is 32 bytes long, the output size that `Sha256` is declared with.
#[verifier::external_body]
pub(crate) fn sha256(data: &[u8]) -> (d: Vec<u8>)
    ensures
        d@ == sha256_digest(data@),
        d@.len() == 32,
{
    let mut hasher = sha2::Sha256::new();
    hasher.update(data);
    hasher.finalize().as_slice().to_vec()
}

/// The lower-case hex digit of `n` (below 16).
pub open spec fn hex_digit(n: u8) -> char {
    if n < 10 {
        (48 + n) as char
    } else {
        (87 + n) as char
    }
}

/// `bytes` in lower-case hex, two digits per byte, high half first.
pub open spec fn hex_lower(bytes: Seq<u8>) -> Seq<char>
    decreases bytes.len(),
{
    if bytes.len() == 0 {
        seq![]
    } else {
        seq![hex_digit(bytes[0] / 16), hex_digit(bytes[0] % 16)] + hex_lower(bytes.drop_first())
    }
}

/// A lower-case hex digit.
pub open spec fn is_lower_hex(c: char) -> bool {
    ('0' <= c && c <= '9') || ('a' <= c && c <= 'f')
}

/// The hex text of `bytes` has two lower-case hex digits per byte.
pub proof fn lemma_hex_lower(bytes: Seq<u8>)
    ensures
        hex_lower(bytes).len() == 2 * bytes.len(),
        forall|i: int| 0 <= i < hex_lower(bytes).len() ==> is_lower_hex(#[trigger] hex_lower(bytes)[i]),
    decreases bytes.len(),
{
    if bytes.len() > 0 {
        lemma_hex_lower(bytes.drop_first());
        let hi = bytes[0] / 16;
        let lo = bytes[0] % 16;
        assert(hi < 16 && lo < 16);
        assert(is_lower_hex(hex_digit(hi)));
        assert(is_lower_hex(hex_digit(lo)));
        let h = hex_lower(bytes);
        let t = hex_lower(bytes.drop_first());
        assert forall|i: int| 0 <= i < h.len() implies is_lower_hex(#[trigger] h[i]) by {
            if i >= 2 {
                assert(h[i] == t[i - 2]);
            }
        }
    }
}

/// The hex text of joined bytes is the joined hex texts, and a byte becomes its
/// high half then its low half, each as the digit of its value among
/// `0123456789abcdef`.
pub proof fn lemma_hex_lower_parts(a: Seq<u8>, b: Seq<u8>, x: u8)
    ensures
        hex_lower(a + b) == hex_lower(a) + hex_lower(b),
        hex_lower(seq![x]) == seq![hex_digit(x / 16), hex_digit(x % 16)],
        (x / 16) < 10 ==> hex_digit(x / 16) as u32 == 48 + x / 16,
        (x / 16) >= 10 ==> hex_digit(x / 16) as u32 == 97 + (x / 16 - 10),
        (x % 16) < 10 ==> hex_digit(x % 16) as u32 == 48 + x % 16,
        (x % 16) >= 10 ==> hex_digit(x % 16) as u32 == 97 + (x % 16 - 10),
    decreases a.len(),
{
    if a.len() > 0 {
        lemma_hex_lower_parts(a.drop_first(), b, x);
        assert((a + b).drop_first() =~= a.drop_first() + b);
        assert((a + b)[0] == a[0]);
    } else {
        assert(a + b =~= b);
    }
    assert(seq![x].drop_first() =~= Seq::<u8>::empty());
    assert(hex_lower(Seq::<u8>::empty()) =~= Seq::<char>::empty());
    assert(hex_lower(seq![x]) =~= seq![hex_digit(x / 16), hex_digit(x % 16)]);
}

/// `hex::encode`.
///
/// Trusted: as its documentation states, each byte becomes two lower-case hex
/// digits, high half first, in the order of the bytes.
#[verifier::external_body]
pub(crate) fn hex_encode(bytes: &[u8]) -> (s: String)
    ensures
        s@ == hex_lower(bytes@),
{
    hex::encode(bytes)
}

/// The kinds of error that `url::Url::parse` reports, by the variants of
/// `url::ParseError`; `Unrecognised` stands for a variant that the parser may
/// add later.
#[derive(Debug, Clone, Copy, PartialEq, Eq, Structural)]
pub enum UrlError {
    EmptyHost,
    IdnaError,
    InvalidPort,
    InvalidIpv4Address,
    InvalidIpv6Address,
    InvalidDomainCharacter,
    RelativeUrlWithoutBase,
    RelativeUrlWithCannotBeABaseBase,
    SetHostOnCannotBeABaseUrl,
    Overflow,
    Unrecognised,
}

/// What `url::Url::parse` gives for `input`: the URL cut into scheme, host,
/// path and query, or the kind of error it reports.
pub uninterp spec fn url_parse(input: Seq<char>) -> Result<
    (Seq<char>, Option<Seq<char>>, Seq<char>, Option<Seq<char>>),
    UrlError,
>;

/// The scheme, host, path and query of `input` where it parses as an URL.
pub open spec fn url_components(input: Seq<char>) -> Option<
    (Seq<char>, Option<Seq<char>>, Seq<char>, Option<Seq<char>>),
> {
    match url_parse(input) {
        Ok(c) => Some(c),
        Err(_) => None,
    }
}

/// The parts of a parsed URL that the records keep.
pub struct UrlParts {
    pub scheme: String,
    pub host: Option<String>,
    pub path: String,
    pub query: Option<String>,
}

impl UrlParts {
    /// The parts, taken by their views.
    pub open spec fn components(&self) -> (Seq<char>, Option<Seq<char>>, Seq<char>, Option<Seq<char>>) {
        (self.scheme@, opt_text(self.host), self.path@, opt_text(self.query))
    }
}

/// `url::Url::parse`, then `scheme`, `host_str`, `path` and `query` of the
/// result, or the variant of the error.
///
/// Trusted: the result depends on `input` alone; its parts, or the kind of
/// error, are named by `url_parse`. What the URL standard makes of the input
/// is left to that name.
#[verifier::external_body]
pub(crate) fn parse_url(input: &str) -> (r: Result<UrlParts, UrlError>)
    ensures
        match r {
            Ok(p) => url_parse(input@) == Ok::<_, UrlError>(p.components()),
            Err(e) => url_parse(input@) == Err::<(Seq<char>, Option<Seq<char>>, Seq<char>, Option<Seq<char>>), UrlError>(e),
        },
{
    match url::Url::parse(input) {
        Ok(u) => Ok(UrlParts { scheme: u.scheme().to_string(), host: u.host_str().map(str::to_string), path: u.path().to_string(), query: u.query().map(str::to_string) }),
        Err(e) => Err(match e {
            P::EmptyHost => UrlError::EmptyHost,
            P::IdnaError => UrlError::IdnaError,
            P::InvalidPort => UrlError::InvalidPort,
            P::InvalidIpv4Address => UrlError::InvalidIpv4Address,
            P::InvalidIpv6Address => UrlError::InvalidIpv6Address,
            P::InvalidDomainCharacter => UrlError::InvalidDomainCharacter,
            P::RelativeUrlWithoutBase => UrlError::RelativeUrlWithoutBase,
            P::RelativeUrlWithCannotBeABaseBase => UrlError::RelativeUrlWithCannotBeABaseBase,
            P::SetHostOnCannotBeABaseUrl => UrlError::SetHostOnCannotBeABaseUrl,
            P::Overflow => UrlError::Overflow, _ => UrlError::Unrecognised,
        }),
    }
}

} // verus!
