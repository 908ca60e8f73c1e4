//! The digests, codes and comparisons that authentication takes from outside crates.
use vstd::prelude::*;

verus! {

/// The text that the `STANDARD` engine of `base64` writes for some bytes.
pub uninterp spec fn base64_text(bytes: Seq<u8>) -> Seq<char>;

/// The bytes that the `STANDARD` engine of `base64` reads from a text, where it accepts it.
pub uninterp spec fn base64_bytes(text: Seq<char>) -> Option<Seq<u8>>;

/// The MD5 digest of some bytes, as `md5::Md5` computes it.
pub uninterp spec fn md5_of(bytes: Seq<u8>) -> Seq<u8>;

/// The SHA-256 digest of some bytes, as `sha2::Sha256` computes it.
pub uninterp spec fn sha256_of(bytes: Seq<u8>) -> Seq<u8>;

/// The HMAC with SHA-256 of some bytes under a key, as `hmac::Hmac<Sha256>` computes it.
pub uninterp spec fn hmac_of(key: Seq<u8>, bytes: Seq<u8>) -> Seq<u8>;

/// The first 32 bytes of PBKDF2 with HMAC-SHA-256, as `pbkdf2::pbkdf2_hmac` computes them.
pub uninterp spec fn pbkdf2_of(password: Seq<u8>, salt: Seq<u8>, rounds: u32) -> Seq<u8>;

/// The characters of the standard base64 alphabet, with the padding character.
pub open spec fn in_base64_alphabet(c: char) -> bool {
    ||| 'A' <= c <= 'Z'
    ||| 'a' <= c <= 'z'
    ||| '0' <= c <= '9'
    ||| c == '+'
    ||| c == '/'
    ||| c == '='
}

/// Calls `Engine::encode` of `base64`'s `STANDARD`. The text is over the standard alphabet, and
/// the same engine decodes it to the bytes that it was made of. (The call's size computation
/// cannot overflow: a slice holds at most `isize::MAX` bytes.)
#[verifier::external_body]
pub(crate) fn base64_encode(bytes: &[u8]) -> (r: String)
    ensures
        r@ == base64_text(bytes@),
        base64_bytes(r@) == Some(bytes@),
        forall|i: int| 0 <= i < r@.len() ==> in_base64_alphabet(#[trigger] r@[i]),
{
    base64::Engine::encode(&base64::engine::general_purpose::STANDARD, bytes)
}

/// Calls `Engine::decode` of `base64`'s `STANDARD`: the bytes, or nothing where the text is not
/// what that engine accepts.
#[verifier::external_body]
pub(crate) fn base64_decode(text: &str) -> (r: Option<Vec<u8>>)
    ensures
        r is Some <==> base64_bytes(text@) is Some,
        r is Some ==> Some(r->Some_0@) == base64_bytes(text@),
{
    base64::Engine::decode(&base64::engine::general_purpose::STANDARD, text).ok()
}

/// Calls `Md5::digest`, whose result has sixteen bytes.
#[verifier::external_body]
pub(crate) fn md5_digest(bytes: &[u8]) -> (r: [u8; 16])
    ensures
        r@ == md5_of(bytes@),
{
    <md5::Md5 as md5::Digest>::digest(bytes).into()
}

/// Calls `Sha256::digest`, whose result has 32 bytes.
#[verifier::external_body]
pub(crate) fn sha256_digest(bytes: &[u8]) -> (r: [u8; 32])
    ensures
        r@ == sha256_of(bytes@),
{
    <sha2::Sha256 as sha2::Digest>::digest(bytes).into()
}

/// Calls `Hmac::<Sha256>::new_from_slice`, which accepts a key of any length, then `update` and
/// `finalize`.
#[verifier::external_body]
pub(crate) fn hmac_sha256(key: &[u8], data: &[u8]) -> (r: [u8; 32])
    ensures
        r@ == hmac_of(key@, data@),
{
    let mut mac = <hmac::Hmac<sha2::Sha256> as hmac::KeyInit>::new_from_slice(key)
        .expect("HMAC accepts any key length");
    hmac::Mac::update(&mut mac, data);
    hmac::Mac::finalize(mac).into_bytes().into()
}

/// Calls `pbkdf2::pbkdf2_hmac::<Sha256>` for 32 bytes of output.
#[verifier::external_body]
pub(crate) fn pbkdf2_sha256(password: &[u8], salt: &[u8], rounds: u32) -> (r: [u8; 32])
    ensures
        r@ == pbkdf2_of(password@, salt@, rounds),
{
    let mut output = [0_u8; 32];
    pbkdf2::pbkdf2_hmac::<sha2::Sha256>(password, salt, rounds, &mut output);
    output
}

/// Calls `ConstantTimeEq::ct_eq` of `subtle` on byte slices: whether both have the same length
/// and the same bytes.
#[verifier::external_body]
pub(crate) fn constant_time_eq(a: &[u8], b: &[u8]) -> (r: bool)
    ensures
        r == (a@ == b@),
{
    subtle::ConstantTimeEq::ct_eq(a, b).into()
}

/// Calls `getrandom::fill` on `N` bytes. Nothing is said of which bytes come back: they are the
/// system's random bytes, or none where the system has none to give.
#[verifier::external_body]
pub(crate) fn random_bytes<const N: usize>() -> (r: Option<[u8; N]>) {
    let mut bytes = [0_u8; N];
    getrandom::fill(&mut bytes).ok().map(|()| bytes)
}

} // verus!
