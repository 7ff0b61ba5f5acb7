use aes_gcm::aead::{Aead, KeyInit};
use aes_gcm::{Aes256Gcm, Key, Nonce};
use vstd::prelude::*;
use vstd::slice::slice_to_vec;
use vstd::utf8::*;

use crate::error::DkkError;
use crate::text::{fillers, left_pad, lemma_padded_bytes, padded, padded_bytes, FILLER};

verus! {

broadcast use {encode_utf8_valid_utf8, encode_utf8_decode_utf8, decode_utf8_encode_utf8};

/// The length of the cipher key, in bytes.
pub const KEY_LEN: usize = 32;

/// The length of the nonce, in bytes.
pub const NONCE_LEN: usize = 12;

/// The length of the authentication tag that ends a ciphertext, in bytes.
pub const TAG_LEN: usize = 16;

/// The largest message that AES-256-GCM seals, in bytes.
pub const SEAL_LIMIT: u64 = 68719476736;

/// `aes_gcm::Error` (aead's opaque error), carried only to be mapped to an
/// error of this library.
#[verifier::external_type_specification]
#[verifier::external_body]
pub struct ExAeadError(aes_gcm::Error);

/// The ciphertext, tag included, that AES-256-GCM makes of `msg` under `key`
/// and `nonce`.
pub uninterp spec fn gcm_sealed(key: Seq<u8>, nonce: Seq<u8>, msg: Seq<u8>) -> Seq<u8>;

/// Relies on `Aead::encrypt` of `aes_gcm::Aes256Gcm`: it fails exactly when
/// the message is longer than 2^36 bytes, and otherwise returns the
/// ciphertext that key, nonce and message determine: the encrypted message
/// followed by the 16-byte tag.
#[verifier::external_body]
fn gcm_encrypt(key: &[u8], nonce: &[u8], msg: &[u8]) -> (r: Result<Vec<u8>, aes_gcm::Error>)
    requires
        key@.len() == KEY_LEN,
        nonce@.len() == NONCE_LEN,
    ensures
        r is Ok <==> msg@.len() <= SEAL_LIMIT,
        r matches Ok(c) ==> c@ == gcm_sealed(key@, nonce@, msg@),
        r matches Ok(c) ==> c@.len() == msg@.len() + TAG_LEN,
{
    let cipher = Aes256Gcm::new(Key::<Aes256Gcm>::from_slice(key));
    cipher.encrypt(Nonce::from_slice(nonce), msg)
}

/// Whether a decryption released exactly `m`.
pub open spec fn opens_to(r: Result<Vec<u8>, aes_gcm::Error>, m: Seq<u8>) -> bool {
    r matches Ok(p) && p@ == m
}

/// Relies on `Aead::decrypt` of `aes_gcm::Aes256Gcm`: it releases a
/// plaintext only when the ciphertext authenticates, and then releases the
/// message that seals to that ciphertext; so what `encrypt` sealed under the
/// same key and nonce opens to the message it sealed.
#[verifier::external_body]
fn gcm_decrypt(key: &[u8], nonce: &[u8], sealed: &[u8]) -> (r: Result<Vec<u8>, aes_gcm::Error>)
    requires
        key@.len() == KEY_LEN,
        nonce@.len() == NONCE_LEN,
    ensures
        r matches Ok(p) ==> sealed@ == gcm_sealed(key@, nonce@, p@),
        forall|m: Seq<u8>|
            m.len() <= SEAL_LIMIT && sealed@ == #[trigger] gcm_sealed(key@, nonce@, m) ==> opens_to(r, m),
{
    let cipher = Aes256Gcm::new(Key::<Aes256Gcm>::from_slice(key));
    cipher.decrypt(Nonce::from_slice(nonce), sealed)
}

/// Relies on `String::from_utf8`: it accepts exactly the valid UTF-8 byte
/// strings, and the text holds the characters they encode.
#[verifier::external_body]
fn utf8_text(bytes: Vec<u8>) -> (r: Option<String>)
    ensures
        r is Some <==> valid_utf8(bytes@),
        r matches Some(s) ==> s@ == decode_utf8(bytes@),
{
    String::from_utf8(bytes).ok()
}

/// The `len`-byte parameter derived from a credential: its UTF-8 form,
/// left-padded with spaces; none when the credential is longer.
pub open spec fn derived(credential: Seq<char>, len: nat) -> Option<Seq<u8>> {
    if encode_utf8(credential).len() <= len {
        Some(padded_bytes(encode_utf8(credential), len))
    } else {
        None
    }
}

/// Derives the `len`-byte cipher parameter from a credential by left-padding
/// it with spaces; a credential longer than `len` bytes is refused.
pub fn derive_parameter(credential: &String, len: usize) -> (r: Result<Vec<u8>, DkkError>)
    ensures
        match derived(credential@, len as nat) {
            Some(p) => r matches Ok(v) && v@ == p,
            None => r == Err::<Vec<u8>, DkkError>(DkkError::CredentialTooLong),
        },
{
    if credential.as_str().as_bytes().len() > len {
        return Err(DkkError::CredentialTooLong);
    }
    let p = left_pad(credential, len);
    proof {
        lemma_padded_bytes(credential@, len as nat);
    }
    Ok(slice_to_vec(p.as_str().as_bytes()))
}

/// What sealing a wallet's snapshot text gives: the AES-256-GCM ciphertext
/// of its UTF-8 form, under the key derived from `key` (32 bytes) and the
/// nonce derived from `pin` (12 bytes).
pub open spec fn sealed_snapshot(text: Seq<char>, pin: Seq<char>, key: Seq<char>) -> Result<
    Seq<u8>,
    DkkError,
> {
    match (derived(key, KEY_LEN as nat), derived(pin, NONCE_LEN as nat)) {
        (Some(k), Some(n)) => if encode_utf8(text).len() <= SEAL_LIMIT {
            Ok(gcm_sealed(k, n, encode_utf8(text)))
        } else {
            Err(DkkError::TooLarge)
        },
        _ => Err(DkkError::CredentialTooLong),
    }
}

/// What opening `sealed` may give: with both parameters derived, a text
/// only when `sealed` is its sealed form, and for a sealed form, the text
/// sealed (or `Utf8` when the sealed bytes were no text); otherwise only
/// `NotAuthorized` or `Utf8`.
pub open spec fn opened_snapshot(
    sealed: Seq<u8>,
    pin: Seq<char>,
    key: Seq<char>,
    r: Result<Seq<char>, DkkError>,
) -> bool {
    match (derived(key, KEY_LEN as nat), derived(pin, NONCE_LEN as nat)) {
        (Some(k), Some(n)) => {
            &&& r matches Ok(t) ==> sealed == gcm_sealed(k, n, encode_utf8(t))
            &&& r matches Err(e) ==> (e == DkkError::NotAuthorized || e == DkkError::Utf8)
            &&& forall|m: Seq<u8>|
                m.len() <= SEAL_LIMIT && sealed == #[trigger] gcm_sealed(k, n, m) ==> r == if valid_utf8(
                    m,
                ) {
                    Ok::<Seq<char>, DkkError>(decode_utf8(m))
                } else {
                    Err::<Seq<char>, DkkError>(DkkError::Utf8)
                }
        },
        _ => r == Err::<Seq<char>, DkkError>(DkkError::CredentialTooLong),
    }
}

/// The view of an opened snapshot.
pub open spec fn text_result(r: Result<String, DkkError>) -> Result<Seq<char>, DkkError> {
    match r {
        Ok(s) => Ok(s@),
        Err(e) => Err(e),
    }
}

/// Seals a wallet's snapshot text for storage: AES-256-GCM under the key
/// derived from `key` and the nonce derived from `pin`. The result holds no
/// header, version or nonce: only the ciphertext and its 16-byte tag.
pub fn seal_snapshot(text: &String, pin: &String, key: &String) -> (r: Result<Vec<u8>, DkkError>)
    ensures
        match sealed_snapshot(text@, pin@, key@) {
            Ok(c) => r matches Ok(v) && v@ == c,
            Err(e) => r == Err::<Vec<u8>, DkkError>(e),
        },
        r matches Ok(v) ==> v@.len() == encode_utf8(text@).len() + TAG_LEN,
{
    let k = derive_parameter(key, KEY_LEN)?;
    let n = derive_parameter(pin, NONCE_LEN)?;
    match gcm_encrypt(k.as_slice(), n.as_slice(), text.as_str().as_bytes()) {
        Ok(c) => Ok(c),
        Err(_) => Err(DkkError::TooLarge),
    }
}

/// Opens a sealed snapshot with the key derived from `key` and the nonce
/// derived from `pin`: `NotAuthorized` when it does not authenticate,
/// `Utf8` when what it holds is no text.
pub fn open_snapshot(sealed: &Vec<u8>, pin: &String, key: &String) -> (r: Result<String, DkkError>)
    ensures
        opened_snapshot(sealed@, pin@, key@, text_result(r)),
{
    let k = derive_parameter(key, KEY_LEN)?;
    let n = derive_parameter(pin, NONCE_LEN)?;
    match gcm_decrypt(k.as_slice(), n.as_slice(), sealed.as_slice()) {
        Ok(p) => {
            match utf8_text(p) {
                Some(s) => Ok(s),
                None => Err(DkkError::Utf8),
            }
        },
        Err(_) => Err(DkkError::NotAuthorized),
    }
}

/// Opening what sealing produced, with the same pin and key, gives back
/// the same text.
pub proof fn lemma_round_trip(
    text: Seq<char>,
    pin: Seq<char>,
    key: Seq<char>,
    opened: Result<Seq<char>, DkkError>,
)
    requires
        sealed_snapshot(text, pin, key) is Ok,
        opened_snapshot(sealed_snapshot(text, pin, key)->Ok_0, pin, key, opened),
    ensures
        opened == Ok::<Seq<char>, DkkError>(text),
{
    let k = derived(key, KEY_LEN as nat)->Some_0;
    let n = derived(pin, NONCE_LEN as nat)->Some_0;
    let m = encode_utf8(text);
    assert(gcm_sealed(k, n, m) == sealed_snapshot(text, pin, key)->Ok_0);
}

/// A credential padded to `len` bytes is the filler repeated, then the
/// credential itself.
proof fn lemma_padded_shape(s: Seq<char>, len: nat)
    requires
        encode_utf8(s).len() <= len,
    ensures
        padded(s, len) == fillers((len - encode_utf8(s).len()) as nat) + s,
{
    if encode_utf8(s).len() == len {
        assert(fillers(0) + s =~= s);
    }
}

/// Two different credentials, neither of which begins with the filler,
/// derive different parameters.
pub proof fn lemma_distinct_credentials(a: Seq<char>, b: Seq<char>, len: nat)
    requires
        a != b,
        a.len() == 0 || a[0] != FILLER,
        b.len() == 0 || b[0] != FILLER,
        derived(a, len) is Some,
        derived(b, len) is Some,
    ensures
        derived(a, len) != derived(b, len),
{
    let p = (len - encode_utf8(a).len()) as nat;
    let q = (len - encode_utf8(b).len()) as nat;
    lemma_padded_shape(a, len);
    lemma_padded_shape(b, len);
    lemma_padded_bytes(a, len);
    lemma_padded_bytes(b, len);
    let pa = padded(a, len);
    let pb = padded(b, len);
    if derived(a, len) == derived(b, len) {
        assert(encode_utf8(pa) == encode_utf8(pb));
        assert(decode_utf8(encode_utf8(pa)) == pa);
        assert(pa == pb);
        if p == q {
            assert(a =~= pa.subrange(p as int, pa.len() as int));
            assert(b =~= pb.subrange(q as int, pb.len() as int));
        } else if p < q {
            assert(pb[p as int] == FILLER);
            assert(pa[p as int] == a[0]);
        } else {
            assert(pa[q as int] == FILLER);
            assert(pb[q as int] == b[0]);
        }
    }
}

} // verus!
