//! The interface to the Tink cryptography library: key generation, keyset
//! (de)serialization, ECDSA signing and verification. Everything the rest of
//! the compiler needs from Tink passes through the trusted declarations and
//! wrappers of this module; each wrapper's body only makes the named calls
//! and converts their arguments and results.

use vstd::prelude::*;

verus! {

#[verifier::external_type_specification]
#[verifier::external_body]
pub struct ExKeysetHandle(tink_core::keyset::Handle);

#[verifier::external_type_specification]
#[verifier::external_body]
pub struct ExTinkError(tink_core::TinkError);

/// Relies on tink_signature::init: registers the signature key managers;
/// must run before keys are made or used.
#[verifier::external_body]
pub fn init_signature() {
    tink_signature::init();
}

/// Relies on tink_core::keyset::Handle::new and
/// tink_signature::ecdsa_p256_key_template: generates a fresh ECDSA P-256
/// signing keypair. The result depends on fresh randomness, so nothing is
/// promised of it.
#[verifier::external_body]
pub fn new_ecdsa_keypair_handle() -> (r: Result<tink_core::keyset::Handle, tink_core::TinkError>) {
    tink_core::keyset::Handle::new(&tink_signature::ecdsa_p256_key_template())
}

/// Relies on tink_core::keyset::Handle::public: the public half of a
/// keypair.
#[verifier::external_body]
pub fn public_keyset_handle(h: &tink_core::keyset::Handle) -> (r: Result<
    tink_core::keyset::Handle,
    tink_core::TinkError,
>) {
    h.public()
}

/// Relies on tink_core::keyset::insecure::write with a JSON writer:
/// serializes a keyset, private material included, as JSON bytes.
#[verifier::external_body]
pub fn keyset_to_json(h: &tink_core::keyset::Handle) -> (r: Result<Vec<u8>, tink_core::TinkError>) {
    let mut buf: Vec<u8> = Vec::new();
    let mut writer = tink_core::keyset::JsonWriter::new(&mut buf);
    match tink_core::keyset::insecure::write(h, &mut writer) {
        Ok(()) => Ok(buf),
        Err(e) => Err(e),
    }
}

/// Whether these bytes are a well-formed cleartext JSON keyset: parseable,
/// non-empty, and carrying valid key material types. Parsing consults
/// nothing but the bytes, so its outcome has a name.
pub uninterp spec fn keyset_json_wf(bytes: Seq<u8>) -> bool;

/// Relies on tink_core::keyset::insecure::read with a JSON reader: parses a
/// keyset from JSON bytes. The parse and its validation are a function of
/// the bytes alone, so it succeeds exactly on well-formed keyset JSON.
#[verifier::external_body]
pub fn keyset_from_json(bytes: &Vec<u8>) -> (r: Result<
    tink_core::keyset::Handle,
    tink_core::TinkError,
>)
    ensures
        r is Ok <==> keyset_json_wf(bytes@),
{
    let mut reader = tink_core::keyset::JsonReader::new(std::io::Cursor::new(bytes));
    tink_core::keyset::insecure::read(&mut reader)
}

/// Relies on tink_signature::new_signer and tink_core::Signer::sign:
/// signs `data` with the private key of the keyset. ECDSA signatures are
/// randomized, so nothing is promised of the bytes.
#[verifier::external_body]
pub fn sign_bytes(h: &tink_core::keyset::Handle, data: &Vec<u8>) -> (r: Result<
    Vec<u8>,
    tink_core::TinkError,
>) {
    let signer = tink_signature::new_signer(h)?;
    signer.sign(data)
}

/// Relies on tink_signature::new_verifier and tink_core::Verifier::verify:
/// `Ok` exactly when `signature` is a valid signature for `data` under the
/// keyset's public key; whether that holds is the library's decision, so
/// nothing more is promised.
#[verifier::external_body]
pub fn verify_bytes(
    h: &tink_core::keyset::Handle,
    signature: &Vec<u8>,
    data: &Vec<u8>,
) -> (r: Result<(), tink_core::TinkError>) {
    let verifier = tink_signature::new_verifier(h)?;
    verifier.verify(signature, data)
}

} // verus!
