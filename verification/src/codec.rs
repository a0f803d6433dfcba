//! Symmetric encryption of message bodies between two identities.
//!
//! Both directions of a conversation use one shared secret, derived from one
//! party's secret key and the other's public key; the derivation is symmetric
//! in the pair, so a body encrypted with `(sender secret, receiver public)`
//! decrypts with `(receiver secret, sender public)`. The cipher itself is
//! NIP-04 as implemented by the `nostr` crate; this module only names its
//! outcome and carries the round trip through the contracts.

use vstd::prelude::*;
use crate::keys::{sec_key_ok, pub_key_of, pub_key_usable, Keypair};

verus! {

/// The plaintext that `nostr::nips::nip04::decrypt` recovers from
/// `ciphertext` under the secret key string `sk` and public key string `pk`
/// (`None` where a key string is rejected, the envelope is malformed, or
/// authentication fails). Decryption is a deterministic function of the
/// three strings.
pub uninterp spec fn nip04_plain(sk: Seq<char>, pk: Seq<char>, ciphertext: Seq<char>) -> Option<
    Seq<char>,
>;

/// The view of an optional owned string.
pub open spec fn opt_str_view(o: Option<String>) -> Option<Seq<char>> {
    match o {
        Some(s) => Some(s@),
        None => None,
    }
}

/// Relies on `nostr::nips::nip04::decrypt`, with `SecretKey::parse` and
/// `PublicKey::parse` on the key strings: the outcome depends on the three
/// strings alone, and success implies both keys were accepted and a shared
/// secret was derived.
#[verifier::external_body]
fn nip04_decrypt_call(secret: &String, public: &String, ciphertext: &String) -> (r: Option<String>)
    ensures
        opt_str_view(r) == nip04_plain(secret@, public@, ciphertext@),
        r is Some ==> sec_key_ok(secret@) && pub_key_usable(public@),
{
    let sk = match nostr::key::SecretKey::parse(secret.as_str()) {
        Ok(k) => k,
        Err(_) => return None,
    };
    let pk = match nostr::key::PublicKey::parse(public.as_str()) {
        Ok(k) => k,
        Err(_) => return None,
    };
    nostr::nips::nip04::decrypt(&sk, &pk, ciphertext.as_str()).ok()
}

/// The envelope `ct`, sent from the identity whose public key is
/// `sender_public`, decrypts to `plain` under every secret key matching the
/// public key `recipient_public`.
pub open spec fn round_trips(
    recipient_public: Seq<char>,
    sender_public: Seq<char>,
    ct: Seq<char>,
    plain: Seq<char>,
) -> bool {
    forall|rsk: Seq<char>|
        sec_key_ok(rsk) && pub_key_of(rsk) == recipient_public ==> nip04_plain(
            rsk,
            sender_public,
            ct,
        ) == Some(plain)
}

/// Relies on `nostr::nips::nip04::encrypt`, with `SecretKey::parse` and
/// `PublicKey::parse` on the key strings. Encryption fails exactly when a key
/// string is rejected or no shared secret can be derived. The envelope varies
/// from call to call (a random IV), but every envelope it returns decrypts,
/// under any secret key whose public key is `public` and the sender's public
/// key, to the plaintext: the shared secret is derived from the x-coordinate
/// of the ECDH point, which is the same for both derivation directions.
#[verifier::external_body]
fn nip04_encrypt_call(secret: &String, public: &String, plaintext: &String) -> (r: Option<String>)
    ensures
        r is Some <==> (sec_key_ok(secret@) && pub_key_usable(public@)),
        r matches Some(ct) ==> round_trips(public@, pub_key_of(secret@), ct@, plaintext@),
{
    let sk = match nostr::key::SecretKey::parse(secret.as_str()) {
        Ok(k) => k,
        Err(_) => return None,
    };
    let pk = match nostr::key::PublicKey::parse(public.as_str()) {
        Ok(k) => k,
        Err(_) => return None,
    };
    nostr::nips::nip04::encrypt(&sk, &pk, plaintext.as_str()).ok()
}

/// A ciphertext envelope that could not be decrypted: malformed, tampered
/// with, or addressed to a different key pair.
pub struct DecryptionError;

/// Encrypt `plaintext` from `sender` to the identity behind
/// `recipient_public`. Fails exactly when `recipient_public` is not a usable
/// public key; every envelope returned decrypts back to `plaintext` under a
/// matching receiver secret and the sender's public key (round trip).
pub fn encrypt(sender: &Keypair, recipient_public: &String, plaintext: &String) -> (r: Option<
    String,
>)
    ensures
        r is Some <==> pub_key_usable(recipient_public@),
        r matches Some(ct) ==> round_trips(
            recipient_public@,
            sender.public_view(),
            ct@,
            plaintext@,
        ),
{
    proof {
        use_type_invariant(sender);
        sender.wf_facts();
    }
    nip04_encrypt_call(sender.secret_key_str(), recipient_public, plaintext)
}

/// Decrypt an envelope addressed to `receiver` from the identity behind
/// `sender_public`. Returns the plaintext exactly when NIP-04 decryption
/// recovers one; fails with [`DecryptionError`] otherwise.
pub fn decrypt(receiver: &Keypair, sender_public: &String, ciphertext: &String) -> (r: Result<
    String,
    DecryptionError,
>)
    ensures
        match r {
            Ok(p) => nip04_plain(receiver.secret_view(), sender_public@, ciphertext@) == Some(p@),
            Err(_) => nip04_plain(receiver.secret_view(), sender_public@, ciphertext@) is None,
        },
        r is Ok ==> pub_key_usable(sender_public@),
{
    match nip04_decrypt_call(receiver.secret_key_str(), sender_public, ciphertext) {
        Some(p) => Ok(p),
        None => Err(DecryptionError),
    }
}

} // verus!
