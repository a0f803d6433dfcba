//! Long-lived asymmetric identities.
//!
//! A [`Keypair`] holds a secret key as the string it was configured with
//! (hex or bech32) together with the hex public key derived from it. Both
//! correspondents of the wallet-connect channel are such identities; the
//! derivation itself is done by the `nostr` crate and is only named here.

use vstd::prelude::*;

verus! {

/// Whether `nostr::key::SecretKey::parse` accepts the string `s`.
pub uninterp spec fn sec_key_ok(s: Seq<char>) -> bool;

/// The hex public key that `nostr::key::Keys::public_key` derives from the
/// secret key parsed out of `s` (meaningful when `sec_key_ok(s)` holds).
pub uninterp spec fn pub_key_of(s: Seq<char>) -> Seq<char>;

/// Whether `nostr::key::PublicKey::parse` accepts `s` *and* the parsed key
/// denotes a point for which `nostr`'s NIP-04 shared-secret derivation
/// (`util::generate_shared_key`) succeeds.
pub uninterp spec fn pub_key_usable(s: Seq<char>) -> bool;

/// Relies on `nostr::key::Keys::parse` and `Keys::public_key`: parsing either
/// fails or yields one key pair, deterministically in `secret`; the derived
/// public key is the x-coordinate of a curve point, so its hex form parses
/// again and supports shared-secret derivation.
#[verifier::external_body]
fn derive_public_key(secret: &String) -> (r: Option<String>)
    ensures
        r is Some <==> sec_key_ok(secret@),
        r matches Some(p) ==> p@ == pub_key_of(secret@) && pub_key_usable(p@),
{
    match nostr::key::Keys::parse(secret.as_str()) {
        Ok(keys) => Some(keys.public_key().to_hex()),
        Err(_) => None,
    }
}

/// One long-lived identity: the secret key string it was loaded from and the
/// public key derived from it.
pub struct Keypair {
    secret: String,
    public: String,
}

impl Keypair {
    /// Every identity value satisfies this: the secret key string parses and
    /// the public key is the one derived from it.
    #[verifier::type_invariant]
    pub closed spec fn wf(self) -> bool {
        &&& sec_key_ok(self.secret@)
        &&& self.public@ == pub_key_of(self.secret@)
        &&& pub_key_usable(self.public@)
    }

    /// What a well-formed identity guarantees about its two views.
    pub proof fn wf_facts(self)
        requires
            self.wf(),
        ensures
            sec_key_ok(self.secret_view()),
            self.public_view() == pub_key_of(self.secret_view()),
            pub_key_usable(self.public_view()),
    {
    }

    /// The secret key string this identity was loaded from.
    pub closed spec fn secret_view(self) -> Seq<char> {
        self.secret@
    }

    /// The hex public key of this identity.
    pub closed spec fn public_view(self) -> Seq<char> {
        self.public@
    }

    /// Load an identity from its secret key string; rejected exactly when the
    /// string is not a secret key.
    pub fn from_secret(secret: String) -> (r: Option<Keypair>)
        ensures
            r is Some <==> sec_key_ok(secret@),
            r matches Some(kp) ==> kp.secret_view() == secret@ && kp.public_view() == pub_key_of(
                secret@,
            ),
    {
        match derive_public_key(&secret) {
            Some(public) => Some(Keypair { secret, public }),
            None => None,
        }
    }

    /// The hex public key, for filters, tags and connection strings.
    pub fn public_key_hex(&self) -> (r: &String)
        ensures
            r@ == self.public_view(),
    {
        &self.public
    }

    /// The secret key string, for handing to the signing transport.
    pub fn secret_key_str(&self) -> (r: &String)
        ensures
            r@ == self.secret_view(),
    {
        &self.secret
    }
}

} // verus!
