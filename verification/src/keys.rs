//! Extended keys, and what the signatory has from `bitcoin` to use them.
use crate::bytes::be_value;
use bitcoin::secp256k1;
use bitcoin::util::bip32;
use vstd::prelude::*;

verus! {

/// The order of the group that ECDSA keys belong to.
pub open spec fn group_order() -> nat {
    0xffff_ffff_ffff_ffff_ffff_ffff_ffff_fffe_baae_dce6_af48_a03b_bfd2_5e8c_d036_4141nat
}

/// Whether 32 bytes encode a secret key.
pub open spec fn valid_secret(secret: Seq<u8>) -> bool {
    &&& secret.len() == 32
    &&& 0 < be_value(secret) < group_order()
}

/// The version of an extended private key of the main network.
pub open spec fn main_private_version() -> Seq<u8> {
    seq![0x04u8, 0x88u8, 0xadu8, 0xe4u8]
}

/// The version of an extended private key of the test networks.
pub open spec fn test_private_version() -> Seq<u8> {
    seq![0x04u8, 0x35u8, 0x83u8, 0x94u8]
}

/// Whether bytes encode an extended private key: a version, a depth, the
/// fingerprint of the parent, a child number, a chain code, a zero and a secret
/// key.
pub open spec fn valid_xpriv(encoding: Seq<u8>) -> bool {
    &&& encoding.len() == 78
    &&& encoding.subrange(0, 4) == main_private_version() || encoding.subrange(0, 4)
        == test_private_version()
    &&& encoding[45] == 0
    &&& valid_secret(encoding.subrange(46, 78))
}

/// The encoding of the extended private key that `text` writes, or what is
/// wrong with `text`.
pub uninterp spec fn xpriv_of_text(text: Seq<char>) -> Result<Seq<u8>, Seq<char>>;

/// `bitcoin`'s `ExtendedPrivKey::from_str`: the key, by its encoding, or the
/// text of the error.
#[verifier::external_body]
fn parse_xpriv(text: &str) -> (r: Result<[u8; 78], String>)
    ensures
        match r {
            Ok(encoding) => {
                &&& xpriv_of_text(text@) == Ok::<Seq<u8>, Seq<char>>(encoding@)
                &&& valid_xpriv(encoding@)
            },
            Err(e) => xpriv_of_text(text@) == Err::<Seq<u8>, Seq<char>>(e@),
        },
{
    match text.parse::<bip32::ExtendedPrivKey>() {
        Ok(key) => Ok(key.encode()),
        Err(e) => Err(e.to_string()),
    }
}

/// The text that writes the extended private key with this encoding.
pub uninterp spec fn text_of_xpriv(encoding: Seq<u8>) -> Seq<char>;

/// Whether `c` is a digit of base 58: an ASCII letter or digit that is not
/// mistaken for another.
pub open spec fn is_base58_digit(c: char) -> bool {
    ('1' <= c <= '9' || 'A' <= c <= 'Z' || 'a' <= c <= 'z') && c != 'I' && c != 'O' && c != 'l'
}

/// Whether `text` is made of digits of base 58.
pub open spec fn is_base58(text: Seq<char>) -> bool {
    forall|i: int| 0 <= i < text.len() ==> is_base58_digit(#[trigger] text[i])
}

/// Whether `text` writes the extended private key with this encoding.
pub open spec fn reads_as(text: Seq<char>, encoding: Seq<u8>) -> bool {
    xpriv_of_text(text) == Ok::<Seq<u8>, Seq<char>>(encoding)
}

/// `bitcoin`'s `ExtendedPrivKey` as a string: base 58 digits, from which
/// `from_str` reads the key back.
#[verifier::external_body]
fn format_xpriv(encoding: &[u8; 78]) -> (r: String)
    requires
        valid_xpriv(encoding@),
    ensures
        r@ == text_of_xpriv(encoding@),
        is_base58(r@),
        reads_as(r@, encoding@),
{
    bip32::ExtendedPrivKey::decode(encoding).unwrap().to_string()
}

/// The encoding of the test network master key that grows from `seed`, or why
/// there is none.
pub uninterp spec fn master_xpriv(seed: Seq<u8>) -> Result<Seq<u8>, Seq<char>>;

/// `bitcoin`'s `ExtendedPrivKey::new_master` on the test network: the key, by
/// its encoding, or the text of the error. A master key has depth 0, no parent
/// and child number 0.
#[verifier::external_body]
fn new_master(seed: &[u8; 32]) -> (r: Result<[u8; 78], String>)
    ensures
        match r {
            Ok(encoding) => {
                &&& master_xpriv(seed@) == Ok::<Seq<u8>, Seq<char>>(encoding@)
                &&& valid_xpriv(encoding@)
                &&& encoding@.subrange(0, 4) == test_private_version()
                &&& forall|i: int| 4 <= i < 13 ==> #[trigger] encoding@[i] == 0
            },
            Err(e) => master_xpriv(seed@) == Err::<Seq<u8>, Seq<char>>(e@),
        },
{
    match bip32::ExtendedPrivKey::new_master(bitcoin::Network::Testnet, seed) {
        Ok(key) => Ok(key.encode()),
        Err(e) => Err(e.to_string()),
    }
}

/// The public key of a secret key, compressed.
pub uninterp spec fn public_key_of_secret(secret: Seq<u8>) -> Seq<u8>;

/// The version of the public key of an extended private key.
pub open spec fn public_version(private_version: Seq<u8>) -> Seq<u8> {
    if private_version == main_private_version() {
        seq![0x04u8, 0x88u8, 0xb2u8, 0x1eu8]
    } else {
        seq![0x04u8, 0x35u8, 0x87u8, 0xcfu8]
    }
}

/// The encoding of the extended public key of an extended private key: the
/// version, then the depth, the parent, the child number and the chain code of
/// the private key, then the public key of its secret key.
pub open spec fn xpub_of_xpriv(encoding: Seq<u8>) -> Seq<u8> {
    public_version(encoding.subrange(0, 4)) + encoding.subrange(4, 45) + public_key_of_secret(
        encoding.subrange(46, 78),
    )
}

/// `bitcoin`'s `ExtendedPubKey::from_priv`: the public key, by its encoding. It
/// has the network, the depth, the parent, the child number and the chain code
/// of the private key, and ends with the public key that `secp256k1`'s
/// `PublicKey::from_secret_key` gives for the secret key.
#[verifier::external_body]
fn public_of(encoding: &[u8; 78]) -> (r: [u8; 78])
    requires
        valid_xpriv(encoding@),
    ensures
        r@ == xpub_of_xpriv(encoding@),
        r@.subrange(45, 78) == public_key_of_secret(encoding@.subrange(46, 78)),
{
    let secp = secp256k1::Secp256k1::signing_only();
    let key = bip32::ExtendedPrivKey::decode(encoding).unwrap();
    bip32::ExtendedPubKey::from_priv(&secp, &key).encode()
}

/// The number of child keys that are derived in the ordinary way.
pub const NORMAL_CHILDREN: u32 = 0x8000_0000;

/// `n` in decimal digits, without leading zeros.
pub open spec fn decimal(n: nat) -> Seq<char>
    decreases n,
{
    let digit = (0x30 + n % 10) as char;
    if n < 10 {
        seq![digit]
    } else {
        decimal(n / 10).push(digit)
    }
}

/// What is wrong with `index`, which is not that of an ordinary child key.
pub open spec fn child_number_refusal(index: u32) -> Seq<char> {
    "child number "@ + decimal(index as nat) + " is invalid (not within [0, 2^31 - 1])"@
}

/// `bitcoin`'s `ChildNumber::from_normal_idx`: accepts exactly the indices of
/// ordinary child keys, and gives the text of the error for the others.
#[verifier::external_body]
fn check_child_number(index: u32) -> (r: Result<(), String>)
    ensures
        match r {
            Ok(()) => index < NORMAL_CHILDREN,
            Err(e) => index >= NORMAL_CHILDREN && e@ == child_number_refusal(index),
        },
{
    match bip32::ChildNumber::from_normal_idx(index) {
        Ok(_) => Ok(()),
        Err(e) => Err(e.to_string()),
    }
}

/// The public key of the ordinary child `index` of an extended public key,
/// compressed, or why it cannot be derived.
pub uninterp spec fn child_public_key(encoding: Seq<u8>, index: u32) -> Result<Seq<u8>, Seq<char>>;

/// `bitcoin`'s `ExtendedPubKey::derive_pub` for one ordinary child: its public
/// key, or the text of the error. An encoding that `ExtendedPubKey::decode`
/// refuses gives that error's text. The child's depth has to fit a byte.
#[verifier::external_body]
fn derive_public(encoding: &[u8; 78], index: u32) -> (r: Result<[u8; 33], String>)
    requires
        encoding@[4] < 255,
        index < NORMAL_CHILDREN,
    ensures
        match r {
            Ok(key) => child_public_key(encoding@, index) == Ok::<Seq<u8>, Seq<char>>(key@),
            Err(e) => child_public_key(encoding@, index) == Err::<Seq<u8>, Seq<char>>(e@),
        },
{
    let secp = secp256k1::Secp256k1::verification_only();
    let key = match bip32::ExtendedPubKey::decode(encoding) {
        Ok(key) => key,
        Err(e) => return Err(e.to_string()),
    };
    match key.derive_pub(&secp, &[bip32::ChildNumber::Normal { index }]) {
        Ok(child) => Ok(child.public_key.serialize()),
        Err(e) => Err(e.to_string()),
    }
}

/// The secret key of the ordinary child `index` of an extended private key, or
/// why it cannot be derived.
pub uninterp spec fn child_secret(encoding: Seq<u8>, index: u32) -> Result<Seq<u8>, Seq<char>>;

/// `bitcoin`'s `ExtendedPrivKey::derive_priv` for one ordinary child: its
/// secret key, or the text of the error. The child's depth has to fit a byte.
/// The public key of the child's secret key is the one that `derive_pub` derives
/// from the extended public key.
#[verifier::external_body]
fn derive_secret(encoding: &[u8; 78], index: u32) -> (r: Result<[u8; 32], String>)
    requires
        valid_xpriv(encoding@),
        encoding@[4] < 255,
        index < NORMAL_CHILDREN,
    ensures
        match r {
            Ok(secret) => {
                &&& child_secret(encoding@, index) == Ok::<Seq<u8>, Seq<char>>(secret@)
                &&& valid_secret(secret@)
                &&& child_public_key(xpub_of_xpriv(encoding@), index) == Ok::<Seq<u8>, Seq<char>>(
                    public_key_of_secret(secret@),
                )
            },
            Err(e) => child_secret(encoding@, index) == Err::<Seq<u8>, Seq<char>>(e@),
        },
{
    let secp = secp256k1::Secp256k1::signing_only();
    let key = bip32::ExtendedPrivKey::decode(encoding).unwrap();
    match key.derive_priv(&secp, &[bip32::ChildNumber::Normal { index }]) {
        Ok(child) => Ok(child.private_key.secret_bytes()),
        Err(e) => Err(e.to_string()),
    }
}

/// What is wrong with a message that is not 32 bytes long.
pub open spec fn message_refusal() -> Seq<char> {
    "secp: message was not 32 bytes (do you need to hash?)"@
}

/// `secp256k1`'s `Message::from_slice`: accepts exactly 32 bytes, and gives the
/// text of the error for any others.
#[verifier::external_body]
fn check_message(message: &Vec<u8>) -> (r: Result<(), String>)
    ensures
        match r {
            Ok(()) => message@.len() == 32,
            Err(e) => message@.len() != 32 && e@ == message_refusal(),
        },
{
    match secp256k1::Message::from_slice(message) {
        Ok(_) => Ok(()),
        Err(e) => Err(e.to_string()),
    }
}

/// The compact ECDSA signature of a message of 32 bytes under a secret key.
pub uninterp spec fn ecdsa_signature(message: Seq<u8>, secret: Seq<u8>) -> Seq<u8>;

/// Whether a compact ECDSA signature of a message of 32 bytes is valid under a
/// compressed public key.
pub uninterp spec fn ecdsa_verifies(message: Seq<u8>, signature: Seq<u8>, public_key: Seq<u8>) -> bool;

/// `secp256k1`'s `verify_ecdsa`: whether the signature is valid. Bytes that
/// encode no signature or no public key are not.
#[verifier::external_body]
fn verify_ecdsa(message: &Vec<u8>, signature: &[u8; 64], public_key: &[u8; 33]) -> (r: bool)
    requires
        message@.len() == 32,
    ensures
        r == ecdsa_verifies(message@, signature@, public_key@),
{
    let secp = secp256k1::Secp256k1::verification_only();
    let message = secp256k1::Message::from_slice(message).unwrap();
    let signature = match secp256k1::ecdsa::Signature::from_compact(signature) {
        Ok(signature) => signature,
        Err(_) => return false,
    };
    match secp256k1::PublicKey::from_slice(public_key) {
        Ok(key) => secp.verify_ecdsa(&message, &signature, &key).is_ok(),
        Err(_) => false,
    }
}

/// `secp256k1`'s `sign_ecdsa`, which takes its nonce from the message and the
/// key: the compact form of the signature. `verify_ecdsa` accepts it under the
/// public key of the secret key.
#[verifier::external_body]
fn sign_ecdsa(message: &Vec<u8>, secret: &[u8; 32]) -> (r: [u8; 64])
    requires
        message@.len() == 32,
        valid_secret(secret@),
    ensures
        r@ == ecdsa_signature(message@, secret@),
        ecdsa_verifies(message@, r@, public_key_of_secret(secret@)),
{
    let secp = secp256k1::Secp256k1::signing_only();
    let message = secp256k1::Message::from_slice(message).unwrap();
    let secret = secp256k1::SecretKey::from_slice(secret).unwrap();
    secp.sign_ecdsa(&message, &secret).serialize_compact()
}

/// An extended private key, by its encoding.
pub struct ExtendedPrivKey {
    encoding: [u8; 78],
}

/// An extended public key, by its encoding.
#[derive(Debug, Clone, Copy, PartialEq, Eq)]
pub struct ExtendedPubKey {
    pub encoding: [u8; 78],
}

impl View for ExtendedPrivKey {
    type V = Seq<u8>;

    closed spec fn view(&self) -> Seq<u8> {
        self.encoding@
    }
}

impl View for ExtendedPubKey {
    type V = Seq<u8>;

    open spec fn view(&self) -> Seq<u8> {
        self.encoding@
    }
}

/// Why a message was not signed, with the text of the error.
#[derive(Debug)]
pub enum SignError {
    /// The index is not that of an ordinary child key.
    ChildNumber(String),
    /// The child key cannot be derived.
    Derivation(String),
    /// The message is not 32 bytes long.
    Message(String),
}

pub ghost enum SignErrorView {
    ChildNumber(Seq<char>),
    Derivation(Seq<char>),
    Message(Seq<char>),
}

impl View for SignError {
    type V = SignErrorView;

    open spec fn view(&self) -> SignErrorView {
        match *self {
            SignError::ChildNumber(e) => SignErrorView::ChildNumber(e@),
            SignError::Derivation(e) => SignErrorView::Derivation(e@),
            SignError::Message(e) => SignErrorView::Message(e@),
        }
    }
}

impl SignErrorView {
    /// The text of the error.
    pub open spec fn message(self) -> Seq<char> {
        match self {
            SignErrorView::ChildNumber(e) => e,
            SignErrorView::Derivation(e) => e,
            SignErrorView::Message(e) => e,
        }
    }
}

impl SignError {
    /// The text of the error.
    pub fn message(&self) -> (r: String)
        ensures
            r@ == self@.message(),
    {
        match self {
            SignError::ChildNumber(e) => e.clone(),
            SignError::Derivation(e) => e.clone(),
            SignError::Message(e) => e.clone(),
        }
    }
}

/// What signing `message` comes to, once the secret key is known to be
/// `secret`.
pub open spec fn signed(secret: Result<Seq<u8>, Seq<char>>, message: Seq<u8>) -> Result<
    Seq<u8>,
    SignErrorView,
> {
    match secret {
        Err(e) => Err(SignErrorView::Derivation(e)),
        Ok(secret) => if message.len() != 32 {
            Err(SignErrorView::Message(message_refusal()))
        } else {
            Ok(ecdsa_signature(message, secret))
        },
    }
}

/// The signature of `message` under the ordinary child `index` of an extended
/// private key.
pub open spec fn child_signature(xpriv: Seq<u8>, message: Seq<u8>, index: u32) -> Result<
    Seq<u8>,
    SignErrorView,
> {
    if index >= NORMAL_CHILDREN {
        Err(SignErrorView::ChildNumber(child_number_refusal(index)))
    } else {
        signed(child_secret(xpriv, index), message)
    }
}

/// Whether `signature` is a signature of `message` that whoever has the extended
/// public key `xpub` can check: it is valid under the ordinary child `index`.
pub open spec fn child_verifies(
    xpub: Seq<u8>,
    message: Seq<u8>,
    index: u32,
    signature: Seq<u8>,
) -> bool {
    &&& index < NORMAL_CHILDREN
    &&& message.len() == 32
    &&& child_public_key(xpub, index) matches Ok(key)
    &&& ecdsa_verifies(message, signature, key)
}

/// A secret key, or why it could not be derived, by views.
pub open spec fn secret_view(secret: Result<[u8; 32], String>) -> Result<Seq<u8>, Seq<char>> {
    match secret {
        Ok(secret) => Ok(secret@),
        Err(e) => Err(e@),
    }
}

/// Signs `message` with a derived secret key.
pub fn sign_with(secret: Result<[u8; 32], String>, message: &Vec<u8>) -> (r: Result<
    [u8; 64],
    SignError,
>)
    requires
        secret matches Ok(secret) ==> valid_secret(secret@),
    ensures
        match r {
            Ok(signature) => {
                &&& signed(secret_view(secret), message@) == Ok::<Seq<u8>, SignErrorView>(
                    signature@,
                )
                &&& secret matches Ok(key)
                &&& message@.len() == 32
                &&& ecdsa_verifies(message@, signature@, public_key_of_secret(key@))
            },
            Err(e) => signed(secret_view(secret), message@) == Err::<Seq<u8>, SignErrorView>(e@),
        },
{
    match secret {
        Err(e) => Err(SignError::Derivation(e)),
        Ok(secret) => match check_message(message) {
            Err(e) => Err(SignError::Message(e)),
            Ok(()) => Ok(sign_ecdsa(message, &secret)),
        },
    }
}

/// Checks the signature of `message` with a derived public key.
pub fn verify_with(
    public_key: Result<[u8; 33], String>,
    message: &Vec<u8>,
    signature: &[u8; 64],
) -> (r: bool)
    ensures
        r == match public_key {
            Ok(key) => message@.len() == 32 && ecdsa_verifies(message@, signature@, key@),
            Err(_) => false,
        },
{
    match public_key {
        Ok(key) => message.len() == 32 && verify_ecdsa(message, signature, &key),
        Err(_) => false,
    }
}

impl ExtendedPubKey {
    /// Checks that `signature` is a signature of `message` under the ordinary
    /// child key `index`.
    pub fn verifies(&self, message: &Vec<u8>, index: u32, signature: &[u8; 64]) -> (r: bool)
        requires
            index < NORMAL_CHILDREN ==> ExtendedPrivKey::depth_of(self@) < 255,
        ensures
            r == child_verifies(self@, message@, index, signature@),
    {
        index < NORMAL_CHILDREN && verify_with(
            derive_public(&self.encoding, index),
            message,
            signature,
        )
    }
}

impl ExtendedPrivKey {
    #[verifier::type_invariant]
    closed spec fn inv(self) -> bool {
        valid_xpriv(self.encoding@)
    }

    /// The depth of the key below its master key.
    pub open spec fn depth_of(encoding: Seq<u8>) -> u8 {
        encoding[4]
    }

    /// Reads a key from its text.
    pub fn from_text(text: &str) -> (r: Result<Self, String>)
        ensures
            match r {
                Ok(key) => {
                    &&& xpriv_of_text(text@) == Ok::<Seq<u8>, Seq<char>>(key@)
                    &&& valid_xpriv(key@)
                },
                Err(e) => xpriv_of_text(text@) == Err::<Seq<u8>, Seq<char>>(e@),
            },
    {
        match parse_xpriv(text) {
            Ok(encoding) => Ok(ExtendedPrivKey { encoding }),
            Err(e) => Err(e),
        }
    }

    /// Grows a master key of the test network from `seed`.
    pub fn from_seed(seed: &[u8; 32]) -> (r: Result<Self, String>)
        ensures
            match r {
                Ok(key) => {
                    &&& master_xpriv(seed@) == Ok::<Seq<u8>, Seq<char>>(key@)
                    &&& valid_xpriv(key@)
                    &&& key@.subrange(0, 4) == test_private_version()
                    &&& Self::depth_of(key@) == 0
                },
                Err(e) => master_xpriv(seed@) == Err::<Seq<u8>, Seq<char>>(e@),
            },
    {
        match new_master(seed) {
            Ok(encoding) => Ok(ExtendedPrivKey { encoding }),
            Err(e) => Err(e),
        }
    }

    /// The text of the key, from which it can be read back.
    pub fn text(&self) -> (r: String)
        ensures
            r@ == text_of_xpriv(self@),
            is_base58(r@),
            reads_as(r@, self@),
    {
        proof {
            use_type_invariant(self);
        }
        format_xpriv(&self.encoding)
    }

    /// The depth of the key below its master key.
    pub fn depth(&self) -> (r: u8)
        ensures
            r == Self::depth_of(self@),
    {
        self.encoding[4]
    }

    /// The public key. It belongs to the same network and stands at the same
    /// place in the tree of keys.
    pub fn xpub(&self) -> (r: ExtendedPubKey)
        ensures
            r@ == xpub_of_xpriv(self@),
            r@.subrange(0, 4) == public_version(self@.subrange(0, 4)),
            r@.subrange(4, 45) == self@.subrange(4, 45),
            Self::depth_of(r@) == Self::depth_of(self@),
            r@.subrange(45, 78) == public_key_of_secret(self@.subrange(46, 78)),
    {
        proof {
            use_type_invariant(self);
        }
        let r = ExtendedPubKey { encoding: public_of(&self.encoding) };
        assert(r@.subrange(0, 4) =~= public_version(self@.subrange(0, 4)));
        assert(r@.subrange(4, 45) =~= self@.subrange(4, 45));
        assert(r@[4] == self@.subrange(4, 45)[0]);
        r
    }

    /// Signs `message` with the ordinary child key `index`. Whoever has the
    /// extended public key can check the signature.
    pub fn sign(&self, message: &Vec<u8>, index: u32) -> (r: Result<[u8; 64], SignError>)
        requires
            index < NORMAL_CHILDREN ==> Self::depth_of(self@) < 255,
        ensures
            match r {
                Ok(signature) => {
                    &&& child_signature(self@, message@, index) == Ok::<Seq<u8>, SignErrorView>(
                        signature@,
                    )
                    &&& child_verifies(xpub_of_xpriv(self@), message@, index, signature@)
                },
                Err(e) => child_signature(self@, message@, index) == Err::<Seq<u8>, SignErrorView>(
                    e@,
                ),
            },
    {
        if let Err(e) = check_child_number(index) {
            return Err(SignError::ChildNumber(e));
        }
        proof {
            use_type_invariant(self);
        }
        sign_with(derive_secret(&self.encoding, index), message)
    }
}

} // verus!
