//! The signatory: it keeps an extended private key, publishes the public key
//! and signs the checkpoints of the peg.
use crate::bytes::same;
use crate::keys::{
    child_signature, child_verifies, is_base58, is_base58_digit, master_xpriv, reads_as, text_of_xpriv,
    xpriv_of_text, xpub_of_xpriv, ExtendedPrivKey, ExtendedPubKey, SignError, SignErrorView,
    NORMAL_CHILDREN,
};
use vstd::prelude::*;
use vstd::string::*;
use vstd::utf8::{decode_utf8, encode_utf8, encode_utf8_decode_utf8, encode_utf8_valid_utf8, valid_utf8};

verus! {

/// An account of the peg chain.
#[derive(Debug, Clone, Copy, PartialEq, Eq)]
pub struct Address {
    pub bytes: [u8; 20],
}

/// Whether `c` has the Unicode property White_Space.
pub open spec fn is_white_space(c: char) -> bool {
    ||| 0x9 <= c as u32 <= 0xd
    ||| c as u32 == 0x20
    ||| c as u32 == 0x85
    ||| c as u32 == 0xa0
    ||| c as u32 == 0x1680
    ||| 0x2000 <= c as u32 <= 0x200a
    ||| c as u32 == 0x2028
    ||| c as u32 == 0x2029
    ||| c as u32 == 0x202f
    ||| c as u32 == 0x205f
    ||| c as u32 == 0x3000
}

/// `text` without the white space at its start and end.
pub open spec fn trimmed(text: Seq<char>) -> Seq<char>
    decreases text.len(),
{
    if text.len() > 0 && is_white_space(text.first()) {
        trimmed(text.drop_first())
    } else if text.len() > 0 && is_white_space(text.last()) {
        trimmed(text.drop_last())
    } else {
        text
    }
}

/// `str::trim`: the text without the white space at its start and end.
#[verifier::external_body]
fn trim(text: &String) -> (r: &str)
    ensures
        r@ == trimmed(text@),
{
    text.trim()
}

/// `String::from_utf8` on valid UTF-8: the text that the bytes encode.
#[verifier::external_body]
fn string_from_utf8(bytes: Vec<u8>) -> (r: String)
    requires
        valid_utf8(bytes@),
    ensures
        r@ == decode_utf8(bytes@),
{
    String::from_utf8(bytes).unwrap()
}

/// Where a signatory's key comes from.
#[derive(Debug)]
pub enum KeySource {
    /// The contents of the key file.
    File(Vec<u8>),
    /// There is no key file: a random seed.
    Seed([u8; 32]),
}

/// The key that a key file holds.
pub open spec fn key_of_file(contents: Seq<u8>) -> Result<Seq<u8>, Seq<char>> {
    xpriv_of_text(trimmed(decode_utf8(contents)))
}

/// The signatory of the account `op_addr`, with its connection to the peg.
pub struct Signer<C> {
    pub op_addr: Address,
    pub client: C,
    pub xpriv: ExtendedPrivKey,
}

/// A signatory with its key, and what is to be written to the key file.
pub struct Loaded<C> {
    pub signer: Signer<C>,
    pub key_file: Option<Vec<u8>>,
}

/// What the public key on chain asks of the signatory.
#[derive(Debug, Clone, Copy, PartialEq, Eq, Structural)]
pub enum XpubAction {
    /// Submit the local key.
    Submit,
    /// Nothing: it is the local key.
    Keep,
}

/// Why the signatory failed. What the peg reports is carried as text.
#[derive(Debug)]
pub enum SignerError {
    /// The peg has another public key for this signatory.
    XpubMismatch,
    /// A message could not be signed.
    Sign(SignError),
    /// The peg failed.
    Peg(String),
}

pub ghost enum SignerErrorView {
    XpubMismatch,
    Sign(SignErrorView),
    Peg(Seq<char>),
}

impl View for SignerError {
    type V = SignerErrorView;

    open spec fn view(&self) -> SignerErrorView {
        match *self {
            SignerError::XpubMismatch => SignerErrorView::XpubMismatch,
            SignerError::Sign(e) => SignerErrorView::Sign(e@),
            SignerError::Peg(e) => SignerErrorView::Peg(e@),
        }
    }
}

impl SignerErrorView {
    /// The text of the error.
    pub open spec fn message(self) -> Seq<char> {
        match self {
            SignerErrorView::XpubMismatch => "Local xpub does not match xpub found on chain"@,
            SignerErrorView::Sign(e) => e.message(),
            SignerErrorView::Peg(e) => e,
        }
    }
}

impl SignerError {
    /// The text of the error.
    pub fn message(&self) -> (r: String)
        ensures
            r@ == self@.message(),
    {
        match self {
            SignerError::XpubMismatch => "Local xpub does not match xpub found on chain".to_owned(),
            SignerError::Sign(e) => e.message(),
            SignerError::Peg(e) => e.clone(),
        }
    }
}

/// Text of base 58 digits has no white space to trim.
proof fn lemma_base58_trimmed(text: Seq<char>)
    requires
        is_base58(text),
    ensures
        trimmed(text) == text,
{
    if text.len() > 0 {
        assert(is_base58_digit(text[0]));
        assert(is_base58_digit(text[text.len() - 1]));
    }
}

/// A key file is read back as the key that it was written for.
pub proof fn law_key_file_read_back(text: Seq<char>, xpriv: Seq<u8>)
    requires
        is_base58(text),
        reads_as(text, xpriv),
    ensures
        valid_utf8(encode_utf8(text)),
        key_of_file(encode_utf8(text)) == Ok::<Seq<u8>, Seq<char>>(xpriv),
{
    encode_utf8_valid_utf8(text);
    encode_utf8_decode_utf8(text);
    lemma_base58_trimmed(text);
}

/// A message and the index of the child key to sign it with, by views.
pub open spec fn to_sign_view(to_sign: Seq<(Vec<u8>, u32)>) -> Seq<(Seq<u8>, u32)> {
    Seq::new(to_sign.len(), |i: int| (to_sign[i].0@, to_sign[i].1))
}

/// Signatures by views.
pub open spec fn signatures_view(signatures: Seq<[u8; 64]>) -> Seq<Seq<u8>> {
    Seq::new(signatures.len(), |i: int| signatures[i]@)
}

/// The signature of the message at position `i`.
pub open spec fn signature_at(xpriv: Seq<u8>, to_sign: Seq<(Seq<u8>, u32)>, i: int) -> Result<
    Seq<u8>,
    SignErrorView,
> {
    child_signature(xpriv, to_sign[i].0, to_sign[i].1)
}

/// Whoever has the extended public key `xpub` can check each of `sigs`: it is a
/// signature of the message at its position under the child key of its index.
pub open spec fn all_verify(
    xpub: Seq<u8>,
    to_sign: Seq<(Seq<u8>, u32)>,
    sigs: Seq<Seq<u8>>,
) -> bool {
    &&& sigs.len() == to_sign.len()
    &&& forall|i: int|
        0 <= i < sigs.len() ==> child_verifies(
            xpub,
            to_sign[i].0,
            to_sign[i].1,
            #[trigger] sigs[i],
        )
}

/// The depth of the child keys fits its byte, if one has to be derived. Signing
/// ends at the first index that is not that of an ordinary child key.
pub open spec fn derivable(xpriv: Seq<u8>, to_sign: Seq<(Seq<u8>, u32)>) -> bool {
    to_sign.len() > 0 && to_sign[0].1 < NORMAL_CHILDREN ==> ExtendedPrivKey::depth_of(xpriv) < 255
}

/// The message at position `i` is the first that cannot be signed.
pub open spec fn unsigned_at(xpriv: Seq<u8>, to_sign: Seq<(Seq<u8>, u32)>, i: int) -> bool {
    &&& 0 <= i < to_sign.len()
    &&& signature_at(xpriv, to_sign, i) is Err
    &&& forall|j: int| 0 <= j < i ==> #[trigger] signature_at(xpriv, to_sign, j) is Ok
}

/// The signatures of all the messages, in their order, or why the first that
/// cannot be signed cannot.
pub open spec fn signatures_of(xpriv: Seq<u8>, to_sign: Seq<(Seq<u8>, u32)>) -> Result<
    Seq<Seq<u8>>,
    SignErrorView,
> {
    if forall|i: int|
        0 <= i < to_sign.len() ==> #[trigger] signature_at(xpriv, to_sign, i) is Ok {
        Ok(Seq::new(to_sign.len(), |i: int| signature_at(xpriv, to_sign, i)->Ok_0))
    } else {
        let first = choose|i: int| unsigned_at(xpriv, to_sign, i);
        Err(signature_at(xpriv, to_sign, first)->Err_0)
    }
}

impl<C> Signer<C> {
    /// The signatory of `op_addr` with the key `xpriv`.
    pub fn new(op_addr: Address, client: C, xpriv: ExtendedPrivKey) -> (r: Self)
        ensures
            r.op_addr == op_addr,
            r.client == client,
            r.xpriv == xpriv,
    {
        Signer { op_addr, client, xpriv }
    }

    /// Loads the key from the key file, if there is one. Otherwise generates
    /// one from a seed, with the contents of the key file that keeps it.
    pub fn load_or_generate(op_addr: Address, client: C, source: KeySource) -> (r: Result<
        Loaded<C>,
        String,
    >)
        requires
            source matches KeySource::File(contents) ==> valid_utf8(contents@),
        ensures
            match r {
                Ok(loaded) => {
                    &&& loaded.signer.op_addr == op_addr
                    &&& loaded.signer.client == client
                    &&& match source {
                        KeySource::File(contents) => {
                            &&& key_of_file(contents@) == Ok::<Seq<u8>, Seq<char>>(
                                loaded.signer.xpriv@,
                            )
                            &&& loaded.key_file is None
                        },
                        KeySource::Seed(seed) => {
                            let key = loaded.signer.xpriv@;
                            &&& master_xpriv(seed@) == Ok::<Seq<u8>, Seq<char>>(key)
                            &&& loaded.key_file matches Some(contents)
                            &&& contents@ == encode_utf8(text_of_xpriv(key))
                            &&& valid_utf8(contents@)
                            &&& key_of_file(contents@) == Ok::<Seq<u8>, Seq<char>>(key)
                        },
                    }
                },
                Err(e) => match source {
                    KeySource::File(contents) => key_of_file(contents@) == Err::<
                        Seq<u8>,
                        Seq<char>,
                    >(e@),
                    KeySource::Seed(seed) => master_xpriv(seed@) == Err::<Seq<u8>, Seq<char>>(e@),
                },
            },
    {
        match source {
            KeySource::File(contents) => {
                let text = string_from_utf8(contents);
                match ExtendedPrivKey::from_text(trim(&text)) {
                    Ok(xpriv) => Ok(
                        Loaded { signer: Signer::new(op_addr, client, xpriv), key_file: None },
                    ),
                    Err(e) => Err(e),
                }
            },
            KeySource::Seed(seed) => match ExtendedPrivKey::from_seed(&seed) {
                Ok(xpriv) => {
                    let text = xpriv.text();
                    proof {
                        law_key_file_read_back(text@, xpriv@);
                    }
                    let key_file = text.as_str().as_bytes_vec();
                    Ok(
                        Loaded {
                            signer: Signer::new(op_addr, client, xpriv),
                            key_file: Some(key_file),
                        },
                    )
                },
                Err(e) => Err(e),
            },
        }
    }

    /// Holds the public key that the peg has for this signatory against the
    /// local one.
    pub fn maybe_submit_xpub(&self, onchain_xpub: &Option<ExtendedPubKey>) -> (r: Result<
        XpubAction,
        SignerError,
    >)
        ensures
            match *onchain_xpub {
                None => r == Ok::<XpubAction, SignerError>(XpubAction::Submit),
                Some(onchain) => if onchain@ == xpub_of_xpriv(self.xpriv@) {
                    r == Ok::<XpubAction, SignerError>(XpubAction::Keep)
                } else {
                    r matches Err(e) && e@ == SignerErrorView::XpubMismatch
                },
            },
    {
        compare_xpub(onchain_xpub, &self.xpriv.xpub())
    }

    /// Whether the messages can be handed to [`Signer::try_sign`].
    pub fn can_sign(&self, to_sign: &Vec<(Vec<u8>, u32)>) -> (r: bool)
        ensures
            r == derivable(self.xpriv@, to_sign_view(to_sign@)),
    {
        to_sign.len() == 0 || to_sign[0].1 >= NORMAL_CHILDREN || self.xpriv.depth() < 255
    }

    /// Signs the messages, each with the child key of its index. Whoever has
    /// the signatory's extended public key can check the signatures.
    pub fn try_sign(&self, to_sign: &Vec<(Vec<u8>, u32)>) -> (r: Result<Vec<[u8; 64]>, SignError>)
        requires
            derivable(self.xpriv@, to_sign_view(to_sign@)),
        ensures
            match r {
                Ok(sigs) => {
                    &&& signatures_of(self.xpriv@, to_sign_view(to_sign@)) == Ok::<
                        Seq<Seq<u8>>,
                        SignErrorView,
                    >(signatures_view(sigs@))
                    &&& all_verify(
                        xpub_of_xpriv(self.xpriv@),
                        to_sign_view(to_sign@),
                        signatures_view(sigs@),
                    )
                },
                Err(e) => signatures_of(self.xpriv@, to_sign_view(to_sign@)) == Err::<
                    Seq<Seq<u8>>,
                    SignErrorView,
                >(e@),
            },
    {
        let ghost key = self.xpriv@;
        let ghost messages = to_sign_view(to_sign@);
        let mut sigs: Vec<[u8; 64]> = Vec::new();
        let mut i: usize = 0;
        while i < to_sign.len()
            invariant
                derivable(key, messages),
                key == self.xpriv@,
                messages == to_sign_view(to_sign@),
                i <= to_sign@.len(),
                sigs@.len() == i,
                forall|j: int| 0 <= j < i ==> #[trigger] signature_at(key, messages, j) is Ok,
                forall|j: int|
                    0 <= j < i ==> (#[trigger] sigs@[j])@ == signature_at(key, messages, j)->Ok_0,
                forall|j: int|
                    0 <= j < i ==> child_verifies(
                        xpub_of_xpriv(key),
                        messages[j].0,
                        messages[j].1,
                        (#[trigger] sigs@[j])@,
                    ),
            decreases to_sign@.len() - i,
        {
            let ghost here = signature_at(key, messages, i as int);
            proof {
                if i > 0 {
                    assert(signature_at(key, messages, 0) is Ok);
                }
            }
            match self.xpriv.sign(&to_sign[i].0, to_sign[i].1) {
                Ok(sig) => {
                    sigs.push(sig);
                },
                Err(e) => {
                    proof {
                        assert(here is Err);
                        assert(unsigned_at(key, messages, i as int));
                        let k = choose|k: int| unsigned_at(key, messages, k);
                        assert(k == i) by {
                            assert(unsigned_at(key, messages, k));
                            if k < i {
                                assert(signature_at(key, messages, k) is Ok);
                            }
                            if i < k {
                                assert(signature_at(key, messages, i as int) is Ok);
                            }
                        }
                    }
                    return Err(e);
                },
            }
            i += 1;
        }
        proof {
            assert forall|j: int| 0 <= j < messages.len() implies #[trigger] signatures_view(
                sigs@,
            )[j] == signature_at(key, messages, j)->Ok_0 by {
                assert(sigs@[j]@ == signature_at(key, messages, j)->Ok_0);
            }
            assert(signatures_view(sigs@) =~= Seq::new(
                messages.len(),
                |i: int| signature_at(key, messages, i)->Ok_0,
            ));
        }
        Ok(sigs)
    }
}

/// Holds the public key that the peg has against the local one.
pub fn compare_xpub(onchain_xpub: &Option<ExtendedPubKey>, xpub: &ExtendedPubKey) -> (r: Result<
    XpubAction,
    SignerError,
>)
    ensures
        match *onchain_xpub {
            None => r == Ok::<XpubAction, SignerError>(XpubAction::Submit),
            Some(onchain) => if onchain@ == xpub@ {
                r == Ok::<XpubAction, SignerError>(XpubAction::Keep)
            } else {
                r matches Err(e) && e@ == SignerErrorView::XpubMismatch
            },
        },
{
    match onchain_xpub {
        None => Ok(XpubAction::Submit),
        Some(onchain) => if same(onchain.encoding.as_slice(), xpub.encoding.as_slice()) {
            Ok(XpubAction::Keep)
        } else {
            Err(SignerError::XpubMismatch)
        },
    }
}

} // verus!
