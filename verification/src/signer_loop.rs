//! The rounds of the signatory.
//!
//! A round checks the public key on chain, then signs what there is to sign,
//! then waits. What fails while the key is checked ends the signatory. What
//! fails while signing is reported, and the rounds go on.
use crate::keys::{child_signature, xpub_of_xpriv, ExtendedPubKey, SignErrorView};
use crate::signer::{
    all_verify, derivable, signature_at, signatures_of, signatures_view, to_sign_view, Signer, SignerError,
    SignerErrorView, XpubAction,
};
use vstd::prelude::*;

verus! {

/// The seconds between two rounds.
pub const ROUND_SECONDS: u64 = 5;

/// What the signatory asks of its surroundings next. `K` is a consensus key.
#[derive(Debug)]
pub enum SignerState<K> {
    /// The consensus key of the signatory's account.
    FindConsensusKey,
    /// The extended public key that the peg has for `cons_key`.
    FindOnchainXpub { cons_key: K },
    /// To submit the local extended public key `xpub`.
    SubmitXpub { xpub: ExtendedPubKey },
    /// Whether a checkpoint is being signed.
    FindSigning,
    /// The messages that the signatory with the key `xpub` has yet to sign.
    FindToSign { xpub: ExtendedPubKey },
    /// To submit these signatures for the key `xpub`.
    SubmitSignatures { xpub: ExtendedPubKey, sigs: Vec<[u8; 64]> },
    /// To report what failed, if anything did, and wait.
    Sleep { failed: Option<SignerError> },
    /// Nothing: the signatory has ended.
    Stopped { error: SignerError },
}

/// What the surroundings answer.
#[derive(Debug)]
pub enum SignerEvent<K> {
    ConsensusKey(Result<K, String>),
    OnchainXpub(Result<Option<ExtendedPubKey>, String>),
    /// The key or the signatures were submitted.
    Submitted(Result<(), String>),
    Signing(Result<bool, String>),
    /// Messages, each with the index of the child key to sign it with.
    ToSign(Result<Vec<(Vec<u8>, u32)>, String>),
    Slept,
}

pub ghost enum SignerStateView<K> {
    FindConsensusKey,
    FindOnchainXpub { cons_key: K },
    SubmitXpub { xpub: Seq<u8> },
    FindSigning,
    FindToSign { xpub: Seq<u8> },
    SubmitSignatures { xpub: Seq<u8>, sigs: Seq<Seq<u8>> },
    Sleep { failed: Option<SignerErrorView> },
    Stopped { error: SignerErrorView },
}

pub ghost enum SignerEventView<K> {
    ConsensusKey(Result<K, Seq<char>>),
    OnchainXpub(Result<Option<Seq<u8>>, Seq<char>>),
    Submitted(Result<(), Seq<char>>),
    Signing(Result<bool, Seq<char>>),
    ToSign(Result<Seq<(Seq<u8>, u32)>, Seq<char>>),
    Slept,
}

impl<K> View for SignerState<K> {
    type V = SignerStateView<K>;

    open spec fn view(&self) -> SignerStateView<K> {
        match *self {
            SignerState::FindConsensusKey => SignerStateView::FindConsensusKey,
            SignerState::FindOnchainXpub { cons_key } => SignerStateView::FindOnchainXpub {
                cons_key,
            },
            SignerState::SubmitXpub { xpub } => SignerStateView::SubmitXpub { xpub: xpub@ },
            SignerState::FindSigning => SignerStateView::FindSigning,
            SignerState::FindToSign { xpub } => SignerStateView::FindToSign { xpub: xpub@ },
            SignerState::SubmitSignatures { xpub, sigs } => SignerStateView::SubmitSignatures {
                xpub: xpub@,
                sigs: signatures_view(sigs@),
            },
            SignerState::Sleep { failed } => SignerStateView::Sleep {
                failed: match failed {
                    Some(e) => Some(e@),
                    None => None,
                },
            },
            SignerState::Stopped { error } => SignerStateView::Stopped { error: error@ },
        }
    }
}

impl<K> View for SignerEvent<K> {
    type V = SignerEventView<K>;

    open spec fn view(&self) -> SignerEventView<K> {
        match *self {
            SignerEvent::ConsensusKey(r) => SignerEventView::ConsensusKey(
                match r {
                    Ok(key) => Ok(key),
                    Err(e) => Err(e@),
                },
            ),
            SignerEvent::OnchainXpub(r) => SignerEventView::OnchainXpub(
                match r {
                    Ok(Some(xpub)) => Ok(Some(xpub@)),
                    Ok(None) => Ok(None),
                    Err(e) => Err(e@),
                },
            ),
            SignerEvent::Submitted(r) => SignerEventView::Submitted(
                match r {
                    Ok(()) => Ok(()),
                    Err(e) => Err(e@),
                },
            ),
            SignerEvent::Signing(r) => SignerEventView::Signing(
                match r {
                    Ok(signing) => Ok(signing),
                    Err(e) => Err(e@),
                },
            ),
            SignerEvent::ToSign(r) => SignerEventView::ToSign(
                match r {
                    Ok(to_sign) => Ok(to_sign_view(to_sign@)),
                    Err(e) => Err(e@),
                },
            ),
            SignerEvent::Slept => SignerEventView::Slept,
        }
    }
}

impl<K> SignerStateView<K> {
    /// Whether `event` is an answer to what the state asks for.
    pub open spec fn awaits(self, event: SignerEventView<K>) -> bool {
        match self {
            SignerStateView::FindConsensusKey => event is ConsensusKey,
            SignerStateView::FindOnchainXpub { .. } => event is OnchainXpub,
            SignerStateView::SubmitXpub { .. } => event is Submitted,
            SignerStateView::FindSigning => event is Signing,
            SignerStateView::FindToSign { .. } => event is ToSign,
            SignerStateView::SubmitSignatures { .. } => event is Submitted,
            SignerStateView::Sleep { .. } => event is Slept,
            SignerStateView::Stopped { .. } => false,
        }
    }

    /// The state that `event` leads a signatory with the key `xpriv` to.
    pub open spec fn after(self, event: SignerEventView<K>, xpriv: Seq<u8>) -> Self {
        match self {
            SignerStateView::FindConsensusKey => match event->ConsensusKey_0 {
                Ok(cons_key) => SignerStateView::FindOnchainXpub { cons_key },
                Err(e) => SignerStateView::Stopped { error: SignerErrorView::Peg(e) },
            },
            SignerStateView::FindOnchainXpub { .. } => match event->OnchainXpub_0 {
                Ok(None) => SignerStateView::SubmitXpub { xpub: xpub_of_xpriv(xpriv) },
                Ok(Some(onchain)) => if onchain == xpub_of_xpriv(xpriv) {
                    SignerStateView::FindSigning
                } else {
                    SignerStateView::Stopped { error: SignerErrorView::XpubMismatch }
                },
                Err(e) => SignerStateView::Stopped { error: SignerErrorView::Peg(e) },
            },
            SignerStateView::SubmitXpub { .. } => match event->Submitted_0 {
                Ok(()) => SignerStateView::FindSigning,
                Err(e) => SignerStateView::Stopped { error: SignerErrorView::Peg(e) },
            },
            SignerStateView::FindSigning => match event->Signing_0 {
                Ok(true) => SignerStateView::FindToSign { xpub: xpub_of_xpriv(xpriv) },
                Ok(false) => SignerStateView::Sleep { failed: None },
                Err(e) => SignerStateView::Sleep { failed: Some(SignerErrorView::Peg(e)) },
            },
            SignerStateView::FindToSign { .. } => match event->ToSign_0 {
                Ok(to_sign) => if to_sign.len() == 0 {
                    SignerStateView::Sleep { failed: None }
                } else {
                    match signatures_of(xpriv, to_sign) {
                        Ok(sigs) => SignerStateView::SubmitSignatures {
                            xpub: xpub_of_xpriv(xpriv),
                            sigs,
                        },
                        Err(e) => SignerStateView::Sleep { failed: Some(SignerErrorView::Sign(e)) },
                    }
                },
                Err(e) => SignerStateView::Sleep { failed: Some(SignerErrorView::Peg(e)) },
            },
            SignerStateView::SubmitSignatures { .. } => match event->Submitted_0 {
                Ok(()) => SignerStateView::Sleep { failed: None },
                Err(e) => SignerStateView::Sleep { failed: Some(SignerErrorView::Peg(e)) },
            },
            SignerStateView::Sleep { .. } => SignerStateView::FindConsensusKey,
            SignerStateView::Stopped { .. } => self,
        }
    }
}

impl<K> SignerState<K> {
    /// Where the rounds start.
    pub fn start() -> (r: Self)
        ensures
            r@ == SignerStateView::<K>::FindConsensusKey,
    {
        SignerState::FindConsensusKey
    }

    /// Goes on with the answer to what the state asked for. Signatures that
    /// are submitted can be checked with the signatory's extended public key.
    pub fn next<C>(self, event: SignerEvent<K>, signer: &Signer<C>) -> (r: Self)
        requires
            self@.awaits(event@),
            event@ matches SignerEventView::ToSign(Ok(to_sign)) ==> derivable(
                signer.xpriv@,
                to_sign,
            ),
        ensures
            r@ == self@.after(event@, signer.xpriv@),
            self@ is FindToSign && r@ is SubmitSignatures ==> all_verify(
                xpub_of_xpriv(signer.xpriv@),
                event@->ToSign_0->Ok_0,
                r@->sigs,
            ),
    {
        match (self, event) {
            (SignerState::FindConsensusKey, SignerEvent::ConsensusKey(Ok(cons_key))) => {
                SignerState::FindOnchainXpub { cons_key }
            },
            (SignerState::FindConsensusKey, SignerEvent::ConsensusKey(Err(e))) => {
                SignerState::Stopped { error: SignerError::Peg(e) }
            },
            (SignerState::FindOnchainXpub { .. }, SignerEvent::OnchainXpub(Ok(onchain_xpub))) => {
                match signer.maybe_submit_xpub(&onchain_xpub) {
                    Ok(XpubAction::Submit) => SignerState::SubmitXpub { xpub: signer.xpriv.xpub() },
                    Ok(XpubAction::Keep) => SignerState::FindSigning,
                    Err(error) => SignerState::Stopped { error },
                }
            },
            (SignerState::FindOnchainXpub { .. }, SignerEvent::OnchainXpub(Err(e))) => {
                SignerState::Stopped { error: SignerError::Peg(e) }
            },
            (SignerState::SubmitXpub { .. }, SignerEvent::Submitted(Ok(()))) => {
                SignerState::FindSigning
            },
            (SignerState::SubmitXpub { .. }, SignerEvent::Submitted(Err(e))) => {
                SignerState::Stopped { error: SignerError::Peg(e) }
            },
            (SignerState::FindSigning, SignerEvent::Signing(Ok(signing))) => if signing {
                SignerState::FindToSign { xpub: signer.xpriv.xpub() }
            } else {
                SignerState::Sleep { failed: None }
            },
            (SignerState::FindSigning, SignerEvent::Signing(Err(e))) => {
                SignerState::Sleep { failed: Some(SignerError::Peg(e)) }
            },
            (SignerState::FindToSign { .. }, SignerEvent::ToSign(Ok(to_sign))) => {
                if to_sign.len() == 0 {
                    return SignerState::Sleep { failed: None };
                }
                match signer.try_sign(&to_sign) {
                    Ok(sigs) => SignerState::SubmitSignatures { xpub: signer.xpriv.xpub(), sigs },
                    Err(e) => SignerState::Sleep { failed: Some(SignerError::Sign(e)) },
                }
            },
            (SignerState::FindToSign { .. }, SignerEvent::ToSign(Err(e))) => {
                SignerState::Sleep { failed: Some(SignerError::Peg(e)) }
            },
            (SignerState::SubmitSignatures { .. }, SignerEvent::Submitted(Ok(()))) => {
                SignerState::Sleep { failed: None }
            },
            (SignerState::SubmitSignatures { .. }, SignerEvent::Submitted(Err(e))) => {
                SignerState::Sleep { failed: Some(SignerError::Peg(e)) }
            },
            (SignerState::Sleep { .. }, SignerEvent::Slept) => SignerState::FindConsensusKey,
            (state, _) => state,
        }
    }
}

/// A signatory ends only while its public key is checked or submitted.
pub proof fn law_signing_does_not_stop<K>(
    state: SignerStateView<K>,
    event: SignerEventView<K>,
    xpriv: Seq<u8>,
)
    requires
        state.awaits(event),
    ensures
        state.after(event, xpriv) is Stopped ==> state is FindConsensusKey || state
            is FindOnchainXpub || state is SubmitXpub,
{
}

/// A signatory asks for messages to sign only in a round in which the peg has
/// its public key: it was found on chain or has just been submitted.
pub proof fn law_key_known_before_signing<K>(
    state: SignerStateView<K>,
    event: SignerEventView<K>,
    xpriv: Seq<u8>,
)
    requires
        state.awaits(event),
    ensures
        state.after(event, xpriv) is FindToSign ==> state is FindSigning,
        state.after(event, xpriv) is FindSigning ==> {
            ||| state is FindOnchainXpub && event->OnchainXpub_0 == Ok::<Option<Seq<u8>>, Seq<char>>(
                Some(xpub_of_xpriv(xpriv)),
            )
            ||| state is SubmitXpub && event->Submitted_0 is Ok
        },
        state is Sleep ==> state.after(event, xpriv) is FindConsensusKey,
{
}

/// The extended public key that a signatory submits, asks for messages with and
/// submits signatures for is that of its private key.
pub proof fn law_own_key_handed_over<K>(
    state: SignerStateView<K>,
    event: SignerEventView<K>,
    xpriv: Seq<u8>,
)
    requires
        state.awaits(event),
    ensures
        match state.after(event, xpriv) {
            SignerStateView::SubmitXpub { xpub } => xpub == xpub_of_xpriv(xpriv),
            SignerStateView::FindToSign { xpub } => xpub == xpub_of_xpriv(xpriv),
            SignerStateView::SubmitSignatures { xpub, .. } => xpub == xpub_of_xpriv(xpriv),
            _ => true,
        },
{
}

/// A signatory whose public key differs from the one on chain ends.
pub proof fn law_foreign_xpub_stops<K>(cons_key: K, onchain: Seq<u8>, xpriv: Seq<u8>)
    requires
        onchain != xpub_of_xpriv(xpriv),
    ensures
        (SignerStateView::FindOnchainXpub { cons_key }).after(
            SignerEventView::OnchainXpub(Ok(Some(onchain))),
            xpriv,
        ) == (SignerStateView::<K>::Stopped { error: SignerErrorView::XpubMismatch }),
{
}

/// Signatures are submitted only for messages that are due, one for each
/// message, in their order, under the child key of its index.
pub proof fn law_signatures_submitted<K>(
    state: SignerStateView<K>,
    event: SignerEventView<K>,
    xpriv: Seq<u8>,
)
    requires
        state.awaits(event),
        state.after(event, xpriv) is SubmitSignatures,
    ensures
        ({
            let sigs = state.after(event, xpriv)->sigs;
            &&& state is FindToSign
            &&& event->ToSign_0 matches Ok(to_sign)
            &&& sigs.len() == to_sign.len() > 0
            &&& forall|i: int|
                #![trigger sigs[i]]
                0 <= i < sigs.len() ==> child_signature(xpriv, to_sign[i].0, to_sign[i].1) == Ok::<
                    Seq<u8>,
                    SignErrorView,
                >(sigs[i])
        }),
{
    let to_sign = event->ToSign_0->Ok_0;
    let sigs = state.after(event, xpriv)->sigs;
    assert forall|i: int|
        #![trigger sigs[i]]
        0 <= i < sigs.len() implies child_signature(xpriv, to_sign[i].0, to_sign[i].1) == Ok::<
        Seq<u8>,
        SignErrorView,
    >(sigs[i]) by {
        assert(signature_at(xpriv, to_sign, i) is Ok);
    }
}

} // verus!
