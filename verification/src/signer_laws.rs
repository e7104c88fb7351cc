//! What the signatory does, written out.
use crate::keys::{
    child_public_key, child_secret, child_signature, child_verifies, ecdsa_signature,
    ecdsa_verifies, secret_view, signed, xpriv_of_text, xpub_of_xpriv, ExtendedPrivKey,
    ExtendedPubKey, SignError, SignErrorView,
};
use crate::signer::{
    all_verify, derivable, is_white_space, key_of_file, signature_at, signatures_of,
    signatures_view, to_sign_view, trimmed, unsigned_at, SignerError, SignerErrorView,
};
use crate::signer_loop::{SignerEvent, SignerEventView, SignerState, SignerStateView};
use vstd::prelude::*;
use vstd::utf8::{encode_utf8, encode_utf8_decode_utf8};

verus! {

/// A message is signed exactly if its index is below 2^31, the child key of that
/// index can be derived and the message is 32 bytes long: with the secret key of
/// that child. Otherwise the first of these that does not hold is the error.
pub proof fn law_child_signature(xpriv: Seq<u8>, message: Seq<u8>, index: u32)
    ensures
        index >= 0x8000_0000 ==> child_signature(xpriv, message, index) matches Err(
            SignErrorView::ChildNumber(_),
        ),
        index < 0x8000_0000 ==> match child_secret(xpriv, index) {
            Err(e) => child_signature(xpriv, message, index) == Err::<Seq<u8>, SignErrorView>(
                SignErrorView::Derivation(e),
            ),
            Ok(secret) => {
                &&& message.len() == 32 ==> child_signature(xpriv, message, index) == Ok::<
                    Seq<u8>,
                    SignErrorView,
                >(ecdsa_signature(message, secret))
                &&& message.len() != 32 ==> child_signature(xpriv, message, index) == Err::<
                    Seq<u8>,
                    SignErrorView,
                >(
                    SignErrorView::Message(
                        "secp: message was not 32 bytes (do you need to hash?)"@,
                    ),
                )
            },
        },
{
}

/// What signing with a derived secret key comes to.
pub proof fn law_signed(secret: Result<[u8; 32], String>, message: Seq<u8>)
    ensures
        match secret {
            Err(e) => signed(secret_view(secret), message) == Err::<Seq<u8>, SignErrorView>(
                SignErrorView::Derivation(e@),
            ),
            Ok(key) => {
                &&& message.len() == 32 ==> signed(secret_view(secret), message) == Ok::<
                    Seq<u8>,
                    SignErrorView,
                >(ecdsa_signature(message, key@))
                &&& message.len() != 32 ==> signed(secret_view(secret), message) matches Err(
                    SignErrorView::Message(_),
                )
            },
        },
{
}

/// When a signature counts as checked.
pub proof fn law_child_verifies(xpub: Seq<u8>, message: Seq<u8>, index: u32, signature: Seq<u8>)
    ensures
        child_verifies(xpub, message, index, signature) <==> {
            &&& index < 0x8000_0000
            &&& message.len() == 32
            &&& child_public_key(xpub, index) is Ok
            &&& ecdsa_verifies(message, signature, child_public_key(xpub, index)->Ok_0)
        },
{
}

/// All messages are signed, in their order, each under the child key of its own
/// index, if each of them can be signed, however many there are.
pub proof fn law_all_signed(xpriv: Seq<u8>, to_sign: Seq<(Seq<u8>, u32)>)
    requires
        forall|i: int|
            0 <= i < to_sign.len() ==> child_signature(
                xpriv,
                (#[trigger] to_sign[i]).0,
                to_sign[i].1,
            ) is Ok,
    ensures
        signatures_of(xpriv, to_sign) matches Ok(sigs) && {
            &&& sigs.len() == to_sign.len()
            &&& forall|i: int|
                0 <= i < sigs.len() ==> child_signature(xpriv, to_sign[i].0, to_sign[i].1) == Ok::<
                    Seq<u8>,
                    SignErrorView,
                >(#[trigger] sigs[i])
        },
{
    assert forall|i: int| 0 <= i < to_sign.len() implies #[trigger] signature_at(
        xpriv,
        to_sign,
        i,
    ) is Ok by {
        assert(child_signature(xpriv, to_sign[i].0, to_sign[i].1) is Ok);
    }
    let sigs = signatures_of(xpriv, to_sign)->Ok_0;
    assert forall|i: int| 0 <= i < sigs.len() implies child_signature(
        xpriv,
        to_sign[i].0,
        to_sign[i].1,
    ) == Ok::<Seq<u8>, SignErrorView>(#[trigger] sigs[i]) by {
        assert(signature_at(xpriv, to_sign, i) is Ok);
    }
}

/// The first message that cannot be signed decides the error.
pub proof fn law_first_unsigned(xpriv: Seq<u8>, to_sign: Seq<(Seq<u8>, u32)>, i: int)
    requires
        0 <= i < to_sign.len(),
        child_signature(xpriv, to_sign[i].0, to_sign[i].1) is Err,
        forall|j: int|
            0 <= j < i ==> child_signature(
                xpriv,
                (#[trigger] to_sign[j]).0,
                to_sign[j].1,
            ) is Ok,
    ensures
        signatures_of(xpriv, to_sign) == Err::<Seq<Seq<u8>>, SignErrorView>(
            child_signature(xpriv, to_sign[i].0, to_sign[i].1)->Err_0,
        ),
{
    assert(signature_at(xpriv, to_sign, i) is Err);
    assert forall|j: int| 0 <= j < i implies #[trigger] signature_at(xpriv, to_sign, j) is Ok by {
        assert(child_signature(xpriv, to_sign[j].0, to_sign[j].1) is Ok);
    }
    assert(unsigned_at(xpriv, to_sign, i));
    let k = choose|k: int| unsigned_at(xpriv, to_sign, k);
    assert(unsigned_at(xpriv, to_sign, k));
    if k < i {
        assert(signature_at(xpriv, to_sign, k) is Ok);
    }
    if i < k {
        assert(signature_at(xpriv, to_sign, i) is Ok);
    }
}

/// Any messages can be handed over to be signed with a key of depth below 255.
pub proof fn law_derivable(xpriv: Seq<u8>, to_sign: Seq<(Seq<u8>, u32)>)
    ensures
        derivable(xpriv, to_sign) <==> xpriv[4] < 255 || to_sign.len() == 0 || to_sign[0].1
            >= 0x8000_0000,
{
}

/// Every signature of a checked list is a valid signature of the message at its
/// position, under the public child key of its index.
pub proof fn law_all_verify(xpub: Seq<u8>, to_sign: Seq<(Seq<u8>, u32)>, sigs: Seq<Seq<u8>>)
    requires
        all_verify(xpub, to_sign, sigs),
    ensures
        sigs.len() == to_sign.len(),
        forall|i: int|
            0 <= i < to_sign.len() ==> {
                &&& child_public_key(xpub, (#[trigger] to_sign[i]).1) is Ok
                &&& ecdsa_verifies(
                    to_sign[i].0,
                    sigs[i],
                    child_public_key(xpub, to_sign[i].1)->Ok_0,
                )
            },
{
    assert forall|i: int| 0 <= i < to_sign.len() implies {
        &&& child_public_key(xpub, (#[trigger] to_sign[i]).1) is Ok
        &&& ecdsa_verifies(to_sign[i].0, sigs[i], child_public_key(xpub, to_sign[i].1)->Ok_0)
    } by {
        assert(child_verifies(xpub, to_sign[i].0, to_sign[i].1, sigs[i]));
    }
}

/// The steps in which the public key is checked, whatever the peg answers. A
/// failure ends the signatory. No key on chain makes it submit its own, its own key
/// on chain is kept, and another one ends it.
pub proof fn law_key_steps<K>(
    xpriv: Seq<u8>,
    own: Seq<u8>,
    cons_key: K,
    key: Result<K, Seq<char>>,
    onchain: Result<Option<Seq<u8>>, Seq<char>>,
    submitted: Result<(), Seq<char>>,
)
    ensures
        ({
            let find = SignerStateView::<K>::FindConsensusKey;
            let check = SignerStateView::FindOnchainXpub { cons_key };
            let submit = SignerStateView::<K>::SubmitXpub { xpub: own };
            let checked = check.after(SignerEventView::OnchainXpub(onchain), xpriv);
            &&& find.awaits(SignerEventView::ConsensusKey(key))
            &&& find.after(SignerEventView::ConsensusKey(key), xpriv) == match key {
                Ok(cons_key) => SignerStateView::FindOnchainXpub { cons_key },
                Err(e) => SignerStateView::Stopped { error: SignerErrorView::Peg(e) },
            }
            &&& check.awaits(SignerEventView::OnchainXpub(onchain))
            &&& match onchain {
                Ok(None) => checked == (SignerStateView::<K>::SubmitXpub {
                    xpub: xpub_of_xpriv(xpriv),
                }),
                Ok(Some(xpub)) => {
                    &&& xpub == xpub_of_xpriv(xpriv) ==> checked
                        == SignerStateView::<K>::FindSigning
                    &&& xpub != xpub_of_xpriv(xpriv) ==> checked == (SignerStateView::<
                        K,
                    >::Stopped { error: SignerErrorView::XpubMismatch })
                },
                Err(e) => checked == (SignerStateView::<K>::Stopped {
                    error: SignerErrorView::Peg(e),
                }),
            }
            &&& submit.awaits(SignerEventView::Submitted(submitted))
            &&& submit.after(SignerEventView::Submitted(submitted), xpriv) == match submitted {
                Ok(()) => SignerStateView::<K>::FindSigning,
                Err(e) => SignerStateView::Stopped { error: SignerErrorView::Peg(e) },
            }
        }),
{
}

/// The steps around signing, whatever the peg answers. Without a checkpoint to
/// sign the signatory waits; a failure is reported and the signatory waits. After
/// the wait the next round begins.
pub proof fn law_signing_steps<K>(
    xpriv: Seq<u8>,
    own: Seq<u8>,
    sigs: Seq<Seq<u8>>,
    failed: Option<SignerErrorView>,
    signing: Result<bool, Seq<char>>,
    e: Seq<char>,
    submitted: Result<(), Seq<char>>,
)
    ensures
        ({
            let find = SignerStateView::<K>::FindSigning;
            let fetch = SignerStateView::<K>::FindToSign { xpub: own };
            let submit = SignerStateView::<K>::SubmitSignatures { xpub: own, sigs };
            let sleep = SignerStateView::<K>::Sleep { failed };
            &&& find.awaits(SignerEventView::Signing(signing))
            &&& find.after(SignerEventView::Signing(signing), xpriv) == match signing {
                Ok(true) => SignerStateView::<K>::FindToSign { xpub: xpub_of_xpriv(xpriv) },
                Ok(false) => SignerStateView::Sleep { failed: None },
                Err(e) => SignerStateView::Sleep { failed: Some(SignerErrorView::Peg(e)) },
            }
            &&& fetch.after(SignerEventView::ToSign(Err(e)), xpriv) == (SignerStateView::<
                K,
            >::Sleep { failed: Some(SignerErrorView::Peg(e)) })
            &&& submit.awaits(SignerEventView::Submitted(submitted))
            &&& submit.after(SignerEventView::Submitted(submitted), xpriv) == (SignerStateView::<
                K,
            >::Sleep {
                failed: match submitted {
                    Ok(()) => None,
                    Err(e) => Some(SignerErrorView::Peg(e)),
                },
            })
            &&& sleep.awaits(SignerEventView::Slept)
            &&& sleep.after(SignerEventView::Slept, xpriv)
                == SignerStateView::<K>::FindConsensusKey
        }),
{
}

/// Messages that can all be signed, however many there are, lead to the
/// submission of one signature for each, in their order, under the child key of its
/// index.
pub proof fn law_due_messages_signed<K>(
    xpriv: Seq<u8>,
    own: Seq<u8>,
    to_sign: Seq<(Seq<u8>, u32)>,
)
    requires
        to_sign.len() > 0,
        forall|i: int|
            0 <= i < to_sign.len() ==> child_signature(
                xpriv,
                (#[trigger] to_sign[i]).0,
                to_sign[i].1,
            ) is Ok,
    ensures
        ({
            let next = (SignerStateView::<K>::FindToSign { xpub: own }).after(
                SignerEventView::ToSign(Ok(to_sign)),
                xpriv,
            );
            &&& next matches SignerStateView::SubmitSignatures { xpub, sigs }
            &&& xpub == xpub_of_xpriv(xpriv)
            &&& sigs.len() == to_sign.len()
            &&& forall|i: int|
                0 <= i < sigs.len() ==> child_signature(xpriv, to_sign[i].0, to_sign[i].1) == Ok::<
                    Seq<u8>,
                    SignErrorView,
                >(#[trigger] sigs[i])
        }),
{
    law_all_signed(xpriv, to_sign);
}

/// A message that cannot be signed is reported, for the first such, and nothing is
/// submitted.
pub proof fn law_unsigned_reported<K>(
    xpriv: Seq<u8>,
    own: Seq<u8>,
    to_sign: Seq<(Seq<u8>, u32)>,
    i: int,
)
    requires
        0 <= i < to_sign.len(),
        child_signature(xpriv, to_sign[i].0, to_sign[i].1) is Err,
        forall|j: int|
            0 <= j < i ==> child_signature(
                xpriv,
                (#[trigger] to_sign[j]).0,
                to_sign[j].1,
            ) is Ok,
    ensures
        (SignerStateView::<K>::FindToSign { xpub: own }).after(
            SignerEventView::ToSign(Ok(to_sign)),
            xpriv,
        ) == (SignerStateView::<K>::Sleep {
            failed: Some(
                SignerErrorView::Sign(
                    child_signature(xpriv, to_sign[i].0, to_sign[i].1)->Err_0,
                ),
            ),
        }),
{
    law_first_unsigned(xpriv, to_sign, i);
}

/// Whatever messages the peg gives are taken, and the signatory waits without a
/// report exactly if there are none.
pub proof fn law_silent_only_without_messages<K>(
    xpriv: Seq<u8>,
    own: Seq<u8>,
    to_sign: Result<Seq<(Seq<u8>, u32)>, Seq<char>>,
)
    ensures
        ({
            let state = SignerStateView::<K>::FindToSign { xpub: own };
            let next = state.after(SignerEventView::ToSign(to_sign), xpriv);
            &&& state.awaits(SignerEventView::ToSign(to_sign))
            &&& next == (SignerStateView::<K>::Sleep { failed: None }) <==> to_sign is Ok
                && to_sign->Ok_0.len() == 0
        }),
{
}

/// A signatory takes any answer of the kind that it asks for, and no other. One
/// that has ended takes none.
pub proof fn law_events_awaited<K>(state: SignerStateView<K>, event: SignerEventView<K>)
    ensures
        state.awaits(event) <==> match event {
            SignerEventView::ConsensusKey(_) => state is FindConsensusKey,
            SignerEventView::OnchainXpub(_) => state is FindOnchainXpub,
            SignerEventView::Submitted(_) => state is SubmitXpub || state is SubmitSignatures,
            SignerEventView::Signing(_) => state is FindSigning,
            SignerEventView::ToSign(_) => state is FindToSign,
            SignerEventView::Slept => state is Sleep,
        },
{
}

/// The texts of the errors.
pub proof fn law_signer_messages(e: Seq<char>, error: SignErrorView)
    ensures
        SignErrorView::ChildNumber(e).message() == e,
        SignErrorView::Derivation(e).message() == e,
        SignErrorView::Message(e).message() == e,
        SignerErrorView::XpubMismatch.message() == "Local xpub does not match xpub found on chain"@,
        SignerErrorView::Sign(error).message() == error.message(),
        SignerErrorView::Peg(e).message() == e,
{
}

/// White space around the text of a key file is left out, however much there is,
/// and nothing else.
pub proof fn law_key_file_trimmed(lead: Seq<char>, text: Seq<char>, tail: Seq<char>)
    requires
        forall|i: int| 0 <= i < lead.len() ==> is_white_space(#[trigger] lead[i]),
        forall|i: int| 0 <= i < tail.len() ==> is_white_space(#[trigger] tail[i]),
        text.len() > 0 ==> !is_white_space(text.first()) && !is_white_space(text.last()),
    ensures
        key_of_file(encode_utf8(lead + text + tail)) == xpriv_of_text(text),
{
    encode_utf8_decode_utf8(lead + text + tail);
    lemma_trimmed(lead, text, tail);
}

/// Trimming leaves out the white space at both ends.
proof fn lemma_trimmed(lead: Seq<char>, text: Seq<char>, tail: Seq<char>)
    requires
        forall|i: int| 0 <= i < lead.len() ==> is_white_space(#[trigger] lead[i]),
        forall|i: int| 0 <= i < tail.len() ==> is_white_space(#[trigger] tail[i]),
        text.len() > 0 ==> !is_white_space(text.first()) && !is_white_space(text.last()),
    ensures
        trimmed(lead + text + tail) == text,
    decreases lead.len() + tail.len(),
{
    let all = lead + text + tail;
    if lead.len() > 0 {
        assert(all.first() == lead[0]);
        assert(all.drop_first() =~= lead.drop_first() + text + tail);
        lemma_trimmed(lead.drop_first(), text, tail);
    } else if tail.len() > 0 && text.len() == 0 {
        assert(all.first() == tail[0]);
        assert(all.drop_first() =~= lead + text + tail.drop_first());
        lemma_trimmed(lead, text, tail.drop_first());
    } else if tail.len() > 0 {
        assert(all.first() == text.first());
        assert(all.last() == tail[tail.len() - 1]);
        assert(all.drop_last() =~= lead + text + tail.drop_last());
        lemma_trimmed(lead, text, tail.drop_last());
    } else {
        assert(all =~= text);
    }
}

/// The views of the signatory's states hold all of them.
pub proof fn law_signer_state_read<K>(state: SignerState<K>)
    ensures
        match state {
            SignerState::FindConsensusKey => state@ == SignerStateView::<K>::FindConsensusKey,
            SignerState::FindOnchainXpub { cons_key } => state@ == (
            SignerStateView::FindOnchainXpub { cons_key }),
            SignerState::SubmitXpub { xpub } => state@ == (SignerStateView::<K>::SubmitXpub {
                xpub: xpub.encoding@,
            }),
            SignerState::FindSigning => state@ == SignerStateView::<K>::FindSigning,
            SignerState::FindToSign { xpub } => state@ == (SignerStateView::<K>::FindToSign {
                xpub: xpub.encoding@,
            }),
            SignerState::SubmitSignatures { xpub, sigs } => {
                &&& state@ matches SignerStateView::SubmitSignatures { xpub: x, sigs: s }
                &&& x == xpub.encoding@
                &&& s.len() == sigs@.len()
                &&& forall|i: int| 0 <= i < s.len() ==> #[trigger] s[i] == sigs@[i]@
            },
            SignerState::Sleep { failed: None } => state@ == (SignerStateView::<K>::Sleep {
                failed: None,
            }),
            SignerState::Sleep { failed: Some(e) } => state@ == (SignerStateView::<K>::Sleep {
                failed: Some(e@),
            }),
            SignerState::Stopped { error } => state@ == (SignerStateView::<K>::Stopped {
                error: error@,
            }),
        },
{
}

/// The views of what the peg answers hold all of it.
pub proof fn law_signer_event_read<K>(event: SignerEvent<K>)
    ensures
        match event {
            SignerEvent::ConsensusKey(Ok(key)) => event@ == SignerEventView::ConsensusKey(Ok(key)),
            SignerEvent::ConsensusKey(Err(e)) => event@ == SignerEventView::<K>::ConsensusKey(
                Err(e@),
            ),
            SignerEvent::OnchainXpub(Ok(Some(xpub))) => event@ == SignerEventView::<
                K,
            >::OnchainXpub(Ok(Some(xpub.encoding@))),
            SignerEvent::OnchainXpub(Ok(None)) => event@ == SignerEventView::<K>::OnchainXpub(
                Ok(None),
            ),
            SignerEvent::OnchainXpub(Err(e)) => event@ == SignerEventView::<K>::OnchainXpub(
                Err(e@),
            ),
            SignerEvent::Submitted(Ok(())) => event@ == SignerEventView::<K>::Submitted(Ok(())),
            SignerEvent::Submitted(Err(e)) => event@ == SignerEventView::<K>::Submitted(Err(e@)),
            SignerEvent::Signing(Ok(signing)) => event@ == SignerEventView::<K>::Signing(
                Ok(signing),
            ),
            SignerEvent::Signing(Err(e)) => event@ == SignerEventView::<K>::Signing(Err(e@)),
            SignerEvent::ToSign(Ok(to_sign)) => {
                &&& event@ matches SignerEventView::ToSign(Ok(t))
                &&& t.len() == to_sign@.len()
                &&& forall|i: int|
                    0 <= i < t.len() ==> {
                        &&& (#[trigger] t[i]).0 == to_sign@[i].0@
                        &&& t[i].1 == to_sign@[i].1
                    }
            },
            SignerEvent::ToSign(Err(e)) => event@ == SignerEventView::<K>::ToSign(Err(e@)),
            SignerEvent::Slept => event@ == SignerEventView::<K>::Slept,
        },
{
}

/// The views of messages, signatures and errors hold all of them.
pub proof fn law_signing_read(
    to_sign: Seq<(Vec<u8>, u32)>,
    sigs: Seq<[u8; 64]>,
    error: SignError,
    failure: SignerError,
)
    ensures
        to_sign_view(to_sign).len() == to_sign.len(),
        forall|i: int|
            0 <= i < to_sign.len() ==> {
                &&& (#[trigger] to_sign_view(to_sign)[i]).0 == to_sign[i].0@
                &&& to_sign_view(to_sign)[i].1 == to_sign[i].1
            },
        signatures_view(sigs).len() == sigs.len(),
        forall|i: int| 0 <= i < sigs.len() ==> #[trigger] signatures_view(sigs)[i] == sigs[i]@,
        match error {
            SignError::ChildNumber(e) => error@ == SignErrorView::ChildNumber(e@),
            SignError::Derivation(e) => error@ == SignErrorView::Derivation(e@),
            SignError::Message(e) => error@ == SignErrorView::Message(e@),
        },
        match failure {
            SignerError::XpubMismatch => failure@ == SignerErrorView::XpubMismatch,
            SignerError::Sign(e) => failure@ == SignerErrorView::Sign(e@),
            SignerError::Peg(e) => failure@ == SignerErrorView::Peg(e@),
        },
{
}

/// An extended public key is read by its encoding, and the depth of an extended
/// key is its byte at position 4.
pub proof fn law_keys_read(xpub: ExtendedPubKey, encoding: Seq<u8>)
    ensures
        xpub@ == xpub.encoding@,
        ExtendedPrivKey::depth_of(encoding) == encoding[4],
{
}

} // verus!
