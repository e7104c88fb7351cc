use bitcoin::secp256k1::{ecdsa, Message, PublicKey, Secp256k1, SecretKey};
use bitcoin::util::bip32;
use nomic::keys::{sign_with, verify_with, ExtendedPrivKey, ExtendedPubKey, SignError};
use nomic::signer::{
    compare_xpub, Address, KeySource, Loaded, Signer, SignerError, XpubAction,
};
use nomic::signer_loop::{SignerEvent, SignerState, ROUND_SECONDS};

/// A master key of the main network with a known public key.
const XPRIV: &str = "xprv9s21ZrQH143K3QTDL4LXw2F7HEK3wJUD2nW2nRk4stbPy6cq3jPPqjiChkVvvNKmPGJxWUtg6LnF5kejMRNNU3TGtRBeJgk33yuGBxrMPHi";
const XPUB: &str = "xpub661MyMwAqRbcFtXgS5sYJABqqG9YLmC4Q1Rdap9gSE8NqtwybGhePY2gZ29ESFjqJoCu1Rupje8YtGqsefD265TMg7usUDFdp6W1EGMcet8";

const ADDRESS: Address = Address { bytes: [7; 20] };

fn load(contents: &str) -> Result<Loaded<()>, String> {
    Signer::load_or_generate(ADDRESS, (), KeySource::File(contents.as_bytes().to_vec()))
}

fn generate(seed: [u8; 32]) -> Loaded<&'static str> {
    match Signer::load_or_generate(ADDRESS, "peg", KeySource::Seed(seed)) {
        Ok(loaded) => loaded,
        Err(e) => panic!("{}", e),
    }
}

fn signer() -> Signer<&'static str> {
    generate([1; 32]).signer
}

#[test]
fn loads_a_key_file() {
    for contents in [XPRIV.to_string(), format!("\n {} \t\r\n\u{3000}", XPRIV)] {
        let loaded = match load(&contents) {
            Ok(loaded) => loaded,
            Err(e) => panic!("{}", e),
        };
        assert_eq!(loaded.signer.xpriv.text(), XPRIV);
        assert_eq!(loaded.signer.op_addr, ADDRESS);
        assert_eq!(loaded.key_file, None);
    }
}

#[test]
fn refuses_a_malformed_key_file() {
    for contents in ["", "not a key", XPUB, "xprv 9s21", &XPRIV[1..]] {
        let expected = contents.parse::<bip32::ExtendedPrivKey>().unwrap_err().to_string();
        assert_eq!(load(contents).err(), Some(expected));
    }
}

#[test]
fn generates_a_key_and_keeps_it() {
    let seed = [42; 32];
    let loaded = generate(seed);
    let expected = bip32::ExtendedPrivKey::new_master(bitcoin::Network::Testnet, &seed).unwrap();
    assert_eq!(loaded.signer.xpriv.text(), expected.to_string());
    assert_eq!(loaded.signer.xpriv.depth(), 0);
    assert_eq!(loaded.signer.client, "peg");
    assert!(loaded.signer.xpriv.text().starts_with("tprv"));

    let contents = loaded.key_file.unwrap();
    assert_eq!(contents, expected.to_string().into_bytes());
    let again = match Signer::load_or_generate(ADDRESS, (), KeySource::File(contents)) {
        Ok(again) => again,
        Err(e) => panic!("{}", e),
    };
    assert_eq!(again.signer.xpriv.text(), expected.to_string());
}

#[test]
fn public_key_of_a_private_key() {
    let xpriv = ExtendedPrivKey::from_text(XPRIV).unwrap();
    let xpub = bip32::ExtendedPubKey::decode(&xpriv.xpub().encoding).unwrap();
    assert_eq!(xpub.to_string(), XPUB);
}

#[test]
fn depth_of_a_derived_key() {
    let secp = Secp256k1::signing_only();
    let master: bip32::ExtendedPrivKey = XPRIV.parse().unwrap();
    let path: bip32::DerivationPath = "m/1/2/3".parse().unwrap();
    let child = master.derive_priv(&secp, &path).unwrap();
    let xpriv = ExtendedPrivKey::from_text(&child.to_string()).unwrap();
    assert_eq!(xpriv.depth(), 3);
    assert_eq!(xpriv.text(), child.to_string());
}

fn verified(signature: &[u8; 64], message: &[u8], index: u32) -> bool {
    let secp = Secp256k1::new();
    let xpub: bip32::ExtendedPubKey = XPUB.parse().unwrap();
    let child = xpub.ckd_pub(&secp, bip32::ChildNumber::Normal { index }).unwrap();
    let signature = ecdsa::Signature::from_compact(signature).unwrap();
    secp.verify_ecdsa(&Message::from_slice(message).unwrap(), &signature, &child.public_key).is_ok()
}

#[test]
fn signatures_verify_under_the_child_key() {
    let xpriv = ExtendedPrivKey::from_text(XPRIV).unwrap();
    for index in [0, 7, 0x7fff_ffff] {
        let message = vec![index as u8; 32];
        let signature = xpriv.sign(&message, index).unwrap();
        assert!(verified(&signature, &message, index));
        assert!(!verified(&signature, &message, 1));
        assert!(!verified(&signature, &[9; 32], index));
        assert_eq!(xpriv.sign(&message, index).unwrap(), signature);
    }
}

#[test]
fn refuses_to_sign() {
    let xpriv = ExtendedPrivKey::from_text(XPRIV).unwrap();
    let error = xpriv.sign(&vec![0; 32], 0x8000_0000).unwrap_err();
    assert!(matches!(error, SignError::ChildNumber(_)));
    assert_eq!(
        error.message(),
        "child number 2147483648 is invalid (not within [0, 2^31 - 1])"
    );
    for length in [0, 31, 33] {
        let error = xpriv.sign(&vec![0; length], 0).unwrap_err();
        assert!(matches!(error, SignError::Message(_)));
        let expected = Message::from_slice(&vec![0; length]).unwrap_err().to_string();
        assert_eq!(error.message(), expected);
        assert_eq!(
            error.message(),
            "secp: message was not 32 bytes (do you need to hash?)"
        );
    }
    // What is wrong with the index comes first.
    let error = xpriv.sign(&vec![], u32::MAX).unwrap_err();
    assert!(matches!(error, SignError::ChildNumber(_)));
}

#[test]
fn signs_with_a_secret_key() {
    let secp = Secp256k1::new();
    let secret = [3; 32];
    let message = vec![4; 32];
    let signature = sign_with(Ok(secret), &message).unwrap();
    let public = PublicKey::from_secret_key(&secp, &SecretKey::from_slice(&secret).unwrap());
    let signature = ecdsa::Signature::from_compact(&signature).unwrap();
    assert!(secp
        .verify_ecdsa(&Message::from_slice(&message).unwrap(), &signature, &public)
        .is_ok());

    let error = sign_with(Err("no such child".to_string()), &message).unwrap_err();
    assert!(matches!(error, SignError::Derivation(_)));
    assert_eq!(error.message(), "no such child");
}

#[test]
fn signs_all_messages_or_none() {
    let loaded = match load(XPRIV) {
        Ok(loaded) => loaded,
        Err(e) => panic!("{}", e),
    };
    let signer = loaded.signer;
    let sigs = signer.try_sign(&vec![(vec![1; 32], 5), (vec![2; 32], 6)]).unwrap();
    assert_eq!(sigs.len(), 2);
    assert!(verified(&sigs[0], &[1; 32], 5));
    assert!(verified(&sigs[1], &[2; 32], 6));
    assert_eq!(signer.try_sign(&vec![]).unwrap().len(), 0);

    let error = signer
        .try_sign(&vec![(vec![1; 32], 5), (vec![2; 31], 6), (vec![1; 32], u32::MAX)])
        .unwrap_err();
    assert!(matches!(error, SignError::Message(_)));
}

#[test]
fn public_key_on_chain() {
    let signer = signer();
    let xpub = signer.xpriv.xpub();
    assert_eq!(signer.maybe_submit_xpub(&None).unwrap(), XpubAction::Submit);
    assert_eq!(signer.maybe_submit_xpub(&Some(xpub)).unwrap(), XpubAction::Keep);
    let mut other = xpub;
    other.encoding[77] ^= 1;
    let error = signer.maybe_submit_xpub(&Some(other)).unwrap_err();
    assert!(matches!(error, SignerError::XpubMismatch));
    assert_eq!(error.message(), "Local xpub does not match xpub found on chain");
    assert!(compare_xpub(&Some(other), &xpub).is_err());
    assert_eq!(compare_xpub(&Some(other), &other).unwrap(), XpubAction::Keep);
}

fn next(state: SignerState<u8>, event: SignerEvent<u8>) -> SignerState<u8> {
    state.next(event, &signer())
}

fn find_to_sign() -> SignerState<u8> {
    SignerState::FindToSign { xpub: signer().xpriv.xpub() }
}

fn peg_error() -> String {
    "peg is down".to_string()
}

#[test]
fn rounds_of_a_signatory() {
    assert_eq!(ROUND_SECONDS, 5);
    let signer = signer();
    let state: SignerState<u8> = SignerState::start();
    assert!(matches!(state, SignerState::FindConsensusKey));
    let state = state.next(SignerEvent::ConsensusKey(Ok(9)), &signer);
    assert!(matches!(state, SignerState::FindOnchainXpub { cons_key: 9 }));
    let state = state.next(SignerEvent::OnchainXpub(Ok(None)), &signer);
    let own = signer.xpriv.xpub();
    assert!(matches!(state, SignerState::SubmitXpub { xpub } if xpub == own));
    let state = state.next(SignerEvent::Submitted(Ok(())), &signer);
    assert!(matches!(state, SignerState::FindSigning));
    let state = state.next(SignerEvent::Signing(Ok(true)), &signer);
    assert!(matches!(state, SignerState::FindToSign { xpub } if xpub == own));
    let to_sign = vec![(vec![1; 32], 3), (vec![2; 32], 4)];
    let expected = signer.try_sign(&to_sign).unwrap();
    let state = state.next(SignerEvent::ToSign(Ok(to_sign)), &signer);
    match &state {
        SignerState::SubmitSignatures { xpub, sigs } => {
            assert_eq!(*xpub, own);
            assert_eq!(*sigs, expected);
        }
        _ => panic!("the signatures are submitted"),
    }
    let state = state.next(SignerEvent::Submitted(Ok(())), &signer);
    assert!(matches!(state, SignerState::Sleep { failed: None }));
    let state = state.next(SignerEvent::Slept, &signer);
    assert!(matches!(state, SignerState::FindConsensusKey));
}

#[test]
fn nothing_to_sign() {
    let state = next(SignerState::FindSigning, SignerEvent::Signing(Ok(false)));
    assert!(matches!(state, SignerState::Sleep { failed: None }));
    let state = next(find_to_sign(), SignerEvent::ToSign(Ok(vec![])));
    assert!(matches!(state, SignerState::Sleep { failed: None }));
}

#[test]
fn a_key_on_chain_is_kept() {
    let xpub = signer().xpriv.xpub();
    let state = SignerState::FindOnchainXpub { cons_key: 9 };
    let state = next(state, SignerEvent::OnchainXpub(Ok(Some(xpub))));
    assert!(matches!(state, SignerState::FindSigning));
}

#[test]
fn a_foreign_key_on_chain_stops() {
    let state = SignerState::FindOnchainXpub { cons_key: 9 };
    let foreign = ExtendedPubKey { encoding: [0; 78] };
    let state = next(state, SignerEvent::OnchainXpub(Ok(Some(foreign))));
    assert!(matches!(state, SignerState::Stopped { error: SignerError::XpubMismatch }));
}

#[test]
fn failures_while_the_key_is_checked_stop() {
    let find_xpub = SignerState::FindOnchainXpub { cons_key: 9 };
    for (state, event) in [
        (SignerState::FindConsensusKey, SignerEvent::ConsensusKey(Err(peg_error()))),
        (find_xpub, SignerEvent::OnchainXpub(Err(peg_error()))),
        (SignerState::SubmitXpub { xpub: signer().xpriv.xpub() }, SignerEvent::Submitted(Err(peg_error()))),
    ] {
        match next(state, event) {
            SignerState::Stopped { error } => {
                assert!(matches!(error, SignerError::Peg(_)));
                assert_eq!(error.message(), "peg is down");
            }
            _ => panic!("the signatory stops"),
        }
    }
}

#[test]
fn failures_while_signing_are_reported() {
    let submit = SignerState::SubmitSignatures { xpub: signer().xpriv.xpub(), sigs: vec![[0; 64]] };
    for (state, event) in [
        (SignerState::FindSigning, SignerEvent::Signing(Err(peg_error()))),
        (find_to_sign(), SignerEvent::ToSign(Err(peg_error()))),
        (submit, SignerEvent::Submitted(Err(peg_error()))),
    ] {
        match next(state, event) {
            SignerState::Sleep { failed: Some(error) } => {
                assert_eq!(error.message(), "peg is down")
            }
            _ => panic!("the signatory goes on"),
        }
    }
    let event = SignerEvent::ToSign(Ok(vec![(vec![1; 32], u32::MAX)]));
    match next(find_to_sign(), event) {
        SignerState::Sleep { failed: Some(error) } => {
            assert!(matches!(error, SignerError::Sign(SignError::ChildNumber(_))));
            assert_eq!(
                error.message(),
                "child number 4294967295 is invalid (not within [0, 2^31 - 1])"
            );
        }
        _ => panic!("the signatory goes on"),
    }
}

#[test]
fn a_key_of_the_greatest_depth() {
    let mut deep: bip32::ExtendedPrivKey = XPRIV.parse().unwrap();
    deep.depth = 255;
    let loaded = match load(&deep.to_string()) {
        Ok(loaded) => loaded,
        Err(e) => panic!("{}", e),
    };
    let signer = loaded.signer;
    assert_eq!(signer.xpriv.depth(), 255);
    assert!(signer.can_sign(&vec![]));
    assert!(signer.can_sign(&vec![(vec![1; 32], u32::MAX)]));
    assert!(!signer.can_sign(&vec![(vec![1; 32], 0)]));
    assert_eq!(signer.try_sign(&vec![]).unwrap().len(), 0);
    let error = signer.try_sign(&vec![(vec![1; 32], u32::MAX)]).unwrap_err();
    assert!(matches!(error, SignError::ChildNumber(_)));
}

#[test]
fn signatures_are_checked_with_the_extended_public_key() {
    let signer = signer();
    let xpub = signer.xpriv.xpub();
    let to_sign = vec![(vec![1; 32], 5), (vec![2; 32], 6)];
    let sigs = signer.try_sign(&to_sign).unwrap();
    for ((message, index), sig) in to_sign.iter().zip(&sigs) {
        assert!(xpub.verifies(message, *index, sig));
        assert!(!xpub.verifies(message, index + 1, sig));
        assert!(!xpub.verifies(&vec![9; 32], *index, sig));
        assert!(!xpub.verifies(&vec![1; 31], *index, sig));
        assert!(!xpub.verifies(message, *index, &[0xff; 64]));
        assert!(!xpub.verifies(message, 0x8000_0000, sig));
        assert!(!generate([2; 32]).signer.xpriv.xpub().verifies(message, *index, sig));
    }
    let malformed = ExtendedPubKey { encoding: [0; 78] };
    assert!(!malformed.verifies(&to_sign[0].0, 5, &sigs[0]));
}

#[test]
fn signatures_are_checked_with_a_public_key() {
    let secp = Secp256k1::new();
    let secret = [3; 32];
    let message = vec![4; 32];
    let public = PublicKey::from_secret_key(&secp, &SecretKey::from_slice(&secret).unwrap());
    let signature = sign_with(Ok(secret), &message).unwrap();
    assert!(verify_with(Ok(public.serialize()), &message, &signature));
    assert!(!verify_with(Ok([0; 33]), &message, &signature));
    assert!(!verify_with(Ok(public.serialize()), &vec![4; 33], &signature));
    assert!(!verify_with(Err("no such child".to_string()), &message, &signature));
}
