use xmtp_id::association_log::{
    allowed_association, allowed_signature_for_kind, is_legacy_signature, verify_chain_id_matches,
    Action, AddAssociation, AssociationError, ChangeRecoveryIdentity, CreateInbox, IdentityUpdate,
    RevokeAssociation,
};
use xmtp_id::member::{Identifier, Member, MemberIdentifier, MemberKind};
use xmtp_id::signature::{SignatureKind, VerifiedSignature};
use xmtp_id::state::AssociationState;

const ADDR_A: &str = "0xaaaaaaaaaaaaaaaaaaaaaaaaaaaaaaaaaaaaaaaa";
const ADDR_B: &str = "0xbbbbbbbbbbbbbbbbbbbbbbbbbbbbbbbbbbbbbbbb";

fn eth(a: &str) -> Identifier {
    Identifier::Ethereum(a.to_string())
}

fn eth_member(a: &str) -> MemberIdentifier {
    MemberIdentifier::Ethereum(a.to_string())
}

fn installation(key: u8) -> MemberIdentifier {
    MemberIdentifier::Installation(vec![key; 32])
}

fn sig(signer: MemberIdentifier, kind: SignatureKind, bytes: &[u8]) -> VerifiedSignature {
    VerifiedSignature::new(signer, kind, bytes.to_vec(), None)
}

fn create(addr: &str, nonce: u64, kind: SignatureKind, bytes: &[u8]) -> CreateInbox {
    CreateInbox {
        nonce,
        account_identifier: eth(addr),
        initial_identifier_signature: sig(eth_member(addr), kind, bytes),
    }
}

fn created_state() -> AssociationState {
    create(ADDR_A, 0, SignatureKind::Erc191, b"create")
        .update_state(None, 0)
        .unwrap()
}

fn add_installation(key: u8, bytes: &[u8]) -> AddAssociation {
    AddAssociation {
        new_member_signature: sig(installation(key), SignatureKind::InstallationKey, bytes),
        new_member_identifier: installation(key),
        existing_member_signature: sig(eth_member(ADDR_A), SignatureKind::Erc191, &[bytes, b"-a"].concat()),
    }
}

fn state_with_installation() -> AssociationState {
    add_installation(1, b"add-i1").update_state(Some(created_state()), 10).unwrap()
}

fn is_parent(m: &Member, parent: &MemberIdentifier) -> bool {
    match &m.parent {
        Some(p) => p.equals(parent),
        None => false,
    }
}

#[test]
fn create_inbox_makes_root_and_recovery() {
    let state = created_state();
    assert!(state.recovery_identifier().equals(&eth(ADDR_A)));
    let root = state.get(&eth_member(ADDR_A)).unwrap();
    assert!(root.parent.is_none());
    assert_eq!(state.members().len(), 1);
    assert_eq!(state.inbox_id(), &eth(ADDR_A).inbox_id(0));
}

#[test]
fn add_installation_sets_parent() {
    let state = state_with_installation();
    let member = state.get(&installation(1)).unwrap();
    assert!(is_parent(member, &eth_member(ADDR_A)));
    assert_eq!(member.added_on_ns, Some(10));
    assert_eq!(state.members().len(), 2);
}

#[test]
fn revoking_root_removes_its_installation() {
    let state = state_with_installation();
    let revoke = RevokeAssociation {
        recovery_identifier_signature: sig(eth_member(ADDR_A), SignatureKind::Erc191, b"revoke"),
        revoked_member: eth_member(ADDR_A),
    };
    let state = revoke.update_state(Some(state), 20).unwrap();
    assert!(state.get(&eth_member(ADDR_A)).is_none());
    assert!(state.get(&installation(1)).is_none());
    assert_eq!(state.members().len(), 0);
}

#[test]
fn legacy_create_needs_nonce_zero() {
    let r = create(ADDR_A, 1, SignatureKind::LegacyDelegated, b"legacy").update_state(None, 0);
    assert!(matches!(r, Err(AssociationError::LegacySignatureReuse)));
    let ok = create(ADDR_A, 0, SignatureKind::LegacyDelegated, b"legacy").update_state(None, 0);
    assert!(ok.is_ok());
}

#[test]
fn add_with_mismatched_new_member_fails() {
    let mut add = add_installation(1, b"add-i1");
    add.new_member_identifier = installation(2);
    let r = add.update_state(Some(created_state()), 10);
    assert!(matches!(r, Err(AssociationError::NewMemberIdSignatureMismatch)));
}

#[test]
fn installation_cannot_add_installation() {
    let add = AddAssociation {
        new_member_signature: sig(installation(2), SignatureKind::InstallationKey, b"i2"),
        new_member_identifier: installation(2),
        existing_member_signature: sig(installation(1), SignatureKind::InstallationKey, b"i1"),
    };
    let r = add.update_state(Some(state_with_installation()), 30);
    assert!(matches!(
        r,
        Err(AssociationError::MemberNotAllowed(MemberKind::Installation, MemberKind::Installation))
    ));
}

#[test]
fn create_twice_fails() {
    let r = create(ADDR_A, 0, SignatureKind::Erc191, b"again").update_state(Some(created_state()), 0);
    assert!(matches!(r, Err(AssociationError::MultipleCreate)));
}

#[test]
fn create_by_other_signer_fails() {
    let mut c = create(ADDR_A, 0, SignatureKind::Erc191, b"x");
    c.initial_identifier_signature.signer = eth_member(ADDR_B);
    let r = c.update_state(None, 0);
    assert!(matches!(r, Err(AssociationError::MissingExistingMember)));
}

#[test]
fn create_with_passkey_signature_on_account_fails() {
    let r = create(ADDR_A, 0, SignatureKind::P256, b"x").update_state(None, 0);
    assert!(matches!(
        r,
        Err(AssociationError::SignatureNotAllowed(MemberKind::Ethereum, SignatureKind::P256))
    ));
}

#[test]
fn add_with_wrong_kind_for_new_member_fails() {
    let mut add = add_installation(1, b"add-i1");
    add.new_member_signature.kind = SignatureKind::Erc191;
    let r = add.update_state(Some(created_state()), 10);
    assert!(matches!(
        r,
        Err(AssociationError::SignatureNotAllowed(MemberKind::Installation, SignatureKind::Erc191))
    ));
}

#[test]
fn add_without_state_fails() {
    let r = add_installation(1, b"x").update_state(None, 10);
    assert!(matches!(r, Err(AssociationError::NotCreated)));
}

#[test]
fn add_self_fails() {
    let add = AddAssociation {
        new_member_signature: sig(eth_member(ADDR_A), SignatureKind::Erc191, b"n"),
        new_member_identifier: eth_member(ADDR_A),
        existing_member_signature: sig(eth_member(ADDR_A), SignatureKind::Erc191, b"e"),
    };
    let r = add.update_state(Some(created_state()), 10);
    assert!(matches!(r, Err(AssociationError::Generic(_))));
}

#[test]
fn add_by_stranger_fails() {
    let mut add = add_installation(1, b"add-i1");
    add.existing_member_signature.signer = eth_member(ADDR_B);
    let r = add.update_state(Some(created_state()), 10);
    assert!(matches!(r, Err(AssociationError::MissingExistingMember)));
}

#[test]
fn add_with_replayed_signature_fails() {
    let state = created_state().add_seen_signatures(&vec![b"add-i1".to_vec()]);
    let r = add_installation(1, b"add-i1").update_state(Some(state), 10);
    assert!(matches!(r, Err(AssociationError::Replay)));
}

#[test]
fn add_with_wrong_chain_id_fails() {
    let mut add = add_installation(1, b"add-i1");
    add.existing_member_signature.chain_id = Some(5);
    let r = add.update_state(Some(created_state()), 10);
    assert!(matches!(r, Err(AssociationError::ChainIdMismatch(0, 5))));
}

#[test]
fn legacy_add_on_other_inbox_fails() {
    let state = create(ADDR_A, 3, SignatureKind::Erc191, b"c3").update_state(None, 0).unwrap();
    let mut add = add_installation(1, b"add-i1");
    add.existing_member_signature.kind = SignatureKind::LegacyDelegated;
    let r = add.update_state(Some(state), 10);
    assert!(matches!(r, Err(AssociationError::LegacySignatureReuse)));
}

#[test]
fn legacy_add_on_nonce_zero_inbox_succeeds() {
    let mut add = add_installation(1, b"add-i1");
    add.existing_member_signature.kind = SignatureKind::LegacyDelegated;
    assert!(add.update_state(Some(created_state()), 10).is_ok());
}

#[test]
fn recovery_adds_with_recovery_as_parent() {
    let state = created_state();
    let state = RevokeAssociation {
        recovery_identifier_signature: sig(eth_member(ADDR_A), SignatureKind::Erc191, b"r"),
        revoked_member: eth_member(ADDR_A),
    }
    .update_state(Some(state), 1)
    .unwrap();
    let state = add_installation(7, b"after").update_state(Some(state), 2).unwrap();
    assert!(is_parent(state.get(&installation(7)).unwrap(), &eth_member(ADDR_A)));
}

#[test]
fn revoke_with_legacy_signature_fails() {
    let revoke = RevokeAssociation {
        recovery_identifier_signature: sig(eth_member(ADDR_A), SignatureKind::LegacyDelegated, b"r"),
        revoked_member: installation(1),
    };
    let r = revoke.update_state(Some(state_with_installation()), 1);
    assert!(matches!(
        r,
        Err(AssociationError::SignatureNotAllowed(MemberKind::Ethereum, SignatureKind::LegacyDelegated))
    ));
}

#[test]
fn revoke_by_non_recovery_fails() {
    let revoke = RevokeAssociation {
        recovery_identifier_signature: sig(eth_member(ADDR_B), SignatureKind::Erc191, b"r"),
        revoked_member: installation(1),
    };
    let r = revoke.update_state(Some(state_with_installation()), 1);
    assert!(matches!(r, Err(AssociationError::MissingExistingMember)));
}

#[test]
fn revoke_leaves_account_children_and_grandchildren() {
    // A adds B (account) and I1; B adds I2.
    let state = state_with_installation();
    let add_b = AddAssociation {
        new_member_signature: sig(eth_member(ADDR_B), SignatureKind::Erc191, b"b"),
        new_member_identifier: eth_member(ADDR_B),
        existing_member_signature: sig(eth_member(ADDR_A), SignatureKind::Erc191, b"ab"),
    };
    let state = add_b.update_state(Some(state), 2).unwrap();
    let add_i2 = AddAssociation {
        new_member_signature: sig(installation(2), SignatureKind::InstallationKey, b"i2"),
        new_member_identifier: installation(2),
        existing_member_signature: sig(eth_member(ADDR_B), SignatureKind::Erc191, b"bi2"),
    };
    let state = add_i2.update_state(Some(state), 3).unwrap();
    assert_eq!(state.members_by_parent(&eth_member(ADDR_A)).len(), 2);
    let revoke = RevokeAssociation {
        recovery_identifier_signature: sig(eth_member(ADDR_A), SignatureKind::Erc191, b"rv"),
        revoked_member: eth_member(ADDR_A),
    };
    let state = revoke.update_state(Some(state), 4).unwrap();
    assert!(state.get(&installation(1)).is_none());
    assert!(state.get(&eth_member(ADDR_B)).is_some());
    assert!(state.get(&installation(2)).is_some());
    assert_eq!(state.members().len(), 2);
}

#[test]
fn change_recovery_identity_moves_role() {
    let change = ChangeRecoveryIdentity {
        recovery_identifier_signature: sig(eth_member(ADDR_A), SignatureKind::Erc191, b"c"),
        new_recovery_identifier: eth(ADDR_B),
    };
    let state = change.update_state(Some(created_state()), 1).unwrap();
    assert!(state.recovery_identifier().equals(&eth(ADDR_B)));
    let again = ChangeRecoveryIdentity {
        recovery_identifier_signature: sig(eth_member(ADDR_A), SignatureKind::Erc191, b"d"),
        new_recovery_identifier: eth(ADDR_A),
    };
    let r = again.update_state(Some(state), 2);
    assert!(matches!(r, Err(AssociationError::MissingExistingMember)));
}

#[test]
fn change_recovery_without_state_fails() {
    let change = ChangeRecoveryIdentity {
        recovery_identifier_signature: sig(eth_member(ADDR_A), SignatureKind::Erc191, b"c"),
        new_recovery_identifier: eth(ADDR_B),
    };
    assert!(matches!(change.update_state(None, 1), Err(AssociationError::NotCreated)));
}

#[test]
fn update_applies_all_and_records_signatures() {
    let inbox = eth(ADDR_A).inbox_id(0);
    let update = IdentityUpdate::new(
        vec![
            Action::CreateInbox(create(ADDR_A, 0, SignatureKind::Erc191, b"create")),
            Action::AddAssociation(add_installation(1, b"add-i1")),
        ],
        inbox,
        10,
    );
    assert_eq!(update.signatures(), vec![b"create".to_vec(), b"add-i1-a".to_vec(), b"add-i1".to_vec()]);
    let state = update.update_state(None, 0).unwrap();
    assert_eq!(state.members().len(), 2);
    assert!(state.has_seen(&b"create".to_vec()));
    assert!(state.has_seen(&b"add-i1".to_vec()));
    assert!(state.has_seen(&b"add-i1-a".to_vec()));
    assert!(!state.has_seen(&b"other".to_vec()));
    assert_eq!(state.get(&installation(1)).unwrap().added_on_ns, Some(10));
    let replay = IdentityUpdate::new(
        vec![Action::AddAssociation(add_installation(1, b"add-i1"))],
        eth(ADDR_A).inbox_id(0),
        11,
    );
    assert!(matches!(replay.update_state(Some(state), 0), Err(AssociationError::Replay)));
}

#[test]
fn update_with_wrong_inbox_id_fails() {
    let update = IdentityUpdate::new(
        vec![Action::CreateInbox(create(ADDR_A, 0, SignatureKind::Erc191, b"create"))],
        "not-the-inbox".to_string(),
        10,
    );
    assert!(matches!(update.update_state(None, 0), Err(AssociationError::WrongInboxId)));
}

#[test]
fn empty_update_without_state_fails() {
    let update = IdentityUpdate::new(vec![], "x".to_string(), 10);
    assert!(matches!(update.update_state(None, 0), Err(AssociationError::NotCreated)));
}

#[test]
fn failed_action_aborts_whole_update() {
    let update = IdentityUpdate::new(
        vec![
            Action::AddAssociation(add_installation(1, b"ok")),
            Action::AddAssociation(add_installation(1, b"ok2")),
            Action::CreateInbox(create(ADDR_A, 0, SignatureKind::Erc191, b"again")),
        ],
        eth(ADDR_A).inbox_id(0),
        10,
    );
    assert!(matches!(update.update_state(Some(created_state()), 0), Err(AssociationError::MultipleCreate)));
}

#[test]
fn same_signature_twice_in_one_update_is_accepted() {
    let update = IdentityUpdate::new(
        vec![
            Action::AddAssociation(add_installation(1, b"dup")),
            Action::AddAssociation(add_installation(2, b"dup")),
        ],
        eth(ADDR_A).inbox_id(0),
        10,
    );
    let state = update.update_state(Some(created_state()), 0).unwrap();
    assert_eq!(state.members().len(), 3);
}

#[test]
fn same_action_same_state_same_result() {
    let a = add_installation(1, b"add-i1").update_state(Some(created_state()), 10).unwrap();
    let b = add_installation(1, b"add-i1").update_state(Some(created_state()), 10).unwrap();
    assert_eq!(a.inbox_id(), b.inbox_id());
    assert_eq!(a.members().len(), b.members().len());
    for (x, y) in a.members().iter().zip(b.members().iter()) {
        assert!(x.identifier.equals(&y.identifier));
        assert_eq!(x.added_on_ns, y.added_on_ns);
    }
}

#[test]
fn remove_twice_equals_remove_once() {
    let once = state_with_installation().remove(&installation(1));
    let twice = state_with_installation().remove(&installation(1)).remove(&installation(1));
    assert_eq!(once.members().len(), 1);
    assert_eq!(twice.members().len(), 1);
    let absent = state_with_installation().remove(&installation(9));
    assert_eq!(absent.members().len(), 2);
}

#[test]
fn signature_role_table() {
    let all = [
        SignatureKind::Erc191,
        SignatureKind::Erc1271,
        SignatureKind::InstallationKey,
        SignatureKind::LegacyDelegated,
        SignatureKind::P256,
    ];
    for kind in all {
        let eth_ok = matches!(kind, SignatureKind::Erc191 | SignatureKind::Erc1271 | SignatureKind::LegacyDelegated);
        assert_eq!(allowed_signature_for_kind(&MemberKind::Ethereum, &kind).is_ok(), eth_ok);
        assert_eq!(allowed_signature_for_kind(&MemberKind::Passkey, &kind).is_ok(), kind == SignatureKind::P256);
        assert_eq!(
            allowed_signature_for_kind(&MemberKind::Installation, &kind).is_ok(),
            kind == SignatureKind::InstallationKey
        );
    }
}

#[test]
fn association_kinds() {
    assert!(allowed_association(MemberKind::Installation, MemberKind::Installation).is_err());
    assert!(allowed_association(MemberKind::Ethereum, MemberKind::Installation).is_ok());
    assert!(allowed_association(MemberKind::Installation, MemberKind::Ethereum).is_ok());
    assert!(allowed_association(MemberKind::Passkey, MemberKind::Passkey).is_ok());
}

#[test]
fn chain_id_check() {
    let m = Member::new(eth_member(ADDR_A), None, None, Some(1));
    let mut s = sig(eth_member(ADDR_A), SignatureKind::Erc191, b"x");
    assert!(matches!(verify_chain_id_matches(&m, &s), Err(AssociationError::ChainIdMismatch(1, 0))));
    s.chain_id = Some(1);
    assert!(verify_chain_id_matches(&m, &s).is_ok());
    assert!(!is_legacy_signature(&s));
    s.kind = SignatureKind::LegacyDelegated;
    assert!(is_legacy_signature(&s));
}

#[test]
fn inbox_id_is_hex_of_sha256() {
    assert_eq!(
        eth(ADDR_A).inbox_id(0),
        "ca0684ce2dda591b7e692cdc10acae7f512a7647e64577d7ec76614d1811a731"
    );
    assert_eq!(
        eth(ADDR_A).inbox_id(1),
        "5fb0b0c8f2c8b319f23ab3cc0779f203e011e6299dd9b8c5f804088a999849f4"
    );
}

#[test]
fn member_identifier_conversions() {
    assert!(installation(1).to_identifier().is_none());
    assert!(eth_member(ADDR_A).to_identifier().unwrap().equals(&eth(ADDR_A)));
    assert_eq!(installation(1).kind(), MemberKind::Installation);
    assert_eq!(eth(ADDR_A).to_member_identifier().kind(), MemberKind::Ethereum);
}
