//! The actions of an identity log, the rules that authorise them, and the
//! batches that apply them to an inbox's state.
use vstd::prelude::*;

use crate::inbox_id::inbox_id_of;
use crate::member::{copy_bytes, IdView, Identifier, Member, MemberIdentifier, MemberKind, MemberView};
use crate::signature::{SignatureKind, VerifiedSignature};
use crate::state::{bytes_view, AssociationState, StateView};

verus! {

/// Why an action or an update was refused.
#[derive(Debug)]
pub enum AssociationError {
    Generic(String),
    MultipleCreate,
    NotCreated,
    MemberNotAllowed(MemberKind, MemberKind),
    MissingExistingMember,
    LegacySignatureReuse,
    NewMemberIdSignatureMismatch,
    WrongInboxId,
    SignatureNotAllowed(MemberKind, SignatureKind),
    Replay,
    Deserialization(String),
    MissingIdentityUpdate,
    ChainIdMismatch(u64, u64),
    InvalidAccountAddress,
    NotIdentifier(String),
    Convert(String),
}

/// Mathematical value of an error: its variant and its plain payload.
pub enum ErrorView {
    Generic,
    MultipleCreate,
    NotCreated,
    MemberNotAllowed(MemberKind, MemberKind),
    MissingExistingMember,
    LegacySignatureReuse,
    NewMemberIdSignatureMismatch,
    WrongInboxId,
    SignatureNotAllowed(MemberKind, SignatureKind),
    Replay,
    Deserialization,
    MissingIdentityUpdate,
    ChainIdMismatch(u64, u64),
    InvalidAccountAddress,
    NotIdentifier,
    Convert,
}

impl View for AssociationError {
    type V = ErrorView;

    open spec fn view(&self) -> ErrorView {
        match self {
            AssociationError::Generic(_) => ErrorView::Generic,
            AssociationError::MultipleCreate => ErrorView::MultipleCreate,
            AssociationError::NotCreated => ErrorView::NotCreated,
            AssociationError::MemberNotAllowed(a, b) => ErrorView::MemberNotAllowed(*a, *b),
            AssociationError::MissingExistingMember => ErrorView::MissingExistingMember,
            AssociationError::LegacySignatureReuse => ErrorView::LegacySignatureReuse,
            AssociationError::NewMemberIdSignatureMismatch => ErrorView::NewMemberIdSignatureMismatch,
            AssociationError::WrongInboxId => ErrorView::WrongInboxId,
            AssociationError::SignatureNotAllowed(a, b) => ErrorView::SignatureNotAllowed(*a, *b),
            AssociationError::Replay => ErrorView::Replay,
            AssociationError::Deserialization(_) => ErrorView::Deserialization,
            AssociationError::MissingIdentityUpdate => ErrorView::MissingIdentityUpdate,
            AssociationError::ChainIdMismatch(a, b) => ErrorView::ChainIdMismatch(*a, *b),
            AssociationError::InvalidAccountAddress => ErrorView::InvalidAccountAddress,
            AssociationError::NotIdentifier(_) => ErrorView::NotIdentifier,
            AssociationError::Convert(_) => ErrorView::Convert,
        }
    }
}

pub open spec fn check_view(r: Result<(), AssociationError>) -> Result<(), ErrorView> {
    match r {
        Ok(_) => Ok(()),
        Err(e) => Err(e@),
    }
}

pub open spec fn outcome(r: Result<AssociationState, AssociationError>) -> Result<StateView, ErrorView> {
    match r {
        Ok(s) => Ok(s@),
        Err(e) => Err(e@),
    }
}

pub open spec fn state_view(s: Option<AssociationState>) -> Option<StateView> {
    match s {
        Some(s) => Some(s@),
        None => None,
    }
}

/// The state given to an action is absent or well formed.
pub open spec fn state_ok(s: Option<AssociationState>) -> bool {
    match s {
        Some(s) => s.wf(),
        None => true,
    }
}

/// Which signature kinds may act for an identity of kind `role`.
pub open spec fn signature_allowed(role: MemberKind, kind: SignatureKind) -> bool {
    match role {
        MemberKind::Ethereum => kind == SignatureKind::Erc191 || kind == SignatureKind::Erc1271
            || kind == SignatureKind::LegacyDelegated,
        MemberKind::Passkey => kind == SignatureKind::P256,
        MemberKind::Installation => kind == SignatureKind::InstallationKey,
    }
}

pub open spec fn is_legacy(sig: VerifiedSignature) -> bool {
    sig.kind == SignatureKind::LegacyDelegated
}

pub open spec fn or_zero(c: Option<u64>) -> u64 {
    match c {
        Some(c) => c,
        None => 0,
    }
}

/// Some signature of `sigs` has already been consumed in `st`.
pub open spec fn replayed(st: StateView, sigs: Seq<Seq<u8>>) -> bool {
    exists|i: int| 0 <= i < sigs.len() && st.seen_signatures.contains(sigs[i])
}

/// The chain-id rule for a signer that is a member of `st`.
pub open spec fn chain_check(st: StateView, sig: VerifiedSignature) -> Result<(), ErrorView> {
    match st.get(sig.signer@) {
        Some(m) => if m.added_on_chain_id == sig.chain_id {
            Ok(())
        } else {
            Err(ErrorView::ChainIdMismatch(or_zero(m.added_on_chain_id), or_zero(sig.chain_id)))
        },
        None => Ok(()),
    }
}

/// The checks shared by revocation and change of recovery identity: the
/// signer must be the recovery identity, with a live signature.
pub open spec fn recovery_check(st: StateView, sig: VerifiedSignature, sigs: Seq<Seq<u8>>) -> Result<(), ErrorView> {
    if replayed(st, sigs) {
        Err(ErrorView::Replay)
    } else if chain_check(st, sig) is Err {
        chain_check(st, sig)
    } else if is_legacy(sig) {
        Err(ErrorView::SignatureNotAllowed(MemberKind::Ethereum, SignatureKind::LegacyDelegated))
    } else if sig.signer@ != st.recovery_identifier {
        Err(ErrorView::MissingExistingMember)
    } else {
        Ok(())
    }
}

/// Whether `signature` is a legacy delegated signature.
pub fn is_legacy_signature(signature: &VerifiedSignature) -> (r: bool)
    ensures
        r == is_legacy(*signature),
{
    signature.kind == SignatureKind::LegacyDelegated
}

/// An installation may not add an installation; every other pair may associate.
pub fn allowed_association(existing_member_kind: MemberKind, new_member_kind: MemberKind) -> (r:
    Result<(), AssociationError>)
    ensures
        check_view(r) == if existing_member_kind == MemberKind::Installation && new_member_kind
            == MemberKind::Installation {
            Err(ErrorView::MemberNotAllowed(existing_member_kind, new_member_kind))
        } else {
            Ok(())
        },
{
    if existing_member_kind == MemberKind::Installation && new_member_kind
        == MemberKind::Installation {
        return Err(AssociationError::MemberNotAllowed(existing_member_kind, new_member_kind));
    }
    Ok(())
}

/// The signature kind must suit the role of the identity that signed.
pub fn allowed_signature_for_kind(role: &MemberKind, signature_kind: &SignatureKind) -> (r: Result<
    (),
    AssociationError,
>)
    ensures
        check_view(r) == if signature_allowed(*role, *signature_kind) {
            Ok(())
        } else {
            Err(ErrorView::SignatureNotAllowed(*role, *signature_kind))
        },
{
    let is_ok = match role {
        MemberKind::Ethereum => match signature_kind {
            SignatureKind::Erc191 | SignatureKind::Erc1271 | SignatureKind::LegacyDelegated => true,
            _ => false,
        },
        MemberKind::Installation => match signature_kind {
            SignatureKind::InstallationKey => true,
            _ => false,
        },
        MemberKind::Passkey => match signature_kind {
            SignatureKind::P256 => true,
            _ => false,
        },
    };
    if !is_ok {
        return Err(AssociationError::SignatureNotAllowed(*role, *signature_kind));
    }
    Ok(())
}

/// A member must keep signing from the chain it was added on.
pub fn verify_chain_id_matches(member: &Member, signature: &VerifiedSignature) -> (r: Result<
    (),
    AssociationError,
>)
    ensures
        check_view(r) == if member.added_on_chain_id == signature.chain_id {
            Ok(())
        } else {
            Err(
                ErrorView::ChainIdMismatch(
                    or_zero(member.added_on_chain_id),
                    or_zero(signature.chain_id),
                ),
            )
        },
{
    if member.added_on_chain_id != signature.chain_id {
        let a = match member.added_on_chain_id {
            Some(c) => c,
            None => 0,
        };
        let b = match signature.chain_id {
            Some(c) => c,
            None => 0,
        };
        return Err(AssociationError::ChainIdMismatch(a, b));
    }
    Ok(())
}

/// Refuses signatures that `state` has already consumed.
pub fn replay_check(signatures: &Vec<Vec<u8>>, state: &AssociationState) -> (r: Result<
    (),
    AssociationError,
>)
    ensures
        check_view(r) == if replayed(state@, bytes_view(signatures@)) {
            Err(ErrorView::Replay)
        } else {
            Ok(())
        },
{
    let ghost sigs = bytes_view(signatures@);
    let mut i: usize = 0;
    while i < signatures.len()
        invariant
            i <= signatures.len(),
            sigs == bytes_view(signatures@),
            forall|j: int| 0 <= j < i ==> !state@.seen_signatures.contains(#[trigger] sigs[j]),
        decreases signatures.len() - i,
    {
        if state.has_seen(&signatures[i]) {
            assert(state@.seen_signatures.contains(sigs[i as int]));
            return Err(AssociationError::Replay);
        }
        i = i + 1;
    }
    Ok(())
}

fn check_recovery_signer(
    state: &AssociationState,
    signature: &VerifiedSignature,
    signatures: &Vec<Vec<u8>>,
) -> (r: Result<(), AssociationError>)
    requires
        state.wf(),
    ensures
        check_view(r) == recovery_check(state@, *signature, bytes_view(signatures@)),
{
    match replay_check(signatures, state) {
        Err(e) => return Err(e),
        Ok(_) => {},
    }
    match state.get(&signature.signer) {
        Some(member) => match verify_chain_id_matches(member, signature) {
            Err(e) => return Err(e),
            Ok(_) => {},
        },
        None => {},
    }
    if is_legacy_signature(signature) {
        return Err(
            AssociationError::SignatureNotAllowed(MemberKind::Ethereum, SignatureKind::LegacyDelegated),
        );
    }
    if !state.recovery_identifier().equals_member(&signature.signer) {
        return Err(AssociationError::MissingExistingMember);
    }
    Ok(())
}

fn single_signature(signature: &VerifiedSignature) -> (r: Vec<Vec<u8>>)
    ensures
        bytes_view(r@) == seq![signature.raw_bytes@],
{
    let mut r: Vec<Vec<u8>> = Vec::new();
    r.push(copy_bytes(&signature.raw_bytes));
    assert(bytes_view(r@) =~= seq![signature.raw_bytes@]);
    r
}

/// Creates an inbox; the account signs for itself.
#[derive(Debug, Clone)]
pub struct CreateInbox {
    pub nonce: u64,
    pub account_identifier: Identifier,
    pub initial_identifier_signature: VerifiedSignature,
}

impl CreateInbox {
    pub open spec fn spec_signatures(&self) -> Seq<Seq<u8>> {
        seq![self.initial_identifier_signature.raw_bytes@]
    }

    pub open spec fn spec_update(&self, existing: Option<StateView>) -> Result<StateView, ErrorView> {
        let sig = self.initial_identifier_signature;
        let account = self.account_identifier@;
        if existing is Some {
            Err(ErrorView::MultipleCreate)
        } else if sig.signer@ != account {
            Err(ErrorView::MissingExistingMember)
        } else if !signature_allowed(account.kind(), sig.kind) {
            Err(ErrorView::SignatureNotAllowed(account.kind(), sig.kind))
        } else if is_legacy(sig) && self.nonce != 0 {
            Err(ErrorView::LegacySignatureReuse)
        } else {
            Ok(StateView::initial(account, self.nonce, sig.chain_id))
        }
    }

    pub fn update_state(&self, existing_state: Option<AssociationState>, _client_timestamp_ns: u64) -> (r:
        Result<AssociationState, AssociationError>)
        ensures
            outcome(r) == self.spec_update(state_view(existing_state)),
            r matches Ok(s) ==> s.wf(),
    {
        if existing_state.is_some() {
            return Err(AssociationError::MultipleCreate);
        }
        let sig = &self.initial_identifier_signature;
        if !self.account_identifier.equals_member(&sig.signer) {
            return Err(AssociationError::MissingExistingMember);
        }
        match allowed_signature_for_kind(&self.account_identifier.kind(), &sig.kind) {
            Err(e) => return Err(e),
            Ok(_) => {},
        }
        if sig.kind == SignatureKind::LegacyDelegated && self.nonce != 0 {
            return Err(AssociationError::LegacySignatureReuse);
        }
        Ok(AssociationState::new(self.account_identifier.copy(), self.nonce, sig.chain_id))
    }

    pub fn signatures(&self) -> (r: Vec<Vec<u8>>)
        ensures
            bytes_view(r@) == self.spec_signatures(),
    {
        single_signature(&self.initial_identifier_signature)
    }
}

/// Adds a member, authorised by an existing member or by the recovery identity.
#[derive(Debug, Clone)]
pub struct AddAssociation {
    pub new_member_signature: VerifiedSignature,
    pub new_member_identifier: MemberIdentifier,
    pub existing_member_signature: VerifiedSignature,
}

impl AddAssociation {
    pub open spec fn spec_signatures(&self) -> Seq<Seq<u8>> {
        seq![self.existing_member_signature.raw_bytes@, self.new_member_signature.raw_bytes@]
    }

    /// Legacy delegated signatures are only good on the inbox the acting
    /// account made with nonce 0.
    pub open spec fn legacy_misused(&self, st: StateView) -> bool {
        let existing = self.existing_member_signature.signer@;
        existing.is_account() && (is_legacy(self.new_member_signature) || is_legacy(
            self.existing_member_signature,
        )) && st.inbox_id != inbox_id_of(existing, 0)
    }

    /// The rules that follow once the authority is known.
    pub open spec fn spec_finish(&self, st: StateView, authority: IdView, timestamp_ns: u64) -> Result<
        StateView,
        ErrorView,
    > {
        let existing = self.existing_member_signature;
        let new_kind = self.new_member_identifier@.kind();
        if !signature_allowed(authority.kind(), existing.kind) {
            Err(ErrorView::SignatureNotAllowed(authority.kind(), existing.kind))
        } else if existing.signer@.kind() == MemberKind::Installation && new_kind
            == MemberKind::Installation {
            Err(ErrorView::MemberNotAllowed(existing.signer@.kind(), new_kind))
        } else {
            Ok(
                st.add(
                    MemberView {
                        identifier: self.new_member_signature.signer@,
                        parent: Some(authority),
                        added_on_ns: Some(timestamp_ns),
                        added_on_chain_id: self.new_member_signature.chain_id,
                    },
                ),
            )
        }
    }

    pub open spec fn spec_update(&self, existing: Option<StateView>, timestamp_ns: u64) -> Result<
        StateView,
        ErrorView,
    > {
        let new_sig = self.new_member_signature;
        let existing_sig = self.existing_member_signature;
        match existing {
            None => Err(ErrorView::NotCreated),
            Some(st) => if replayed(st, self.spec_signatures()) {
                Err(ErrorView::Replay)
            } else if new_sig.signer@ != self.new_member_identifier@ {
                Err(ErrorView::NewMemberIdSignatureMismatch)
            } else if new_sig.signer@ == existing_sig.signer@ {
                Err(ErrorView::Generic)
            } else if self.legacy_misused(st) {
                Err(ErrorView::LegacySignatureReuse)
            } else if !signature_allowed(self.new_member_identifier@.kind(), new_sig.kind) {
                Err(
                    ErrorView::SignatureNotAllowed(
                        self.new_member_identifier@.kind(),
                        new_sig.kind,
                    ),
                )
            } else {
                match st.get(existing_sig.signer@) {
                    Some(m) => if m.added_on_chain_id != existing_sig.chain_id {
                        Err(
                            ErrorView::ChainIdMismatch(
                                or_zero(m.added_on_chain_id),
                                or_zero(existing_sig.chain_id),
                            ),
                        )
                    } else {
                        self.spec_finish(st, m.identifier, timestamp_ns)
                    },
                    None => if existing_sig.signer@ != st.recovery_identifier {
                        Err(ErrorView::MissingExistingMember)
                    } else if is_legacy(existing_sig) {
                        Err(ErrorView::LegacySignatureReuse)
                    } else {
                        self.spec_finish(st, st.recovery_identifier, timestamp_ns)
                    },
                }
            },
        }
    }

    pub fn update_state(
        &self,
        maybe_existing_state: Option<AssociationState>,
        client_timestamp_ns: u64,
    ) -> (r: Result<AssociationState, AssociationError>)
        requires
            state_ok(maybe_existing_state),
        ensures
            outcome(r) == self.spec_update(state_view(maybe_existing_state), client_timestamp_ns),
            r matches Ok(s) ==> s.wf(),
    {
        let existing_state = match maybe_existing_state {
            Some(s) => s,
            None => return Err(AssociationError::NotCreated),
        };
        match replay_check(&self.signatures(), &existing_state) {
            Err(e) => return Err(e),
            Ok(_) => {},
        }
        let new_member_address = &self.new_member_signature.signer;
        let existing_member_identifier = &self.existing_member_signature.signer;
        if !new_member_address.equals(&self.new_member_identifier) {
            return Err(AssociationError::NewMemberIdSignatureMismatch);
        }
        if new_member_address.equals(existing_member_identifier) {
            return Err(AssociationError::Generic("tried to add self".to_string()));
        }
        match existing_member_identifier.to_identifier() {
            Some(identifier) => {
                if is_legacy_signature(&self.new_member_signature) || is_legacy_signature(
                    &self.existing_member_signature,
                ) {
                    let legacy_inbox = identifier.inbox_id(0);
                    if !existing_state.inbox_id().eq(&legacy_inbox) {
                        return Err(AssociationError::LegacySignatureReuse);
                    }
                }
            },
            None => {},
        }
        match allowed_signature_for_kind(
            &self.new_member_identifier.kind(),
            &self.new_member_signature.kind,
        ) {
            Err(e) => return Err(e),
            Ok(_) => {},
        }
        let existing_entity_id = match existing_state.get(existing_member_identifier) {
            Some(member) => {
                match verify_chain_id_matches(member, &self.existing_member_signature) {
                    Err(e) => return Err(e),
                    Ok(_) => {},
                }
                member.identifier.copy()
            },
            None => {
                let recovery_identifier =
                    existing_state.recovery_identifier().to_member_identifier();
                if !existing_member_identifier.equals(&recovery_identifier) {
                    return Err(AssociationError::MissingExistingMember);
                }
                if is_legacy_signature(&self.existing_member_signature) {
                    return Err(AssociationError::LegacySignatureReuse);
                }
                recovery_identifier
            },
        };
        match allowed_signature_for_kind(
            &existing_entity_id.kind(),
            &self.existing_member_signature.kind,
        ) {
            Err(e) => return Err(e),
            Ok(_) => {},
        }
        match allowed_association(
            existing_member_identifier.kind(),
            self.new_member_identifier.kind(),
        ) {
            Err(e) => return Err(e),
            Ok(_) => {},
        }
        let new_member = Member::new(
            new_member_address.copy(),
            Some(existing_entity_id),
            Some(client_timestamp_ns),
            self.new_member_signature.chain_id,
        );
        Ok(existing_state.add(new_member))
    }

    pub fn signatures(&self) -> (r: Vec<Vec<u8>>)
        ensures
            bytes_view(r@) == self.spec_signatures(),
    {
        let mut r: Vec<Vec<u8>> = Vec::new();
        r.push(copy_bytes(&self.existing_member_signature.raw_bytes));
        r.push(copy_bytes(&self.new_member_signature.raw_bytes));
        assert(bytes_view(r@) =~= self.spec_signatures());
        r
    }
}

/// Revokes a member, signed by the recovery identity; the member's
/// installations go with it.
#[derive(Debug, Clone)]
pub struct RevokeAssociation {
    pub recovery_identifier_signature: VerifiedSignature,
    pub revoked_member: MemberIdentifier,
}

impl RevokeAssociation {
    pub open spec fn spec_signatures(&self) -> Seq<Seq<u8>> {
        seq![self.recovery_identifier_signature.raw_bytes@]
    }

    pub open spec fn spec_update(&self, existing: Option<StateView>) -> Result<StateView, ErrorView> {
        match existing {
            None => Err(ErrorView::NotCreated),
            Some(st) => match recovery_check(
                st,
                self.recovery_identifier_signature,
                self.spec_signatures(),
            ) {
                Err(e) => Err(e),
                Ok(_) => Ok(st.revoke(self.revoked_member@)),
            },
        }
    }

    pub fn update_state(
        &self,
        maybe_existing_state: Option<AssociationState>,
        _client_timestamp_ns: u64,
    ) -> (r: Result<AssociationState, AssociationError>)
        requires
            state_ok(maybe_existing_state),
        ensures
            outcome(r) == self.spec_update(state_view(maybe_existing_state)),
            r matches Ok(s) ==> s.wf(),
    {
        let existing_state = match maybe_existing_state {
            Some(s) => s,
            None => return Err(AssociationError::NotCreated),
        };
        match check_recovery_signer(
            &existing_state,
            &self.recovery_identifier_signature,
            &self.signatures(),
        ) {
            Err(e) => return Err(e),
            Ok(_) => {},
        }
        Ok(existing_state.revoke(&self.revoked_member))
    }

    pub fn signatures(&self) -> (r: Vec<Vec<u8>>)
        ensures
            bytes_view(r@) == self.spec_signatures(),
    {
        single_signature(&self.recovery_identifier_signature)
    }
}

/// Hands the recovery role to another account, signed by the current one.
#[derive(Debug, Clone)]
pub struct ChangeRecoveryIdentity {
    pub recovery_identifier_signature: VerifiedSignature,
    pub new_recovery_identifier: Identifier,
}

impl ChangeRecoveryIdentity {
    pub open spec fn spec_signatures(&self) -> Seq<Seq<u8>> {
        seq![self.recovery_identifier_signature.raw_bytes@]
    }

    pub open spec fn spec_update(&self, existing: Option<StateView>) -> Result<StateView, ErrorView> {
        match existing {
            None => Err(ErrorView::NotCreated),
            Some(st) => match recovery_check(
                st,
                self.recovery_identifier_signature,
                self.spec_signatures(),
            ) {
                Err(e) => Err(e),
                Ok(_) => Ok(st.with_recovery_identifier(self.new_recovery_identifier@)),
            },
        }
    }

    pub fn update_state(
        &self,
        existing_state: Option<AssociationState>,
        _client_timestamp_ns: u64,
    ) -> (r: Result<AssociationState, AssociationError>)
        requires
            state_ok(existing_state),
        ensures
            outcome(r) == self.spec_update(state_view(existing_state)),
            r matches Ok(s) ==> s.wf(),
    {
        let existing_state = match existing_state {
            Some(s) => s,
            None => return Err(AssociationError::NotCreated),
        };
        match check_recovery_signer(
            &existing_state,
            &self.recovery_identifier_signature,
            &self.signatures(),
        ) {
            Err(e) => return Err(e),
            Ok(_) => {},
        }
        Ok(existing_state.set_recovery_identifier(self.new_recovery_identifier.copy()))
    }

    pub fn signatures(&self) -> (r: Vec<Vec<u8>>)
        ensures
            bytes_view(r@) == self.spec_signatures(),
    {
        single_signature(&self.recovery_identifier_signature)
    }
}

/// Any action that can stand in an identity update.
#[derive(Debug, Clone)]
pub enum Action {
    CreateInbox(CreateInbox),
    AddAssociation(AddAssociation),
    RevokeAssociation(RevokeAssociation),
    ChangeRecoveryIdentity(ChangeRecoveryIdentity),
}

impl Action {
    pub open spec fn spec_signatures(&self) -> Seq<Seq<u8>> {
        match self {
            Action::CreateInbox(a) => a.spec_signatures(),
            Action::AddAssociation(a) => a.spec_signatures(),
            Action::RevokeAssociation(a) => a.spec_signatures(),
            Action::ChangeRecoveryIdentity(a) => a.spec_signatures(),
        }
    }

    pub open spec fn spec_update(&self, existing: Option<StateView>, timestamp_ns: u64) -> Result<
        StateView,
        ErrorView,
    > {
        match self {
            Action::CreateInbox(a) => a.spec_update(existing),
            Action::AddAssociation(a) => a.spec_update(existing, timestamp_ns),
            Action::RevokeAssociation(a) => a.spec_update(existing),
            Action::ChangeRecoveryIdentity(a) => a.spec_update(existing),
        }
    }

    pub fn update_state(&self, existing_state: Option<AssociationState>, client_timestamp_ns: u64) -> (r:
        Result<AssociationState, AssociationError>)
        requires
            state_ok(existing_state),
        ensures
            outcome(r) == self.spec_update(state_view(existing_state), client_timestamp_ns),
            r matches Ok(s) ==> s.wf(),
    {
        match self {
            Action::CreateInbox(event) => event.update_state(existing_state, client_timestamp_ns),
            Action::AddAssociation(event) => event.update_state(existing_state, client_timestamp_ns),
            Action::RevokeAssociation(event) => event.update_state(
                existing_state,
                client_timestamp_ns,
            ),
            Action::ChangeRecoveryIdentity(event) => event.update_state(
                existing_state,
                client_timestamp_ns,
            ),
        }
    }

    pub fn signatures(&self) -> (r: Vec<Vec<u8>>)
        ensures
            bytes_view(r@) == self.spec_signatures(),
    {
        match self {
            Action::CreateInbox(event) => event.signatures(),
            Action::AddAssociation(event) => event.signatures(),
            Action::RevokeAssociation(event) => event.signatures(),
            Action::ChangeRecoveryIdentity(event) => event.signatures(),
        }
    }
}

/// Applies `actions` in order from `start`; the first error stops the fold.
pub open spec fn apply_actions(actions: Seq<Action>, start: Option<StateView>, timestamp_ns: u64) -> Result<
    Option<StateView>,
    ErrorView,
>
    decreases actions.len(),
{
    if actions.len() == 0 {
        Ok(start)
    } else {
        match apply_actions(actions.drop_last(), start, timestamp_ns) {
            Err(e) => Err(e),
            Ok(s) => match actions.last().spec_update(s, timestamp_ns) {
                Err(e) => Err(e),
                Ok(n) => Ok(Some(n)),
            },
        }
    }
}

/// Every signature of `actions`, in order.
pub open spec fn all_signatures(actions: Seq<Action>) -> Seq<Seq<u8>>
    decreases actions.len(),
{
    if actions.len() == 0 {
        Seq::empty()
    } else {
        all_signatures(actions.drop_last()) + actions.last().spec_signatures()
    }
}

/// Once a prefix of `actions` fails, the whole fold fails with the same error.
pub proof fn lemma_failure_persists(actions: Seq<Action>, start: Option<StateView>, ts: u64, i: int, e: ErrorView)
    requires
        0 <= i <= actions.len(),
        apply_actions(actions.subrange(0, i), start, ts) == Err::<Option<StateView>, ErrorView>(e),
    ensures
        apply_actions(actions, start, ts) == Err::<Option<StateView>, ErrorView>(e),
    decreases actions.len() - i,
{
    if i < actions.len() {
        let next = actions.subrange(0, i + 1);
        assert(next.drop_last() =~= actions.subrange(0, i));
        lemma_failure_persists(actions, start, ts, i + 1, e);
    } else {
        assert(actions.subrange(0, i) =~= actions);
    }
}

/// One or more actions applied to an inbox as a single atomic step.
#[derive(Debug, Clone)]
pub struct IdentityUpdate {
    pub inbox_id: String,
    pub client_timestamp_ns: u64,
    pub actions: Vec<Action>,
}

impl IdentityUpdate {
    pub fn new(actions: Vec<Action>, inbox_id: String, client_timestamp_ns: u64) -> (r: Self)
        ensures
            r.actions == actions,
            r.inbox_id == inbox_id,
            r.client_timestamp_ns == client_timestamp_ns,
    {
        IdentityUpdate { inbox_id, actions, client_timestamp_ns }
    }

    pub open spec fn spec_signatures(&self) -> Seq<Seq<u8>> {
        all_signatures(self.actions@)
    }

    /// All actions succeed in order, the result belongs to the declared
    /// inbox, and then every signature of the update is marked as seen.
    pub open spec fn spec_update(&self, existing: Option<StateView>) -> Result<StateView, ErrorView> {
        match apply_actions(self.actions@, existing, self.client_timestamp_ns) {
            Err(e) => Err(e),
            Ok(None) => Err(ErrorView::NotCreated),
            Ok(Some(s)) => if s.inbox_id != self.inbox_id@ {
                Err(ErrorView::WrongInboxId)
            } else {
                Ok(s.with_seen(self.spec_signatures()))
            },
        }
    }

    pub fn update_state(&self, existing_state: Option<AssociationState>, _client_timestamp_ns: u64) -> (r:
        Result<AssociationState, AssociationError>)
        requires
            state_ok(existing_state),
        ensures
            outcome(r) == self.spec_update(state_view(existing_state)),
            r matches Ok(s) ==> s.wf(),
    {
        let ghost start = state_view(existing_state);
        let ghost ts = self.client_timestamp_ns;
        let mut state = existing_state;
        let mut i: usize = 0;
        while i < self.actions.len()
            invariant
                i <= self.actions.len(),
                state_ok(state),
                ts == self.client_timestamp_ns,
                start == state_view(existing_state),
                apply_actions(self.actions@.subrange(0, i as int), start, ts) == Ok::<
                    Option<StateView>,
                    ErrorView,
                >(state_view(state)),
            decreases self.actions.len() - i,
        {
            proof {
                assert(self.actions@.subrange(0, i + 1).drop_last() =~= self.actions@.subrange(
                    0,
                    i as int,
                ));
            }
            let ghost before = state_view(state);
            let res = self.actions[i].update_state(state, self.client_timestamp_ns);
            proof {
                assert(self.actions@.subrange(0, i + 1).last() == self.actions@[i as int]);
            }
            match res {
                Err(e) => {
                    proof {
                        assert(self.actions@[i as int].spec_update(before, ts) == Err::<
                            StateView,
                            ErrorView,
                        >(e@));
                        lemma_failure_persists(self.actions@, start, ts, i + 1, e@);
                    }
                    return Err(e);
                },
                Ok(s) => {
                    state = Some(s);
                },
            }
            i = i + 1;
        }
        assert(self.actions@.subrange(0, self.actions.len() as int) =~= self.actions@);
        let new_state = match state {
            Some(s) => s,
            None => return Err(AssociationError::NotCreated),
        };
        if !new_state.inbox_id().eq(&self.inbox_id) {
            return Err(AssociationError::WrongInboxId);
        }
        let signatures = self.signatures();
        Ok(new_state.add_seen_signatures(&signatures))
    }

    pub fn signatures(&self) -> (r: Vec<Vec<u8>>)
        ensures
            bytes_view(r@) == self.spec_signatures(),
    {
        let mut r: Vec<Vec<u8>> = Vec::new();
        let mut i: usize = 0;
        while i < self.actions.len()
            invariant
                i <= self.actions.len(),
                bytes_view(r@) == all_signatures(self.actions@.subrange(0, i as int)),
            decreases self.actions.len() - i,
        {
            let mut sigs = self.actions[i].signatures();
            let ghost before = bytes_view(r@);
            let ghost added = bytes_view(sigs@);
            r.append(&mut sigs);
            proof {
                assert(self.actions@.subrange(0, i + 1).drop_last() =~= self.actions@.subrange(
                    0,
                    i as int,
                ));
                assert(bytes_view(r@) =~= before + added);
            }
            i = i + 1;
        }
        assert(self.actions@.subrange(0, self.actions.len() as int) =~= self.actions@);
        r
    }
}

} // verus!
