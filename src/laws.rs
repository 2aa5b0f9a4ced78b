//! Properties of the engine that hold for every state and every action.
use vstd::prelude::*;

use crate::association_log::{
    apply_actions, lemma_failure_persists, signature_allowed, Action, AddAssociation, CreateInbox,
    ErrorView, IdentityUpdate,
};
use crate::member::{IdView, MemberKind, MemberView};
use crate::state::{survives, survivor, StateView};

verus! {

/// Folds a log of updates from `start`; the first refused update stops it.
pub open spec fn replay_log(updates: Seq<IdentityUpdate>, start: Option<StateView>) -> Result<
    StateView,
    ErrorView,
>
    decreases updates.len(),
{
    if updates.len() == 0 {
        match start {
            Some(s) => Ok(s),
            None => Err(ErrorView::NotCreated),
        }
    } else {
        match replay_log(updates.drop_last(), start) {
            Err(e) => Err(e),
            Ok(s) => updates.last().spec_update(Some(s)),
        }
    }
}

/// Two replicas that start from the same state and apply the same ordered
/// log of updates reach the same result, and one action applied to one
/// state always has the same outcome.
pub proof fn replicas_converge(
    updates: Seq<IdentityUpdate>,
    first: Option<StateView>,
    second: Option<StateView>,
    action: Action,
    timestamp_ns: u64,
)
    requires
        first == second,
    ensures
        replay_log(updates, first) == replay_log(updates, second),
        action.spec_update(first, timestamp_ns) == action.spec_update(second, timestamp_ns),
{
}

/// Creating an inbox that already exists always fails with `MultipleCreate`.
pub proof fn create_only_once(create: CreateInbox, existing: StateView)
    ensures
        create.spec_update(Some(existing)) == Err::<StateView, ErrorView>(ErrorView::MultipleCreate),
{
}

/// An action other than creation that carries a signature the state has
/// already seen fails with `Replay`.
pub proof fn replayed_signature_rejected(
    action: Action,
    existing: StateView,
    signature: Seq<u8>,
    timestamp_ns: u64,
)
    requires
        !(action is CreateInbox),
        action.spec_signatures().contains(signature),
        existing.seen_signatures.contains(signature),
    ensures
        action.spec_update(Some(existing), timestamp_ns) == Err::<StateView, ErrorView>(
            ErrorView::Replay,
        ),
{
}

/// An update on an existing inbox whose first action is not a creation and
/// reuses a seen signature fails with `Replay` as a whole.
pub proof fn update_with_replayed_signature_rejected(
    update: IdentityUpdate,
    existing: StateView,
    signature: Seq<u8>,
)
    requires
        update.actions@.len() > 0,
        !(update.actions@[0] is CreateInbox),
        update.actions@[0].spec_signatures().contains(signature),
        existing.seen_signatures.contains(signature),
    ensures
        update.spec_update(Some(existing)) == Err::<StateView, ErrorView>(ErrorView::Replay),
{
    let actions = update.actions@;
    let ts = update.client_timestamp_ns;
    replayed_signature_rejected(actions[0], existing, signature, ts);
    let first = actions.subrange(0, 1);
    assert(first.drop_last() =~= actions.subrange(0, 0));
    assert(actions.subrange(0, 0).len() == 0);
    assert(apply_actions(first.drop_last(), Some(existing), ts) == Ok::<Option<StateView>, ErrorView>(
        Some(existing),
    ));
    assert(first.last() == actions[0]);
    assert(apply_actions(first, Some(existing), ts) == Err::<Option<StateView>, ErrorView>(
        ErrorView::Replay,
    ));
    lemma_failure_persists(actions, Some(existing), ts, 1, ErrorView::Replay);
}

proof fn lemma_filter_twice(ms: Seq<MemberView>, p: spec_fn(MemberView) -> bool)
    ensures
        ms.filter(p).filter(p) == ms.filter(p),
    decreases ms.len(),
{
    reveal(Seq::filter);
    if ms.len() > 0 {
        let init = ms.drop_last();
        lemma_filter_twice(init, p);
        if p(ms.last()) {
            init.filter(p).lemma_filter_push(ms.last(), p);
        }
    }
}

/// Removing a member twice gives the same state as removing it once.
pub proof fn remove_is_idempotent(state: StateView, id: IdView)
    ensures
        state.remove(id).remove(id) == state.remove(id),
{
    lemma_filter_twice(state.members, survivor(id, false));
}

/// Revoking `id` removes `id` and exactly its direct children that are
/// installations; every other member, other children and grandchildren
/// included, stays, and nothing new appears.
pub proof fn revocation_cascades_to_installations(state: StateView, id: IdView, m: MemberView)
    ensures
        state.members.contains(m) ==> (state.revoke(id).members.contains(m) <==> (m.identifier
            != id && !(m.parent == Some(id) && m.identifier.kind() == MemberKind::Installation))),
        state.revoke(id).members.contains(m) ==> state.members.contains(m),
{
    let p = survivor(id, true);
    if state.revoke(id).members.contains(m) {
        state.members.lemma_filter_contains_rev(p, m);
        let k = choose|k: int| 0 <= k < state.members.filter(p).len() && state.members.filter(p)[k] == m;
        state.members.lemma_filter_pred(p, k);
        assert(survives(m, id, true));
    }
    if state.members.contains(m) && survives(m, id, true) {
        let k = choose|k: int| 0 <= k < state.members.len() && state.members[k] == m;
        state.members.lemma_filter_contains(p, k);
    }
}

/// Creating an inbox with a signature kind that does not suit the account's
/// role fails with `SignatureNotAllowed`, once the signer matches the account.
pub proof fn create_with_wrong_signature_kind_rejected(create: CreateInbox)
    requires
        create.initial_identifier_signature.signer@ == create.account_identifier@,
        !signature_allowed(
            create.account_identifier@.kind(),
            create.initial_identifier_signature.kind,
        ),
    ensures
        create.spec_update(None) == Err::<StateView, ErrorView>(
            ErrorView::SignatureNotAllowed(
                create.account_identifier@.kind(),
                create.initial_identifier_signature.kind,
            ),
        ),
{
}

/// Adding a member with a signature kind that does not suit the new
/// member's role fails with `SignatureNotAllowed`, once the checks that come
/// first (no replay, matching signer, no self-add, legacy rule) have passed.
pub proof fn add_with_wrong_signature_kind_rejected(
    add: AddAssociation,
    existing: StateView,
    timestamp_ns: u64,
)
    requires
        !crate::association_log::replayed(existing, add.spec_signatures()),
        add.new_member_signature.signer@ == add.new_member_identifier@,
        add.new_member_signature.signer@ != add.existing_member_signature.signer@,
        !add.legacy_misused(existing),
        !signature_allowed(add.new_member_identifier@.kind(), add.new_member_signature.kind),
    ensures
        add.spec_update(Some(existing), timestamp_ns) == Err::<StateView, ErrorView>(
            ErrorView::SignatureNotAllowed(
                add.new_member_identifier@.kind(),
                add.new_member_signature.kind,
            ),
        ),
{
}

proof fn lemma_actions_keep_identity(actions: Seq<Action>, start: StateView, timestamp_ns: u64)
    ensures
        apply_actions(actions, Some(start), timestamp_ns) matches Ok(Some(n)) ==> n.inbox_id
            == start.inbox_id && n.seen_signatures == start.seen_signatures,
        apply_actions(actions, Some(start), timestamp_ns) is Ok ==> apply_actions(
            actions,
            Some(start),
            timestamp_ns,
        ) != Ok::<Option<StateView>, ErrorView>(None),
    decreases actions.len(),
{
    if actions.len() > 0 {
        lemma_actions_keep_identity(actions.drop_last(), start, timestamp_ns);
    }
}

/// An update applied to an existing inbox never changes its inbox id, and
/// the signatures it had seen stay seen.
pub proof fn update_keeps_inbox_and_seen(update: IdentityUpdate, existing: StateView)
    ensures
        update.spec_update(Some(existing)) matches Ok(n) ==> n.inbox_id == existing.inbox_id
            && existing.seen_signatures.subset_of(n.seen_signatures),
{
    lemma_actions_keep_identity(update.actions@, existing, update.client_timestamp_ns);
}

} // verus!
