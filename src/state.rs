//! The membership state of one inbox.
use vstd::prelude::*;

use crate::inbox_id::inbox_id_of;
use crate::member::{copy_bytes, bytes_equal, IdView, Identifier, Member, MemberIdentifier, MemberKind, MemberView};

verus! {

/// Mathematical value of an inbox's state.
pub struct StateView {
    pub inbox_id: Seq<char>,
    pub recovery_identifier: IdView,
    pub members: Seq<MemberView>,
    pub seen_signatures: Set<Seq<u8>>,
}

/// No two members share an identifier.
pub open spec fn unique_ids(ms: Seq<MemberView>) -> bool {
    forall|i: int, j: int|
        0 <= i < ms.len() && 0 <= j < ms.len() && i != j ==> ms[i].identifier != ms[j].identifier
}

pub open spec fn has_id(ms: Seq<MemberView>, id: IdView) -> bool {
    exists|i: int| 0 <= i < ms.len() && ms[i].identifier == id
}

pub open spec fn index_of(ms: Seq<MemberView>, id: IdView) -> int {
    choose|i: int| 0 <= i < ms.len() && ms[i].identifier == id
}

/// Whether member `m` stays when `id` is removed; with `cascade`, the
/// installations whose parent is `id` go too.
pub open spec fn survives(m: MemberView, id: IdView, cascade: bool) -> bool {
    m.identifier != id && !(cascade && m.parent == Some(id) && m.identifier.kind()
        == MemberKind::Installation)
}

/// The predicate of [`survives`] for a fixed target.
pub open spec fn survivor(id: IdView, cascade: bool) -> spec_fn(MemberView) -> bool {
    |m: MemberView| survives(m, id, cascade)
}

/// Whether a member is a direct child of `id`.
pub open spec fn child_of(id: IdView) -> spec_fn(MemberView) -> bool {
    |m: MemberView| m.parent == Some(id)
}

impl StateView {
    pub open spec fn wf(self) -> bool {
        unique_ids(self.members) && self.recovery_identifier.is_account()
    }

    /// The state that `creator` makes with `nonce`.
    pub open spec fn initial(creator: IdView, nonce: u64, chain_id: Option<u64>) -> StateView {
        StateView {
            inbox_id: inbox_id_of(creator, nonce),
            recovery_identifier: creator,
            members: seq![
                MemberView {
                    identifier: creator,
                    parent: None,
                    added_on_ns: None,
                    added_on_chain_id: chain_id,
                },
            ],
            seen_signatures: Set::empty(),
        }
    }

    pub open spec fn get(self, id: IdView) -> Option<MemberView> {
        if has_id(self.members, id) {
            Some(self.members[index_of(self.members, id)])
        } else {
            None
        }
    }

    /// Inserts `m`, replacing the member with the same identifier if there is one.
    pub open spec fn add(self, m: MemberView) -> StateView {
        StateView {
            members: if has_id(self.members, m.identifier) {
                self.members.update(index_of(self.members, m.identifier), m)
            } else {
                self.members.push(m)
            },
            ..self
        }
    }

    pub open spec fn remove(self, id: IdView) -> StateView {
        StateView { members: self.members.filter(survivor(id, false)), ..self }
    }

    /// Removes `id` and the installations it is the parent of.
    pub open spec fn revoke(self, id: IdView) -> StateView {
        StateView { members: self.members.filter(survivor(id, true)), ..self }
    }

    pub open spec fn members_by_parent(self, id: IdView) -> Seq<MemberView> {
        self.members.filter(child_of(id))
    }

    pub open spec fn with_recovery_identifier(self, id: IdView) -> StateView {
        StateView { recovery_identifier: id, ..self }
    }

    pub open spec fn with_seen(self, sigs: Seq<Seq<u8>>) -> StateView {
        StateView { seen_signatures: self.seen_signatures.union(sigs.to_set()), ..self }
    }
}

/// Snapshot of an inbox: its id, recovery identity, members and the
/// signatures it has consumed.
#[derive(Debug, Clone)]
pub struct AssociationState {
    inbox_id: String,
    recovery_identifier: Identifier,
    members: Vec<Member>,
    seen_signatures: Vec<Vec<u8>>,
}

pub open spec fn members_view(ms: Seq<Member>) -> Seq<MemberView> {
    ms.map_values(|m: Member| m@)
}

pub open spec fn bytes_view(bs: Seq<Vec<u8>>) -> Seq<Seq<u8>> {
    bs.map_values(|b: Vec<u8>| b@)
}

impl View for AssociationState {
    type V = StateView;

    closed spec fn view(&self) -> StateView {
        StateView {
            inbox_id: self.inbox_id@,
            recovery_identifier: self.recovery_identifier@,
            members: members_view(self.members@),
            seen_signatures: bytes_view(self.seen_signatures@).to_set(),
        }
    }
}

fn find_member(members: &Vec<Member>, id: &MemberIdentifier) -> (r: Option<usize>)
    ensures
        match r {
            Some(i) => i < members.len() && members@[i as int].identifier@ == id@,
            None => !has_id(members_view(members@), id@),
        },
{
    let mut i: usize = 0;
    while i < members.len()
        invariant
            i <= members.len(),
            forall|j: int| 0 <= j < i ==> members@[j].identifier@ != id@,
        decreases members.len() - i,
    {
        if members[i].identifier.equals(id) {
            return Some(i);
        }
        i = i + 1;
    }
    None
}

proof fn lemma_index_of(ms: Seq<MemberView>, id: IdView, i: int)
    requires
        unique_ids(ms),
        0 <= i < ms.len(),
        ms[i].identifier == id,
    ensures
        has_id(ms, id),
        index_of(ms, id) == i,
{
    assert(has_id(ms, id));
}

impl AssociationState {
    pub open spec fn wf(&self) -> bool {
        self@.wf()
    }

    /// The state of a new inbox created by `creator` with `nonce`: `creator` is
    /// its root member and its recovery identity.
    pub fn new(creator: Identifier, nonce: u64, chain_id: Option<u64>) -> (r: AssociationState)
        ensures
            r@ == StateView::initial(creator@, nonce, chain_id),
            r.wf(),
    {
        let inbox_id = creator.inbox_id(nonce);
        let root = Member::new(creator.to_member_identifier(), None, None, chain_id);
        let mut members: Vec<Member> = Vec::new();
        members.push(root);
        let r = AssociationState {
            inbox_id,
            recovery_identifier: creator,
            members,
            seen_signatures: Vec::new(),
        };
        assert(members_view(r.members@) =~= StateView::initial(creator@, nonce, chain_id).members);
        assert(bytes_view(r.seen_signatures@).to_set() =~= Set::empty());
        r
    }

    pub fn inbox_id(&self) -> (r: &String)
        ensures
            r@ == self@.inbox_id,
    {
        &self.inbox_id
    }

    pub fn recovery_identifier(&self) -> (r: &Identifier)
        ensures
            r@ == self@.recovery_identifier,
    {
        &self.recovery_identifier
    }

    /// All members, in insertion order.
    pub fn members(&self) -> (r: &Vec<Member>)
        ensures
            members_view(r@) == self@.members,
    {
        &self.members
    }

    pub fn get(&self, id: &MemberIdentifier) -> (r: Option<&Member>)
        requires
            self.wf(),
        ensures
            match r {
                Some(m) => self@.get(id@) == Some(m@),
                None => self@.get(id@) is None,
            },
    {
        match find_member(&self.members, id) {
            Some(i) => {
                proof {
                    lemma_index_of(self@.members, id@, i as int);
                }
                Some(&self.members[i])
            },
            None => None,
        }
    }

    /// The members whose parent is `id`, in order.
    pub fn members_by_parent(&self, id: &MemberIdentifier) -> (r: Vec<Member>)
        ensures
            members_view(r@) == self@.members_by_parent(id@),
    {
        let ghost pred = child_of(id@);
        let ghost all = self@.members;
        let mut r: Vec<Member> = Vec::new();
        let mut i: usize = 0;
        while i < self.members.len()
            invariant
                i <= self.members.len(),
                all == members_view(self.members@),
                pred == child_of(id@),
                members_view(r@) == all.subrange(0, i as int).filter(pred),
            decreases self.members.len() - i,
        {
            let m = &self.members[i];
            let is_child = match &m.parent {
                Some(p) => {
                    assert(m@.parent == Some(p@));
                    p.equals(id)
                },
                None => false,
            };
            proof {
                assert(all.subrange(0, i + 1) =~= all.subrange(0, i as int).push(all[i as int]));
                all.subrange(0, i as int).lemma_filter_push(all[i as int], pred);
            }
            let ghost before = members_view(r@);
            assert(all[i as int] == m@);
            assert(pred(all[i as int]) == is_child);
            if is_child {
                r.push(m.copy());
                assert(members_view(r@) =~= before.push(all[i as int]));
            }
            assert(members_view(r@) == all.subrange(0, i + 1).filter(pred));
            i = i + 1;
        }
        assert(all.subrange(0, self.members.len() as int) =~= all);
        r
    }

    /// Inserts `member`, replacing the member with the same identifier if there is one.
    pub fn add(self, member: Member) -> (r: AssociationState)
        requires
            self.wf(),
        ensures
            r@ == self@.add(member@),
            r.wf(),
    {
        let ghost old_ms = self@.members;
        let mut s = self;
        match find_member(&s.members, &member.identifier) {
            Some(i) => {
                proof {
                    lemma_index_of(old_ms, member@.identifier, i as int);
                }
                s.members.set(i, member);
                assert(members_view(s.members@) =~= old_ms.update(i as int, member@));
            },
            None => {
                s.members.push(member);
                assert(members_view(s.members@) =~= old_ms.push(member@));
            },
        }
        s
    }

    fn retain_survivors(self, id: &MemberIdentifier, cascade: bool) -> (r: AssociationState)
        requires
            self.wf(),
        ensures
            r@ == (StateView {
                members: self@.members.filter(survivor(id@, cascade)),
                ..self@
            }),
            r.wf(),
    {
        let ghost pred = survivor(id@, cascade);
        let ghost all = self@.members;
        let mut kept: Vec<Member> = Vec::new();
        let mut i: usize = 0;
        while i < self.members.len()
            invariant
                i <= self.members.len(),
                all == members_view(self.members@),
                pred == survivor(id@, cascade),
                unique_ids(all),
                members_view(kept@) == all.subrange(0, i as int).filter(pred),
                unique_ids(members_view(kept@)),
            decreases self.members.len() - i,
        {
            let m = &self.members[i];
            let is_target = m.identifier.equals(id);
            let is_child = match &m.parent {
                Some(p) => {
                    assert(m@.parent == Some(p@));
                    cascade && p.equals(id) && m.kind() == MemberKind::Installation
                },
                None => false,
            };
            let ghost before = members_view(kept@);
            proof {
                assert(all.subrange(0, i + 1) =~= all.subrange(0, i as int).push(all[i as int]));
                all.subrange(0, i as int).lemma_filter_push(all[i as int], pred);
            }
            assert(all[i as int] == m@);
            assert(pred(all[i as int]) == (!is_target && !is_child));
            if !is_target && !is_child {
                kept.push(m.copy());
                proof {
                    assert forall|j: int| 0 <= j < before.len() implies before[j].identifier
                        != all[i as int].identifier by {
                        all.subrange(0, i as int).lemma_filter_contains_rev(pred, before[j]);
                        let k = choose|k: int|
                            0 <= k < i && all.subrange(0, i as int)[k] == before[j];
                        assert(all[k] == before[j]);
                    }
                    assert(members_view(kept@) =~= before.push(all[i as int]));
                }
            }
            assert(members_view(kept@) == all.subrange(0, i + 1).filter(pred));
            i = i + 1;
        }
        assert(all.subrange(0, self.members.len() as int) =~= all);
        AssociationState {
            inbox_id: self.inbox_id,
            recovery_identifier: self.recovery_identifier,
            members: kept,
            seen_signatures: self.seen_signatures,
        }
    }

    /// Removes the member `id`; nothing changes if it is absent.
    pub fn remove(self, id: &MemberIdentifier) -> (r: AssociationState)
        requires
            self.wf(),
        ensures
            r@ == self@.remove(id@),
            r.wf(),
    {
        self.retain_survivors(id, false)
    }

    /// Removes the member `id` together with the installations it is the parent of.
    pub fn revoke(self, id: &MemberIdentifier) -> (r: AssociationState)
        requires
            self.wf(),
        ensures
            r@ == self@.revoke(id@),
            r.wf(),
    {
        self.retain_survivors(id, true)
    }

    pub fn set_recovery_identifier(self, id: Identifier) -> (r: AssociationState)
        requires
            self.wf(),
        ensures
            r@ == self@.with_recovery_identifier(id@),
            r.wf(),
    {
        AssociationState { recovery_identifier: id, ..self }
    }

    /// Whether `signature` has been consumed by an earlier update.
    pub fn has_seen(&self, signature: &Vec<u8>) -> (r: bool)
        ensures
            r == self@.seen_signatures.contains(signature@),
    {
        let ghost seen = bytes_view(self.seen_signatures@);
        let mut i: usize = 0;
        while i < self.seen_signatures.len()
            invariant
                i <= self.seen_signatures.len(),
                seen == bytes_view(self.seen_signatures@),
                forall|j: int| 0 <= j < i ==> seen[j] != signature@,
            decreases self.seen_signatures.len() - i,
        {
            if bytes_equal(&self.seen_signatures[i], signature) {
                assert(seen[i as int] == signature@);
                assert(seen.contains(signature@));
                return true;
            }
            i = i + 1;
        }
        assert(!seen.contains(signature@));
        false
    }

    /// Adds `signatures` to the consumed signatures.
    pub fn add_seen_signatures(self, signatures: &Vec<Vec<u8>>) -> (r: AssociationState)
        requires
            self.wf(),
        ensures
            r@ == self@.with_seen(bytes_view(signatures@)),
            r.wf(),
    {
        let ghost old_seen = bytes_view(self.seen_signatures@);
        let ghost sigs = bytes_view(signatures@);
        let mut s = self;
        let mut i: usize = 0;
        while i < signatures.len()
            invariant
                i <= signatures.len(),
                sigs == bytes_view(signatures@),
                bytes_view(s.seen_signatures@) == old_seen + sigs.subrange(0, i as int),
                s@ == (StateView { seen_signatures: bytes_view(s.seen_signatures@).to_set(), ..self@ }),
                s.wf(),
            decreases signatures.len() - i,
        {
            let c = copy_bytes(&signatures[i]);
            assert(c@ == sigs[i as int]);
            let ghost before = bytes_view(s.seen_signatures@);
            s.seen_signatures.push(c);
            assert(bytes_view(s.seen_signatures@) =~= before.push(c@));
            assert(bytes_view(s.seen_signatures@) =~= old_seen + sigs.subrange(0, i + 1));
            i = i + 1;
        }
        assert(sigs.subrange(0, signatures.len() as int) =~= sigs);
        proof {
            vstd::seq_lib::seq_to_set_distributes_over_add(old_seen, sigs);
        }
        s
    }
}

} // verus!
