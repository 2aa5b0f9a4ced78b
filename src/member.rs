//! Identities that can belong to an inbox, and the members built from them.
use vstd::prelude::*;

verus! {

/// The role an identity plays in an inbox.
#[derive(Debug, Clone, Copy, PartialEq, Eq, Structural)]
pub enum MemberKind {
    Ethereum,
    Passkey,
    Installation,
}

/// Mathematical value of an identity: its kind and its payload.
pub enum IdView {
    Ethereum(Seq<char>),
    Passkey(Seq<u8>),
    Installation(Seq<u8>),
}

impl IdView {
    pub open spec fn kind(self) -> MemberKind {
        match self {
            IdView::Ethereum(_) => MemberKind::Ethereum,
            IdView::Passkey(_) => MemberKind::Passkey,
            IdView::Installation(_) => MemberKind::Installation,
        }
    }

    /// Whether the identity is an account identity (not a device key).
    pub open spec fn is_account(self) -> bool {
        self.kind() != MemberKind::Installation
    }
}

/// An account identity: a chain account address or a passkey public key.
#[derive(Debug, Clone)]
pub enum Identifier {
    Ethereum(String),
    Passkey(Vec<u8>),
}

/// Any identity that can be a member: an account identity or an installation key.
#[derive(Debug, Clone)]
pub enum MemberIdentifier {
    Ethereum(String),
    Passkey(Vec<u8>),
    Installation(Vec<u8>),
}

impl View for Identifier {
    type V = IdView;

    open spec fn view(&self) -> IdView {
        match self {
            Identifier::Ethereum(a) => IdView::Ethereum(a@),
            Identifier::Passkey(k) => IdView::Passkey(k@),
        }
    }
}

impl View for MemberIdentifier {
    type V = IdView;

    open spec fn view(&self) -> IdView {
        match self {
            MemberIdentifier::Ethereum(a) => IdView::Ethereum(a@),
            MemberIdentifier::Passkey(k) => IdView::Passkey(k@),
            MemberIdentifier::Installation(k) => IdView::Installation(k@),
        }
    }
}

/// A copy of a byte string.
pub fn copy_bytes(b: &Vec<u8>) -> (r: Vec<u8>)
    ensures
        r@ == b@,
{
    let mut r: Vec<u8> = Vec::new();
    let mut i: usize = 0;
    while i < b.len()
        invariant
            i <= b.len(),
            r@ == b@.subrange(0, i as int),
        decreases b.len() - i,
    {
        r.push(b[i]);
        i = i + 1;
        assert(r@ =~= b@.subrange(0, i as int));
    }
    assert(r@ =~= b@);
    r
}

/// Whether two byte strings are equal.
pub fn bytes_equal(a: &Vec<u8>, b: &Vec<u8>) -> (r: bool)
    ensures
        r == (a@ == b@),
{
    if a.len() != b.len() {
        return false;
    }
    let mut i: usize = 0;
    while i < a.len()
        invariant
            i <= a.len(),
            a.len() == b.len(),
            forall|j: int| 0 <= j < i ==> a@[j] == b@[j],
        decreases a.len() - i,
    {
        if a[i] != b[i] {
            return false;
        }
        i = i + 1;
    }
    assert(a@ =~= b@);
    true
}

impl Identifier {
    pub fn kind(&self) -> (r: MemberKind)
        ensures
            r == self@.kind(),
            r != MemberKind::Installation,
    {
        match self {
            Identifier::Ethereum(_) => MemberKind::Ethereum,
            Identifier::Passkey(_) => MemberKind::Passkey,
        }
    }

    pub fn copy(&self) -> (r: Identifier)
        ensures
            r@ == self@,
    {
        match self {
            Identifier::Ethereum(a) => Identifier::Ethereum(a.clone()),
            Identifier::Passkey(k) => Identifier::Passkey(copy_bytes(k)),
        }
    }

    /// The same identity as a member identifier.
    pub fn to_member_identifier(&self) -> (r: MemberIdentifier)
        ensures
            r@ == self@,
    {
        match self {
            Identifier::Ethereum(a) => MemberIdentifier::Ethereum(a.clone()),
            Identifier::Passkey(k) => MemberIdentifier::Passkey(copy_bytes(k)),
        }
    }

    pub fn equals(&self, other: &Identifier) -> (r: bool)
        ensures
            r == (self@ == other@),
    {
        match (self, other) {
            (Identifier::Ethereum(a), Identifier::Ethereum(b)) => a.eq(b),
            (Identifier::Passkey(a), Identifier::Passkey(b)) => bytes_equal(a, b),
            _ => false,
        }
    }

    pub fn equals_member(&self, other: &MemberIdentifier) -> (r: bool)
        ensures
            r == (self@ == other@),
    {
        match (self, other) {
            (Identifier::Ethereum(a), MemberIdentifier::Ethereum(b)) => a.eq(b),
            (Identifier::Passkey(a), MemberIdentifier::Passkey(b)) => bytes_equal(a, b),
            _ => false,
        }
    }
}

impl MemberIdentifier {
    pub fn kind(&self) -> (r: MemberKind)
        ensures
            r == self@.kind(),
    {
        match self {
            MemberIdentifier::Ethereum(_) => MemberKind::Ethereum,
            MemberIdentifier::Passkey(_) => MemberKind::Passkey,
            MemberIdentifier::Installation(_) => MemberKind::Installation,
        }
    }

    pub fn copy(&self) -> (r: MemberIdentifier)
        ensures
            r@ == self@,
    {
        match self {
            MemberIdentifier::Ethereum(a) => MemberIdentifier::Ethereum(a.clone()),
            MemberIdentifier::Passkey(k) => MemberIdentifier::Passkey(copy_bytes(k)),
            MemberIdentifier::Installation(k) => MemberIdentifier::Installation(copy_bytes(k)),
        }
    }

    /// The account identity behind this identifier; `None` for an installation.
    pub fn to_identifier(&self) -> (r: Option<Identifier>)
        ensures
            self@.is_account() <==> r is Some,
            r matches Some(i) ==> i@ == self@,
    {
        match self {
            MemberIdentifier::Ethereum(a) => Some(Identifier::Ethereum(a.clone())),
            MemberIdentifier::Passkey(k) => Some(Identifier::Passkey(copy_bytes(k))),
            MemberIdentifier::Installation(_) => None,
        }
    }

    pub fn equals(&self, other: &MemberIdentifier) -> (r: bool)
        ensures
            r == (self@ == other@),
    {
        match (self, other) {
            (MemberIdentifier::Ethereum(a), MemberIdentifier::Ethereum(b)) => a.eq(b),
            (MemberIdentifier::Passkey(a), MemberIdentifier::Passkey(b)) => bytes_equal(a, b),
            (MemberIdentifier::Installation(a), MemberIdentifier::Installation(b)) => bytes_equal(
                a,
                b,
            ),
            _ => false,
        }
    }
}

/// Mathematical value of a member.
pub struct MemberView {
    pub identifier: IdView,
    pub parent: Option<IdView>,
    pub added_on_ns: Option<u64>,
    pub added_on_chain_id: Option<u64>,
}

/// A node of an inbox's membership forest; `parent == None` marks the root account.
#[derive(Debug, Clone)]
pub struct Member {
    pub identifier: MemberIdentifier,
    pub parent: Option<MemberIdentifier>,
    pub added_on_ns: Option<u64>,
    pub added_on_chain_id: Option<u64>,
}

pub open spec fn option_id_view(p: Option<MemberIdentifier>) -> Option<IdView> {
    match p {
        Some(id) => Some(id@),
        None => None,
    }
}

impl View for Member {
    type V = MemberView;

    open spec fn view(&self) -> MemberView {
        MemberView {
            identifier: self.identifier@,
            parent: option_id_view(self.parent),
            added_on_ns: self.added_on_ns,
            added_on_chain_id: self.added_on_chain_id,
        }
    }
}

impl Member {
    pub fn new(
        identifier: MemberIdentifier,
        parent: Option<MemberIdentifier>,
        added_on_ns: Option<u64>,
        added_on_chain_id: Option<u64>,
    ) -> (r: Member)
        ensures
            r.identifier == identifier,
            r.parent == parent,
            r.added_on_ns == added_on_ns,
            r.added_on_chain_id == added_on_chain_id,
    {
        Member { identifier, parent, added_on_ns, added_on_chain_id }
    }

    pub fn kind(&self) -> (r: MemberKind)
        ensures
            r == self@.identifier.kind(),
    {
        self.identifier.kind()
    }

    pub fn copy(&self) -> (r: Member)
        ensures
            r@ == self@,
    {
        let parent = match &self.parent {
            Some(p) => Some(p.copy()),
            None => None,
        };
        Member {
            identifier: self.identifier.copy(),
            parent,
            added_on_ns: self.added_on_ns,
            added_on_chain_id: self.added_on_chain_id,
        }
    }
}

} // verus!
