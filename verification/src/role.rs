//! The closed catalog of roles and their storage keys.

use vstd::prelude::*;
use vstd::string::StringExecFns;
use vstd::utf8::encode_utf8;
use vstd::utf8::encode_utf8_decode_utf8;

verus! {

/// A role of the protocol. The catalog is closed: these four and no others.
#[derive(Clone, Copy, Debug, PartialEq, Eq, Hash, Structural)]
pub enum Role {
    ActivePool,
    TroveManager,
    Owner,
    StabilityPool,
}

impl Role {
    /// The storage key of the role: stable, lower case, words joined by `_`.
    pub open spec fn key(self) -> Seq<char> {
        match self {
            Role::ActivePool => "active_pool"@,
            Role::TroveManager => "trove_manager"@,
            Role::Owner => "owner"@,
            Role::StabilityPool => "stability_pool"@,
        }
    }

    /// The storage key as the bytes that are written to the store.
    pub open spec fn key_bytes(self) -> Seq<u8> {
        encode_utf8(self.key())
    }

    /// Every role, in the order of declaration.
    pub open spec fn catalog() -> Seq<Role> {
        seq![Role::ActivePool, Role::TroveManager, Role::Owner, Role::StabilityPool]
    }

    /// The storage key, borrowed.
    pub fn as_str(&self) -> (key: &'static str)
        ensures
            key@ == self.key(),
    {
        match self {
            Role::ActivePool => "active_pool",
            Role::TroveManager => "trove_manager",
            Role::Owner => "owner",
            Role::StabilityPool => "stability_pool",
        }
    }

    /// The storage key, owned. It is also the label under which the role
    /// appears in an authorization error.
    pub fn to_string(&self) -> (key: String)
        ensures
            key@ == self.key(),
    {
        self.as_str().to_owned()
    }

    /// Every role, in the order of declaration.
    pub fn all() -> (roles: [Role; 4])
        ensures
            roles@ == Role::catalog(),
    {
        let roles = [Role::ActivePool, Role::TroveManager, Role::Owner, Role::StabilityPool];
        roles
    }
}

/// The characters a storage key is made of.
pub open spec fn is_key_char(c: char) -> bool {
    ('a' <= c && c <= 'z') || c == '_'
}

/// Every storage key is a non-empty word of lower-case letters and `_`.
pub proof fn lemma_key_is_snake_case(role: Role)
    ensures
        role.key().len() > 0,
        forall|i: int| 0 <= i < role.key().len() ==> is_key_char(#[trigger] role.key()[i]),
{
    reveal_strlit("active_pool");
    reveal_strlit("trove_manager");
    reveal_strlit("owner");
    reveal_strlit("stability_pool");
}

/// The map from roles to storage keys is injective, as text and as bytes:
/// two roles with the same key are the same role.
pub proof fn lemma_key_injective(a: Role, b: Role)
    ensures
        a.key() == b.key() ==> a == b,
        a.key_bytes() == b.key_bytes() ==> a == b,
{
    reveal_strlit("active_pool");
    reveal_strlit("trove_manager");
    reveal_strlit("owner");
    reveal_strlit("stability_pool");
    if a.key() == b.key() {
        assert(a.key().len() == b.key().len());
    }
    if a.key_bytes() == b.key_bytes() {
        encode_utf8_decode_utf8(a.key());
        encode_utf8_decode_utf8(b.key());
    }
}

/// The catalog lists every role exactly once.
pub proof fn lemma_catalog_complete(role: Role)
    ensures
        Role::catalog().contains(role),
        Role::catalog().no_duplicates(),
{
}

/// The label of a list of roles: their storage keys in the order given,
/// separated by `" | "`. Empty for no role.
pub open spec fn joined_labels(roles: Seq<Role>) -> Seq<char>
    decreases roles.len(),
{
    if roles.len() == 0 {
        Seq::empty()
    } else if roles.len() == 1 {
        roles[0].key()
    } else {
        joined_labels(roles.drop_last()) + " | "@ + roles.last().key()
    }
}

/// Builds the label of a list of roles.
pub fn join_labels(roles: &[Role]) -> (label: String)
    ensures
        label@ == joined_labels(roles@),
{
    let mut label = String::new();
    let mut i: usize = 0;
    while i < roles.len()
        invariant
            i <= roles.len(),
            label@ == joined_labels(roles@.take(i as int)),
        decreases roles.len() - i,
    {
        assert(roles@.take(i + 1).drop_last() =~= roles@.take(i as int));
        if i > 0 {
            label.append(" | ");
        }
        label.append(roles[i].as_str());
        i += 1;
    }
    assert(roles@.take(i as int) =~= roles@);
    label
}

} // verus!
