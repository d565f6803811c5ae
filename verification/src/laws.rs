//! What holds of the registry across operations, stated over the relations
//! that the operations' contracts use and proved from them.

use crate::provider::RoleProvider;
use crate::role::lemma_catalog_complete;
use crate::role::lemma_key_injective;
use crate::role::Role;
use crate::store::fits;
use crate::store::stored_grants;
use crate::store::stored_index;
use cosmwasm_std::MemoryStorage;
use vstd::prelude::*;

verus! {

/// Round trip: once a role is granted to an account, its entry is readable
/// and names that account, so `get` returns it.
pub proof fn lemma_set_then_get(
    provider: RoleProvider,
    pre: MemoryStorage,
    post: MemoryStorage,
    role: Role,
    account: Seq<char>,
)
    requires
        provider.wf(),
        provider.granted(pre, post, role, account),
    ensures
        provider.readable(post, role),
        provider.grantee(post, role) == Some(account),
{
}

/// Deleting is idempotent: an ungranted role can be read, so `delete`
/// succeeds on it; afterwards the role is still ungranted, and neither the
/// primary mapping nor the index has changed.
pub proof fn lemma_delete_ungranted(
    provider: RoleProvider,
    pre: MemoryStorage,
    post: MemoryStorage,
    role: Role,
)
    requires
        provider.wf(),
        !provider.has_entry(pre, role),
        provider.revoked(pre, post, role),
    ensures
        provider.readable(pre, role),
        provider.readable(post, role),
        provider.grantee(post, role) is None,
        stored_grants(post, provider.namespace()) == stored_grants(pre, provider.namespace()),
        stored_index(post, provider.index_namespace()) == stored_index(
            pre,
            provider.index_namespace(),
        ),
{
}

/// After a delete the role is granted to nobody, whatever came before: its
/// entry is readable and no account holds it, so every `assert_role` on it
/// is refused with the role's own label.
pub proof fn lemma_delete_then_denied(
    provider: RoleProvider,
    pre: MemoryStorage,
    post: MemoryStorage,
    role: Role,
    account: Seq<char>,
)
    requires
        provider.wf(),
        provider.revoked(pre, post, role),
    ensures
        provider.readable(post, role),
        provider.grantee(post, role) is None,
        !provider.holds(post, role, account),
{
}

/// Once a role is granted to an account, that account holds it and no other
/// account does.
pub proof fn lemma_has_role_after_set(
    provider: RoleProvider,
    pre: MemoryStorage,
    post: MemoryStorage,
    role: Role,
    account: Seq<char>,
    other: Seq<char>,
)
    requires
        provider.wf(),
        provider.granted(pre, post, role, account),
        account != other,
    ensures
        provider.readable(post, role),
        provider.holds(post, role, account),
        !provider.holds(post, role, other),
{
}

/// Overwriting: when a role goes to `first` and then to another account
/// `second`, the role is granted to `second` alone, and the index lists it
/// for `second` and no longer for `first`.
pub proof fn lemma_overwrite(
    provider: RoleProvider,
    start: MemoryStorage,
    middle: MemoryStorage,
    end: MemoryStorage,
    role: Role,
    first: Seq<char>,
    second: Seq<char>,
)
    requires
        provider.wf(),
        fits(first),
        first != second,
        provider.granted(start, middle, role, first),
        provider.granted(middle, end, role, second),
    ensures
        provider.grantee(end, role) == Some(second),
        !provider.holds(end, role, first),
        provider.holds(end, role, second),
        !provider.indexed(end, first, role),
        provider.indexed(end, second, role),
{
}

/// Granting a role leaves the grants of every other role, and what the
/// index lists for them, as they were.
pub proof fn lemma_set_keeps_other_roles(
    provider: RoleProvider,
    pre: MemoryStorage,
    post: MemoryStorage,
    role: Role,
    account: Seq<char>,
    other: Role,
    holder: Seq<char>,
)
    requires
        provider.wf(),
        provider.granted(pre, post, role, account),
        other != role,
    ensures
        provider.has_entry(post, other) == provider.has_entry(pre, other),
        provider.readable(post, other) == provider.readable(pre, other),
        provider.grantee(post, other) == provider.grantee(pre, other),
        provider.indexed(post, holder, other) == provider.indexed(pre, holder, other),
{
    lemma_key_injective(role, other);
}

/// The account holds one of no roles never, and one of a list with a role
/// added exactly when it holds one of the list or the added role: `holds_any`
/// is the disjunction over the list.
pub proof fn lemma_holds_any_is_disjunction(
    provider: RoleProvider,
    store: MemoryStorage,
    roles: Seq<Role>,
    role: Role,
    account: Seq<char>,
)
    ensures
        !provider.holds_any(store, Seq::<Role>::empty(), account),
        provider.holds_any(store, roles.push(role), account) <==> provider.holds_any(
            store,
            roles,
            account,
        ) || provider.holds(store, role, account),
{
    let more = roles.push(role);
    if provider.holds_any(store, roles, account) {
        let i = choose|i: int|
            0 <= i < roles.len() && provider.holds(store, #[trigger] roles[i], account);
        assert(provider.holds(store, more[i], account));
    }
    if provider.holds(store, role, account) {
        assert(provider.holds(store, more[roles.len() as int], account));
    }
}

/// Where every entry is readable, the scan over the roles does not fail, so
/// `has_any_role` answers with the disjunction.
pub proof fn lemma_scan_passes_readable(
    provider: RoleProvider,
    store: MemoryStorage,
    roles: Seq<Role>,
    account: Seq<char>,
)
    requires
        forall|i: int| 0 <= i < roles.len() ==> provider.readable(store, #[trigger] roles[i]),
    ensures
        !provider.scan_fails(store, roles, account),
{
}

/// A store that holds nothing under the registry's two namespaces is
/// consistent.
pub proof fn lemma_empty_consistent(provider: RoleProvider, store: MemoryStorage)
    requires
        stored_grants(store, provider.namespace()) == Map::<Seq<char>, Option<Seq<char>>>::empty(),
        stored_index(store, provider.index_namespace()) == Set::<(Seq<char>, Seq<u8>)>::empty(),
    ensures
        provider.consistent(store),
{
}

/// Granting a role keeps the index the inverse of the primary mapping.
pub proof fn lemma_set_keeps_consistent(
    provider: RoleProvider,
    pre: MemoryStorage,
    post: MemoryStorage,
    role: Role,
    account: Seq<char>,
)
    requires
        provider.wf(),
        fits(account),
        provider.consistent(pre),
        provider.granted(pre, post, role, account),
    ensures
        provider.consistent(post),
{
    assert forall|holder: Seq<char>, other: Role| #[trigger]
        provider.indexed(post, holder, other) <==> provider.holds(post, other, holder) by {
        lemma_key_injective(role, other);
        assert(provider.indexed(pre, holder, other) <==> provider.holds(pre, other, holder));
    }
    assert forall|holder: Seq<char>, other: Role| #[trigger]
        provider.holds(post, other, holder) implies fits(holder) by {
        lemma_key_injective(role, other);
        if other != role {
            assert(provider.holds(pre, other, holder));
        }
    }
}

/// Deleting a grant keeps the index the inverse of the primary mapping.
pub proof fn lemma_delete_keeps_consistent(
    provider: RoleProvider,
    pre: MemoryStorage,
    post: MemoryStorage,
    role: Role,
)
    requires
        provider.wf(),
        provider.consistent(pre),
        provider.revoked(pre, post, role),
    ensures
        provider.consistent(post),
{
    assert forall|holder: Seq<char>, other: Role| #[trigger]
        provider.indexed(post, holder, other) <==> provider.holds(post, other, holder) by {
        lemma_key_injective(role, other);
        assert(provider.indexed(pre, holder, other) <==> provider.holds(pre, other, holder));
    }
    assert forall|holder: Seq<char>, other: Role| #[trigger]
        provider.holds(post, other, holder) implies fits(holder) by {
        lemma_key_injective(role, other);
        if other != role {
            assert(provider.holds(pre, other, holder));
        }
    }
}

/// One step of a history: a grant, a delete, or an operation that failed
/// and left the store as it was.
pub open spec fn step(provider: RoleProvider, pre: MemoryStorage, post: MemoryStorage) -> bool {
    ||| post == pre
    ||| exists|role: Role, account: Seq<char>|
        fits(account) && #[trigger] provider.granted(pre, post, role, account)
    ||| exists|role: Role| #[trigger] provider.revoked(pre, post, role)
}

/// Index consistency over any history: from a consistent store, after any
/// sequence of grants and deletes, every store on the way is consistent.
pub proof fn lemma_history_consistent(provider: RoleProvider, stores: Seq<MemoryStorage>)
    requires
        provider.wf(),
        stores.len() > 0,
        provider.consistent(stores[0]),
        forall|i: int| 0 <= i < stores.len() - 1 ==> step(provider, #[trigger] stores[i], stores[i + 1]),
    ensures
        forall|i: int| 0 <= i < stores.len() ==> provider.consistent(#[trigger] stores[i]),
    decreases stores.len(),
{
    if stores.len() > 1 {
        let earlier = stores.drop_last();
        assert forall|i: int| 0 <= i < earlier.len() - 1 implies step(
            provider,
            #[trigger] earlier[i],
            earlier[i + 1],
        ) by {}
        lemma_history_consistent(provider, earlier);
        let n = stores.len() - 1;
        let pre = stores[n - 1];
        let post = stores[n];
        assert(provider.consistent(earlier[n - 1]));
        if post == pre {
        } else if exists|role: Role, account: Seq<char>|
            fits(account) && #[trigger] provider.granted(pre, post, role, account) {
            let (role, account) = choose|role: Role, account: Seq<char>|
                fits(account) && #[trigger] provider.granted(pre, post, role, account);
            lemma_set_keeps_consistent(provider, pre, post, role, account);
        } else {
            let role = choose|role: Role| #[trigger] provider.revoked(pre, post, role);
            lemma_delete_keeps_consistent(provider, pre, post, role);
        }
        assert forall|i: int| 0 <= i < stores.len() implies provider.consistent(
            #[trigger] stores[i],
        ) by {
            if i < n {
                assert(stores[i] == earlier[i]);
            }
        }
    }
}

/// Picking from a list without repeats gives a list without repeats.
proof fn lemma_filter_keeps_distinct(roles: Seq<Role>, pick: spec_fn(Role) -> bool)
    requires
        roles.no_duplicates(),
    ensures
        roles.filter(pick).no_duplicates(),
    decreases roles.len(),
{
    reveal(Seq::filter);
    if roles.len() > 0 {
        let front = roles.drop_last();
        lemma_filter_keeps_distinct(front, pick);
        if front.filter(pick).contains(roles.last()) {
            front.lemma_filter_contains_rev(pick, roles.last());
            let i = choose|i: int| 0 <= i < front.len() && front[i] == roles.last();
        }
    }
}

/// The reverse query lists exactly the roles that the index holds for the
/// account, each once.
pub proof fn lemma_roles_held_exact(
    provider: RoleProvider,
    store: MemoryStorage,
    account: Seq<char>,
    role: Role,
)
    ensures
        provider.roles_held(store, account).contains(role) <==> provider.indexed(
            store,
            account,
            role,
        ),
        provider.roles_held(store, account).no_duplicates(),
{
    let listed = provider.listed(store, account);
    let catalog = Role::catalog();
    let f4 = catalog.filter(listed);
    lemma_catalog_complete(role);
    lemma_filter_keeps_distinct(catalog, listed);
    if listed(role) {
        let i = choose|i: int| 0 <= i < catalog.len() && catalog[i] == role;
        catalog.lemma_filter_contains(listed, i);
    }
    if f4.contains(role) {
        let i = choose|i: int| 0 <= i < f4.len() && f4[i] == role;
        catalog.lemma_filter_pred(listed, i);
    }
}

/// In a consistent store the reverse query agrees with the primary
/// mapping: it lists a role for an account exactly when `get` on the role
/// gives that account.
pub proof fn lemma_index_matches_grants(
    provider: RoleProvider,
    store: MemoryStorage,
    account: Seq<char>,
    role: Role,
)
    requires
        provider.consistent(store),
    ensures
        provider.roles_held(store, account).contains(role) <==> provider.grantee(store, role)
            == Some(account),
{
    lemma_roles_held_exact(provider, store, account, role);
}

} // verus!
