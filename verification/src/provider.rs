//! The role registry: the primary mapping from roles to accounts, the index
//! from accounts back to roles, and the checks built on them.

use crate::error::RolesError;
use crate::laws::lemma_delete_keeps_consistent;
use crate::laws::lemma_set_keeps_consistent;
use crate::role::join_labels;
use crate::role::joined_labels;
use crate::role::Role;
use crate::store::addr_eq;
use crate::store::addr_str;
use crate::store::addr_text;
use crate::store::fits;
use crate::store::index_keys;
use crate::store::index_remove;
use crate::store::index_save;
use crate::store::load_grant;
use crate::store::read_failure;
use crate::store::remove_grant;
use crate::store::save_grant;
use crate::store::stored_grants;
use crate::store::stored_index;
use crate::store::MAX_KEY_PART;
use cosmwasm_std::Addr;
use cosmwasm_std::MemoryStorage;
use cosmwasm_std::StdError;
use vstd::prelude::*;
use vstd::utf8::encode_utf8_decode_utf8;

verus! {

/// The registry. It holds no grant itself: the grants live in the store that
/// each operation is handed, under the two namespaces given at construction.
pub struct RoleProvider<'a> {
    namespace: &'a str,
    index_namespace: &'a str,
}

/// The text of an address that may be absent.
pub open spec fn text_of(found: Option<Addr>) -> Option<Seq<char>> {
    match found {
        Some(addr) => Some(addr_text(addr)),
        None => None,
    }
}

impl<'a> RoleProvider<'a> {
    /// The namespace of the primary mapping.
    pub closed spec fn namespace(&self) -> Seq<char> {
        self.namespace@
    }

    /// The namespace of the index from accounts to roles.
    pub closed spec fn index_namespace(&self) -> Seq<char> {
        self.index_namespace@
    }

    /// The two namespaces can be written into storage keys and differ.
    pub open spec fn wf(&self) -> bool {
        &&& fits(self.namespace())
        &&& fits(self.index_namespace())
        &&& self.namespace() != self.index_namespace()
    }

    /// Something is stored for the role, readable or not.
    pub open spec fn has_entry(&self, store: MemoryStorage, role: Role) -> bool {
        stored_grants(store, self.namespace()).contains_key(role.key())
    }

    /// What is stored for the role can be read: nothing, or an address.
    pub open spec fn readable(&self, store: MemoryStorage, role: Role) -> bool {
        self.has_entry(store, role) ==> stored_grants(store, self.namespace())[role.key()] is Some
    }

    /// The error that reading the role's entry gives where it is unreadable.
    pub open spec fn read_error(&self, store: MemoryStorage, role: Role) -> StdError {
        read_failure(store, self.namespace(), role.key())
    }

    /// The account to which the role is granted, by its text. `None` where
    /// the role is ungranted, and where its entry is unreadable.
    pub open spec fn grantee(&self, store: MemoryStorage, role: Role) -> Option<Seq<char>> {
        if self.has_entry(store, role) {
            stored_grants(store, self.namespace())[role.key()]
        } else {
            None
        }
    }

    /// The role is granted to the account.
    pub open spec fn holds(&self, store: MemoryStorage, role: Role, account: Seq<char>) -> bool {
        self.grantee(store, role) == Some(account)
    }

    /// The account holds at least one of the roles.
    pub open spec fn holds_any(
        &self,
        store: MemoryStorage,
        roles: Seq<Role>,
        account: Seq<char>,
    ) -> bool {
        exists|i: int| 0 <= i < roles.len() && self.holds(store, #[trigger] roles[i], account)
    }

    /// A scan of the roles in order, which ends at the first role that the
    /// account holds, meets an unreadable entry at position `i` first.
    pub open spec fn scan_fails_at(
        &self,
        store: MemoryStorage,
        roles: Seq<Role>,
        account: Seq<char>,
        i: int,
    ) -> bool {
        &&& 0 <= i < roles.len()
        &&& !self.readable(store, roles[i])
        &&& forall|j: int|
            0 <= j < i ==> self.readable(store, #[trigger] roles[j]) && !self.holds(
                store,
                roles[j],
                account,
            )
    }

    /// The scan of the roles meets an unreadable entry before a role that
    /// the account holds.
    pub open spec fn scan_fails(
        &self,
        store: MemoryStorage,
        roles: Seq<Role>,
        account: Seq<char>,
    ) -> bool {
        exists|i: int| self.scan_fails_at(store, roles, account, i)
    }

    /// The index lists the role for the account.
    pub open spec fn indexed(&self, store: MemoryStorage, account: Seq<char>, role: Role) -> bool {
        stored_index(store, self.index_namespace()).contains((account, role.key_bytes()))
    }

    /// The test by which `roles_held` picks roles from the catalog.
    pub open spec fn listed(&self, store: MemoryStorage, account: Seq<char>) -> spec_fn(
        Role,
    ) -> bool {
        |role: Role| self.indexed(store, account, role)
    }

    /// The roles that the index lists for the account, in catalog order.
    pub open spec fn roles_held(&self, store: MemoryStorage, account: Seq<char>) -> Seq<Role> {
        Role::catalog().filter(self.listed(store, account))
    }

    /// The index is the inverse of the primary mapping: it lists a role for
    /// an account exactly when the role is granted to that account; and
    /// every grantee can be written into an index key.
    pub open spec fn consistent(&self, store: MemoryStorage) -> bool {
        &&& forall|account: Seq<char>, role: Role|
            #[trigger] self.indexed(store, account, role) <==> self.holds(store, role, account)
        &&& forall|account: Seq<char>, role: Role|
            #[trigger] self.holds(store, role, account) ==> fits(account)
    }

    /// The index of `store` without the entry of the role's present grantee.
    pub open spec fn index_without(&self, store: MemoryStorage, role: Role) -> Set<
        (Seq<char>, Seq<u8>),
    > {
        match self.grantee(store, role) {
            Some(account) if fits(account) => stored_index(store, self.index_namespace()).remove(
                (account, role.key_bytes()),
            ),
            _ => stored_index(store, self.index_namespace()),
        }
    }

    /// Everything under other namespaces than the registry's two is the same
    /// in both stores.
    pub open spec fn same_elsewhere(&self, pre: MemoryStorage, post: MemoryStorage) -> bool {
        &&& forall|other: Seq<char>|
            other != self.namespace() && other != self.index_namespace() ==> #[trigger] stored_grants(
                post,
                other,
            ) == stored_grants(pre, other)
        &&& forall|other: Seq<char>|
            other != self.namespace() && other != self.index_namespace() ==> #[trigger] stored_index(
                post,
                other,
            ) == stored_index(pre, other)
    }

    /// `post` is `pre` after the role was granted to the account: the primary
    /// mapping has the account for the role, the index has lost the entry of
    /// the former grantee and has the new one, and nothing else changed.
    pub open spec fn granted(
        &self,
        pre: MemoryStorage,
        post: MemoryStorage,
        role: Role,
        account: Seq<char>,
    ) -> bool {
        &&& stored_grants(post, self.namespace()) == stored_grants(pre, self.namespace()).insert(
            role.key(),
            Some(account),
        )
        &&& stored_index(post, self.index_namespace()) == self.index_without(pre, role).insert(
            (account, role.key_bytes()),
        )
        &&& self.same_elsewhere(pre, post)
    }

    /// `post` is `pre` after the role's grant was deleted: the primary
    /// mapping has no entry for the role, the index has lost the entry of
    /// the former grantee, and nothing else changed.
    pub open spec fn revoked(&self, pre: MemoryStorage, post: MemoryStorage, role: Role) -> bool {
        &&& stored_grants(post, self.namespace()) == stored_grants(pre, self.namespace()).remove(
            role.key(),
        )
        &&& stored_index(post, self.index_namespace()) == self.index_without(pre, role)
        &&& self.same_elsewhere(pre, post)
    }

    /// A registry over the two namespaces: `namespace` for the primary
    /// mapping, `roles_by_addr_idx_namespace` for the index. They must
    /// differ, and each be at most `MAX_KEY_PART` bytes long.
    pub fn new(namespace: &'a str, roles_by_addr_idx_namespace: &'a str) -> (provider: Self)
        requires
            fits(namespace@),
            fits(roles_by_addr_idx_namespace@),
            namespace@ != roles_by_addr_idx_namespace@,
        ensures
            provider.wf(),
            provider.namespace() == namespace@,
            provider.index_namespace() == roles_by_addr_idx_namespace@,
    {
        RoleProvider { namespace, index_namespace: roles_by_addr_idx_namespace }
    }

    /// `new` for any two namespaces: `None` where one of them is too long
    /// for a storage key, or where they are the same.
    pub fn try_new(namespace: &'a str, roles_by_addr_idx_namespace: &'a str) -> (provider: Option<
        Self,
    >)
        ensures
            provider is Some <==> fits(namespace@) && fits(roles_by_addr_idx_namespace@)
                && namespace@ != roles_by_addr_idx_namespace@,
            provider matches Some(p) ==> p.wf() && p.namespace() == namespace@
                && p.index_namespace() == roles_by_addr_idx_namespace@,
    {
        let primary = namespace.as_bytes();
        let index = roles_by_addr_idx_namespace.as_bytes();
        proof {
            encode_utf8_decode_utf8(namespace@);
            encode_utf8_decode_utf8(roles_by_addr_idx_namespace@);
        }
        if primary.len() <= MAX_KEY_PART && index.len() <= MAX_KEY_PART && !same_bytes(
            primary,
            index,
        ) {
            Some(RoleProvider::new(namespace, roles_by_addr_idx_namespace))
        } else {
            None
        }
    }

    /// The account to which the role is granted, or `None`. Fails, with the
    /// store's error, exactly when the role's entry is unreadable.
    pub fn get(&self, store: &MemoryStorage, role: &Role) -> (found: Result<Option<Addr>, StdError>)
        requires
            self.wf(),
        ensures
            found is Ok <==> self.readable(*store, *role),
            found matches Ok(grantee) ==> text_of(grantee) == self.grantee(*store, *role),
            found matches Err(e) ==> e == self.read_error(*store, *role),
    {
        load_grant(store, self.namespace, role.as_str())
    }

    /// Whether the role is granted to the caller. Fails, with the store's
    /// error, exactly when the role's entry is unreadable.
    pub fn has_role(&self, store: &MemoryStorage, role: &Role, caller: &Addr) -> (held: Result<
        bool,
        StdError,
    >)
        requires
            self.wf(),
        ensures
            held is Ok <==> self.readable(*store, *role),
            held matches Ok(yes) ==> yes == self.holds(*store, *role, addr_text(*caller)),
            held matches Err(e) ==> e == self.read_error(*store, *role),
    {
        match load_grant(store, self.namespace, role.as_str()) {
            Ok(Some(addr)) => Ok(addr_eq(&addr, caller)),
            Ok(None) => Ok(false),
            Err(e) => Err(e),
        }
    }

    /// Whether the caller holds at least one of the roles. The roles are
    /// looked up in order and the scan ends at the first that the caller
    /// holds; it fails, with the store's error, exactly when it meets an
    /// unreadable entry before that.
    pub fn has_any_role(&self, store: &MemoryStorage, roles: &[Role], caller: &Addr) -> (held:
        Result<bool, StdError>)
        requires
            self.wf(),
        ensures
            held is Err <==> self.scan_fails(*store, roles@, addr_text(*caller)),
            held matches Ok(yes) ==> yes == self.holds_any(*store, roles@, addr_text(*caller)),
            held matches Err(e) ==> exists|i: int|
                self.scan_fails_at(*store, roles@, addr_text(*caller), i) && e == self.read_error(
                    *store,
                    #[trigger] roles@[i],
                ),
            roles@.len() == 0 ==> held == Ok::<bool, StdError>(false),
    {
        let ghost account = addr_text(*caller);
        let mut i: usize = 0;
        while i < roles.len()
            invariant
                self.wf(),
                account == addr_text(*caller),
                i <= roles.len(),
                forall|j: int|
                    0 <= j < i ==> self.readable(*store, #[trigger] roles@[j]) && !self.holds(
                        *store,
                        roles@[j],
                        account,
                    ),
            decreases roles.len() - i,
        {
            match self.has_role(store, &roles[i], caller) {
                Ok(true) => {
                    return Ok(true);
                },
                Ok(false) => {},
                Err(e) => {
                    assert(self.scan_fails_at(*store, roles@, account, i as int));
                    return Err(e);
                },
            }
            i += 1;
        }
        Ok(false)
    }

    /// Passes exactly when the role is granted to the caller. Otherwise the
    /// error is `UnauthorizedForRole` with the role's key as label, or the
    /// store's error where the role's entry is unreadable.
    pub fn assert_role(&self, store: &MemoryStorage, role: &Role, caller: &Addr) -> (passed: Result<
        (),
        RolesError,
    >)
        requires
            self.wf(),
        ensures
            passed is Ok <==> self.holds(*store, *role, addr_text(*caller)),
            passed matches Err(RolesError::Std(_)) <==> !self.readable(*store, *role),
            match passed {
                Ok(_) => true,
                Err(RolesError::Std(e)) => !self.readable(*store, *role) && e == self.read_error(
                    *store,
                    *role,
                ),
                Err(RolesError::UnauthorizedForRole { label }) => self.readable(*store, *role)
                    && label@ == role.key(),
            },
    {
        match self.has_role(store, role, caller) {
            Ok(true) => Ok(()),
            Ok(false) => Err(RolesError::UnauthorizedForRole { label: role.to_string() }),
            Err(e) => Err(RolesError::Std(e)),
        }
    }

    /// Passes exactly when the scan of the roles finds one that the caller
    /// holds before it meets an unreadable entry. Where the caller holds
    /// none, the error is `UnauthorizedForRole`, and its label joins the
    /// keys of all the roles, in the order given, with `" | "`; where the
    /// scan meets an unreadable entry first, it is the store's error.
    pub fn assert_any_role(&self, store: &MemoryStorage, roles: &[Role], caller: &Addr) -> (passed:
        Result<(), RolesError>)
        requires
            self.wf(),
        ensures
            passed is Ok <==> self.holds_any(*store, roles@, addr_text(*caller)) && !self.scan_fails(
                *store,
                roles@,
                addr_text(*caller),
            ),
            passed matches Err(RolesError::Std(_)) <==> self.scan_fails(
                *store,
                roles@,
                addr_text(*caller),
            ),
            match passed {
                Ok(_) => true,
                Err(RolesError::Std(e)) => exists|i: int|
                    self.scan_fails_at(*store, roles@, addr_text(*caller), i) && e
                        == self.read_error(*store, #[trigger] roles@[i]),
                Err(RolesError::UnauthorizedForRole { label }) => !self.scan_fails(
                    *store,
                    roles@,
                    addr_text(*caller),
                ) && label@ == joined_labels(roles@),
            },
    {
        match self.has_any_role(store, roles, caller) {
            Ok(true) => Ok(()),
            Ok(false) => Err(RolesError::UnauthorizedForRole { label: join_labels(roles) }),
            Err(e) => Err(RolesError::Std(e)),
        }
    }

    /// Grants the role to the account, in place of any former grantee, and
    /// updates the index with it. Fails, with the store's error and without
    /// a change to the store, exactly when the role's present entry is
    /// unreadable. A grant keeps a consistent store consistent.
    pub fn set(&self, store: &mut MemoryStorage, role: &Role, grantee: Addr) -> (done: Result<
        (),
        StdError,
    >)
        requires
            self.wf(),
            fits(addr_text(grantee)),
        ensures
            done is Ok <==> self.readable(*old(store), *role),
            done is Ok ==> self.granted(*old(store), *final(store), *role, addr_text(grantee)),
            done matches Err(e) ==> e == self.read_error(*old(store), *role) && *final(store)
                == *old(store),
            self.consistent(*old(store)) ==> self.consistent(*final(store)),
    {
        let key = role.as_str();
        let former = load_grant(store, self.namespace, key)?;
        self.unindex(store, role, &former)?;
        index_save(store, self.namespace, self.index_namespace, &grantee, key)?;
        save_grant(store, self.namespace, key, &grantee)?;
        proof {
            if self.consistent(*old(store)) {
                lemma_set_keeps_consistent(
                    *self,
                    *old(store),
                    *store,
                    *role,
                    addr_text(grantee),
                );
            }
        }
        Ok(())
    }

    /// `set` for an account of any length: `None`, and no change to the
    /// store, where the address is too long for an index key; else what
    /// `set` gives.
    pub fn try_set(&self, store: &mut MemoryStorage, role: &Role, grantee: Addr) -> (done: Option<
        Result<(), StdError>,
    >)
        requires
            self.wf(),
        ensures
            done is Some <==> fits(addr_text(grantee)),
            done is None ==> *final(store) == *old(store),
            done matches Some(Ok(_)) <==> fits(addr_text(grantee)) && self.readable(
                *old(store),
                *role,
            ),
            done matches Some(Ok(_)) ==> self.granted(
                *old(store),
                *final(store),
                *role,
                addr_text(grantee),
            ),
            done matches Some(Err(e)) ==> e == self.read_error(*old(store), *role) && *final(store)
                == *old(store),
            self.consistent(*old(store)) ==> self.consistent(*final(store)),
    {
        if address_fits(&grantee) {
            Some(self.set(store, role, grantee))
        } else {
            None
        }
    }

    /// Deletes the role's grant and its index entry. On an ungranted role
    /// this changes nothing and succeeds. Fails, with the store's error and
    /// without a change to the store, exactly when the role's present entry
    /// is unreadable. A delete keeps a consistent store consistent.
    pub fn delete(&self, store: &mut MemoryStorage, role: &Role) -> (done: Result<(), StdError>)
        requires
            self.wf(),
        ensures
            done is Ok <==> self.readable(*old(store), *role),
            done is Ok ==> self.revoked(*old(store), *final(store), *role),
            done matches Err(e) ==> e == self.read_error(*old(store), *role) && *final(store)
                == *old(store),
            self.consistent(*old(store)) ==> self.consistent(*final(store)),
    {
        let key = role.as_str();
        let former = load_grant(store, self.namespace, key)?;
        self.unindex(store, role, &former)?;
        remove_grant(store, self.namespace, key);
        proof {
            if self.consistent(*old(store)) {
                lemma_delete_keeps_consistent(*self, *old(store), *store, *role);
            }
        }
        Ok(())
    }

    /// Every role that the index lists for the account, in catalog order;
    /// empty where it lists none. Reads the index alone and does not fail.
    pub fn roles_of(&self, store: &MemoryStorage, account: &Addr) -> (held: Result<
        Vec<Role>,
        StdError,
    >)
        requires
            self.wf(),
            fits(addr_text(*account)),
        ensures
            held matches Ok(roles) && roles@ == self.roles_held(*store, addr_text(*account)),
    {
        let keys = index_keys(store, self.namespace, self.index_namespace, account);
        let catalog = Role::all();
        let ghost listed = self.listed(*store, addr_text(*account));
        let mut roles: Vec<Role> = Vec::new();
        let mut i: usize = 0;
        proof {
            reveal(Seq::filter);
        }
        while i < 4
            invariant
                self.wf(),
                i <= 4,
                catalog@ == Role::catalog(),
                catalog@.len() == 4,
                listed == self.listed(*store, addr_text(*account)),
                forall|key: Seq<u8>|
                    stored_index(*store, self.index_namespace()).contains(
                        (addr_text(*account), key),
                    ) <==> exists|k: int| 0 <= k < keys@.len() && #[trigger] keys@[k]@ == key,
                roles@ == catalog@.take(i as int).filter(listed),
            decreases 4 - i,
        {
            let role = catalog[i];
            let found = lists_key(&keys, role.as_str().as_bytes());
            proof {
                reveal(Seq::filter);
                assert(catalog@.take(i + 1).drop_last() =~= catalog@.take(i as int));
            }
            if found {
                roles.push(role);
            }
            i += 1;
        }
        assert(catalog@.take(4) =~= catalog@);
        Ok(roles)
    }

    /// `roles_of` for an account of any length: `None` where the address is
    /// too long for an index key; else what `roles_of` gives.
    pub fn try_roles_of(&self, store: &MemoryStorage, account: &Addr) -> (held: Option<
        Result<Vec<Role>, StdError>,
    >)
        requires
            self.wf(),
        ensures
            held is Some <==> fits(addr_text(*account)),
            held matches Some(found) ==> found matches Ok(roles) && roles@ == self.roles_held(
                *store,
                addr_text(*account),
            ),
    {
        if address_fits(account) {
            Some(self.roles_of(store, account))
        } else {
            None
        }
    }

    /// Takes the index entry of the role's former grantee out of the store.
    /// An address too long for an index key has no entry to take out.
    fn unindex(&self, store: &mut MemoryStorage, role: &Role, former: &Option<Addr>) -> (done:
        Result<(), StdError>)
        requires
            self.wf(),
            text_of(*former) == self.grantee(*old(store), *role),
        ensures
            done is Ok,
            stored_index(*final(store), self.index_namespace()) == self.index_without(
                *old(store),
                *role,
            ),
            stored_grants(*final(store), self.namespace()) == stored_grants(
                *old(store),
                self.namespace(),
            ),
            self.same_elsewhere(*old(store), *final(store)),
    {
        match former {
            Some(addr) => {
                if address_fits(addr) {
                    index_remove(store, self.namespace, self.index_namespace, addr, role.as_str())
                } else {
                    Ok(())
                }
            },
            None => Ok(()),
        }
    }
}

/// Whether the address can be part of an index key.
pub fn address_fits(addr: &Addr) -> (ok: bool)
    ensures
        ok == fits(addr_text(*addr)),
{
    addr_str(addr).as_bytes().len() <= MAX_KEY_PART
}

/// Whether two byte strings are the same.
fn same_bytes(a: &[u8], b: &[u8]) -> (same: bool)
    ensures
        same == (a@ == b@),
{
    if a.len() != b.len() {
        return false;
    }
    let mut i: usize = 0;
    while i < a.len()
        invariant
            a@.len() == b@.len(),
            i <= a.len(),
            forall|j: int| 0 <= j < i ==> a@[j] == b@[j],
        decreases a.len() - i,
    {
        if a[i] != b[i] {
            return false;
        }
        i += 1;
    }
    assert(a@ =~= b@);
    true
}

/// Whether the key is among the keys.
fn lists_key(keys: &Vec<Vec<u8>>, key: &[u8]) -> (listed: bool)
    ensures
        listed == exists|k: int| 0 <= k < keys@.len() && #[trigger] keys@[k]@ == key@,
{
    let mut i: usize = 0;
    while i < keys.len()
        invariant
            i <= keys.len(),
            forall|k: int| 0 <= k < i ==> #[trigger] keys@[k]@ != key@,
        decreases keys.len() - i,
    {
        if same_bytes(keys[i].as_slice(), key) {
            return true;
        }
        i += 1;
    }
    false
}

} // verus!
