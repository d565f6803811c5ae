use cosmwasm_std::testing::mock_dependencies;
use cosmwasm_std::testing::MockStorage;
use cosmwasm_std::Addr;
use cosmwasm_std::Storage;
use ultra_controllers::provider::address_fits;
use ultra_controllers::role::join_labels;
use ultra_controllers::Role;
use ultra_controllers::RoleProvider;
use ultra_controllers::RolesError;

#[test]
fn set_and_get_owner() {
    let mut deps = mock_dependencies();
    let control = RoleProvider::new("foo", "foo__roles_by_addr");

    // initialize and check
    let owner = Addr::unchecked("owner");
    control
        .set(&mut deps.storage, &Role::Owner, owner.clone())
        .unwrap();
    let got = control.get(&deps.storage, &Role::Owner).unwrap();
    assert_eq!(owner, got.unwrap());

    // clear it and check
    control.delete(&mut deps.storage, &Role::Owner).unwrap();
    let got = control.get(&deps.storage, &Role::Owner).unwrap();
    assert_eq!(None, got);
}

#[test]
fn role_checks() {
    let mut deps = mock_dependencies();

    let control = RoleProvider::new("foo", "foo__idx");
    let owner = Addr::unchecked("big boss");
    let imposter = Addr::unchecked("imposter");

    // ensure checks proper with owner set
    control
        .set(&mut deps.storage, &Role::Owner, owner.clone())
        .unwrap();
    assert!(control
        .has_role(&deps.storage, &Role::Owner, &owner)
        .unwrap());
    assert!(
        !(control
            .has_role(&deps.storage, &Role::Owner, &imposter)
            .unwrap())
    );
    control
        .assert_role(&deps.storage, &Role::Owner, &owner)
        .unwrap();
    let err = control
        .assert_role(&deps.storage, &Role::Owner, &imposter)
        .unwrap_err();
    assert_eq!(
        RolesError::UnauthorizedForRole {
            label: Role::Owner.to_string()
        },
        err
    );

    // same checks for `any` variants
    assert!(control
        .has_any_role(
            &deps.storage,
            &[Role::ActivePool, Role::Owner, Role::StabilityPool],
            &owner
        )
        .unwrap());
    assert!(
        !(control
            .has_any_role(
                &deps.storage,
                &[Role::ActivePool, Role::Owner, Role::StabilityPool],
                &imposter
            )
            .unwrap())
    );
    control
        .assert_any_role(
            &deps.storage,
            &[Role::ActivePool, Role::Owner, Role::StabilityPool],
            &owner,
        )
        .unwrap();
    let err = control
        .assert_any_role(
            &deps.storage,
            &[Role::Owner, Role::ActivePool, Role::StabilityPool],
            &imposter,
        )
        .unwrap_err();
    assert_eq!(
        RolesError::UnauthorizedForRole {
            label: format!(
                "{} | {} | {}",
                Role::Owner.to_string(),
                Role::ActivePool.to_string(),
                Role::StabilityPool.to_string()
            )
        },
        err
    );

    // ensure checks proper with owner None
    control.delete(&mut deps.storage, &Role::Owner).unwrap();
    assert!(
        !(control
            .has_role(&deps.storage, &Role::Owner, &owner)
            .unwrap())
    );
    assert!(
        !(control
            .has_role(&deps.storage, &Role::Owner, &imposter)
            .unwrap())
    );
    let err = control
        .assert_role(&deps.storage, &Role::Owner, &owner)
        .unwrap_err();
    assert_eq!(
        RolesError::UnauthorizedForRole {
            label: Role::Owner.to_string()
        },
        err
    );
    let err = control
        .assert_role(&deps.storage, &Role::Owner, &imposter)
        .unwrap_err();
    assert_eq!(
        RolesError::UnauthorizedForRole {
            label: Role::Owner.to_string()
        },
        err
    );
}

fn registry() -> RoleProvider<'static> {
    RoleProvider::new("roles", "roles__by_addr")
}

#[test]
fn role_keys_are_the_stable_strings() {
    assert_eq!(Role::ActivePool.to_string(), "active_pool");
    assert_eq!(Role::TroveManager.to_string(), "trove_manager");
    assert_eq!(Role::Owner.to_string(), "owner");
    assert_eq!(Role::StabilityPool.to_string(), "stability_pool");
    assert_eq!(Role::Owner.as_str(), "owner");
}

#[test]
fn role_keys_are_pairwise_distinct() {
    let all = Role::all();
    assert_eq!(
        all,
        [
            Role::ActivePool,
            Role::TroveManager,
            Role::Owner,
            Role::StabilityPool
        ]
    );
    for (i, a) in all.iter().enumerate() {
        for (j, b) in all.iter().enumerate() {
            assert_eq!(i == j, a.to_string() == b.to_string());
        }
    }
}

#[test]
fn labels_join_in_input_order() {
    assert_eq!(join_labels(&[]), "");
    assert_eq!(join_labels(&[Role::TroveManager]), "trove_manager");
    assert_eq!(
        join_labels(&[Role::Owner, Role::ActivePool, Role::StabilityPool]),
        "owner | active_pool | stability_pool"
    );
    assert_eq!(
        join_labels(&[Role::StabilityPool, Role::Owner, Role::Owner]),
        "stability_pool | owner | owner"
    );
}

#[test]
fn round_trip_for_every_role() {
    let control = registry();
    for role in Role::all() {
        let mut store = MockStorage::new();
        let account = Addr::unchecked(format!("holder of {}", role.to_string()));
        control.set(&mut store, &role, account.clone()).unwrap();
        assert_eq!(control.get(&store, &role).unwrap(), Some(account));
    }
}

#[test]
fn get_on_empty_store_is_none() {
    let control = registry();
    let store = MockStorage::new();
    for role in Role::all() {
        assert_eq!(control.get(&store, &role).unwrap(), None);
    }
}

#[test]
fn delete_of_ungranted_role_is_a_no_op() {
    let control = registry();
    let mut store = MockStorage::new();
    control
        .set(&mut store, &Role::ActivePool, Addr::unchecked("pool"))
        .unwrap();
    let before: Vec<(Vec<u8>, Vec<u8>)> = store
        .range(None, None, cosmwasm_std::Order::Ascending)
        .collect();
    control.delete(&mut store, &Role::Owner).unwrap();
    control.delete(&mut store, &Role::Owner).unwrap();
    assert_eq!(control.get(&store, &Role::Owner).unwrap(), None);
    let after: Vec<(Vec<u8>, Vec<u8>)> = store
        .range(None, None, cosmwasm_std::Order::Ascending)
        .collect();
    assert_eq!(before, after);
}

#[test]
fn overwrite_moves_the_role() {
    let control = registry();
    let mut store = MockStorage::new();
    let alice = Addr::unchecked("alice");
    let bob = Addr::unchecked("bob");
    control
        .set(&mut store, &Role::Owner, alice.clone())
        .unwrap();
    control
        .set(&mut store, &Role::ActivePool, alice.clone())
        .unwrap();
    control.set(&mut store, &Role::Owner, bob.clone()).unwrap();
    assert_eq!(control.get(&store, &Role::Owner).unwrap(), Some(bob.clone()));
    assert!(!control.has_role(&store, &Role::Owner, &alice).unwrap());
    assert!(control.has_role(&store, &Role::Owner, &bob).unwrap());
    // alice keeps her other role
    assert_eq!(
        control.roles_of(&store, &alice).unwrap(),
        vec![Role::ActivePool]
    );
    assert_eq!(control.roles_of(&store, &bob).unwrap(), vec![Role::Owner]);
}

#[test]
fn regrant_to_current_holder_keeps_indexes() {
    let control = registry();
    let mut store = MockStorage::new();
    let alice = Addr::unchecked("alice");
    control
        .set(&mut store, &Role::Owner, alice.clone())
        .unwrap();
    let before: Vec<(Vec<u8>, Vec<u8>)> = store
        .range(None, None, cosmwasm_std::Order::Ascending)
        .collect();
    control
        .set(&mut store, &Role::Owner, alice.clone())
        .unwrap();
    let after: Vec<(Vec<u8>, Vec<u8>)> = store
        .range(None, None, cosmwasm_std::Order::Ascending)
        .collect();
    assert_eq!(before, after);
    assert_eq!(control.get(&store, &Role::Owner).unwrap(), Some(alice.clone()));
    assert_eq!(control.roles_of(&store, &alice).unwrap(), vec![Role::Owner]);
}

#[test]
fn has_role_tells_holder_from_others() {
    let control = registry();
    let mut store = MockStorage::new();
    let alice = Addr::unchecked("alice");
    let bob = Addr::unchecked("bob");
    control
        .set(&mut store, &Role::TroveManager, alice.clone())
        .unwrap();
    assert!(control
        .has_role(&store, &Role::TroveManager, &alice)
        .unwrap());
    assert!(!control.has_role(&store, &Role::TroveManager, &bob).unwrap());
    assert!(!control.has_role(&store, &Role::Owner, &alice).unwrap());
}

#[test]
fn has_any_role_is_the_disjunction() {
    let control = registry();
    let mut store = MockStorage::new();
    let alice = Addr::unchecked("alice");
    let bob = Addr::unchecked("bob");
    control
        .set(&mut store, &Role::StabilityPool, alice.clone())
        .unwrap();
    let three = [Role::Owner, Role::ActivePool, Role::StabilityPool];
    assert!(control.has_any_role(&store, &three, &alice).unwrap());
    assert!(!control.has_any_role(&store, &three, &bob).unwrap());
    assert!(!control
        .has_any_role(&store, &[Role::Owner, Role::ActivePool], &alice)
        .unwrap());
    // the empty list never matches
    assert!(!control.has_any_role(&store, &[], &alice).unwrap());
    assert!(!control.has_any_role(&store, &[], &bob).unwrap());
}

#[test]
fn assert_any_role_on_empty_list_fails_with_empty_label() {
    let control = registry();
    let mut store = MockStorage::new();
    let alice = Addr::unchecked("alice");
    control
        .set(&mut store, &Role::Owner, alice.clone())
        .unwrap();
    let err = control.assert_any_role(&store, &[], &alice).unwrap_err();
    assert_eq!(
        err,
        RolesError::UnauthorizedForRole {
            label: String::new()
        }
    );
}

#[test]
fn assert_any_role_label_keeps_input_order() {
    let control = registry();
    let store = MockStorage::new();
    let err = control
        .assert_any_role(
            &store,
            &[Role::Owner, Role::ActivePool, Role::StabilityPool],
            &Addr::unchecked("nobody"),
        )
        .unwrap_err();
    assert_eq!(
        err,
        RolesError::UnauthorizedForRole {
            label: "owner | active_pool | stability_pool".to_string()
        }
    );
}

#[test]
fn after_delete_everyone_is_denied() {
    let control = registry();
    let mut store = MockStorage::new();
    let alice = Addr::unchecked("alice");
    let bob = Addr::unchecked("bob");
    control
        .set(&mut store, &Role::Owner, alice.clone())
        .unwrap();
    control.delete(&mut store, &Role::Owner).unwrap();
    for account in [&alice, &bob] {
        let err = control
            .assert_role(&store, &Role::Owner, account)
            .unwrap_err();
        assert_eq!(
            err,
            RolesError::UnauthorizedForRole {
                label: "owner".to_string()
            }
        );
    }
    assert_eq!(control.roles_of(&store, &alice).unwrap(), Vec::<Role>::new());
}

#[test]
fn scenario_grant_check_delete() {
    let control = registry();
    let mut store = MockStorage::new();
    let alice = Addr::unchecked("alice");
    let bob = Addr::unchecked("bob");
    control
        .set(&mut store, &Role::Owner, alice.clone())
        .unwrap();
    control
        .set(&mut store, &Role::ActivePool, bob.clone())
        .unwrap();
    control
        .assert_any_role(&store, &[Role::Owner, Role::ActivePool], &bob)
        .unwrap();
    control.delete(&mut store, &Role::Owner).unwrap();
    let err = control
        .assert_role(&store, &Role::Owner, &alice)
        .unwrap_err();
    assert_eq!(
        err,
        RolesError::UnauthorizedForRole {
            label: "owner".to_string()
        }
    );
}

#[test]
fn roles_of_lists_in_catalog_order() {
    let control = registry();
    let mut store = MockStorage::new();
    let alice = Addr::unchecked("alice");
    assert_eq!(control.roles_of(&store, &alice).unwrap(), Vec::<Role>::new());
    control
        .set(&mut store, &Role::StabilityPool, alice.clone())
        .unwrap();
    control
        .set(&mut store, &Role::ActivePool, alice.clone())
        .unwrap();
    control
        .set(&mut store, &Role::Owner, alice.clone())
        .unwrap();
    control
        .set(&mut store, &Role::TroveManager, Addr::unchecked("alic"))
        .unwrap();
    assert_eq!(
        control.roles_of(&store, &alice).unwrap(),
        vec![Role::ActivePool, Role::Owner, Role::StabilityPool]
    );
    assert_eq!(
        control.roles_of(&store, &Addr::unchecked("alic")).unwrap(),
        vec![Role::TroveManager]
    );
    assert_eq!(
        control.roles_of(&store, &Addr::unchecked("alicee")).unwrap(),
        Vec::<Role>::new()
    );
}

#[test]
fn address_with_special_characters_round_trips() {
    let control = registry();
    let mut store = MockStorage::new();
    let odd = Addr::unchecked("a \"quoted\" \\ name\n\twith \u{7f} and \u{1F600} é");
    control.set(&mut store, &Role::Owner, odd.clone()).unwrap();
    assert_eq!(control.get(&store, &Role::Owner).unwrap(), Some(odd.clone()));
    assert!(control.has_role(&store, &Role::Owner, &odd).unwrap());
    assert_eq!(control.roles_of(&store, &odd).unwrap(), vec![Role::Owner]);
    control.delete(&mut store, &Role::Owner).unwrap();
    assert_eq!(control.roles_of(&store, &odd).unwrap(), Vec::<Role>::new());
}

#[test]
fn empty_address_can_hold_a_role() {
    let control = registry();
    let mut store = MockStorage::new();
    let empty = Addr::unchecked("");
    control
        .set(&mut store, &Role::Owner, empty.clone())
        .unwrap();
    assert!(control.has_role(&store, &Role::Owner, &empty).unwrap());
    assert_eq!(control.roles_of(&store, &empty).unwrap(), vec![Role::Owner]);
    assert!(!control
        .has_role(&store, &Role::Owner, &Addr::unchecked("x"))
        .unwrap());
}

#[test]
fn unreadable_entry_gives_the_store_error() {
    let control = registry();
    let mut store = MockStorage::new();
    // what the primary mapping would hold for `owner`, but not an address
    store.set(b"\x00\x05rolesowner", b"{not json");
    let alice = Addr::unchecked("alice");
    assert!(control.get(&store, &Role::Owner).is_err());
    assert!(control.has_role(&store, &Role::Owner, &alice).is_err());
    let before: Vec<(Vec<u8>, Vec<u8>)> = store
        .range(None, None, cosmwasm_std::Order::Ascending)
        .collect();
    assert!(control
        .set(&mut store, &Role::Owner, alice.clone())
        .is_err());
    assert!(control.delete(&mut store, &Role::Owner).is_err());
    let after: Vec<(Vec<u8>, Vec<u8>)> = store
        .range(None, None, cosmwasm_std::Order::Ascending)
        .collect();
    assert_eq!(before, after);
    match control.assert_role(&store, &Role::Owner, &alice) {
        Err(RolesError::Std(_)) => {}
        other => panic!("expected the store's error, got {:?}", other),
    }
    // other roles are not affected
    assert_eq!(control.get(&store, &Role::ActivePool).unwrap(), None);
}

#[test]
fn scan_stops_at_first_match_before_unreadable_entry() {
    let control = registry();
    let mut store = MockStorage::new();
    let alice = Addr::unchecked("alice");
    control
        .set(&mut store, &Role::ActivePool, alice.clone())
        .unwrap();
    store.set(b"\x00\x05rolesowner", b"17");
    // the match comes first: the unreadable entry is never read
    assert!(control
        .has_any_role(&store, &[Role::ActivePool, Role::Owner], &alice)
        .unwrap());
    control
        .assert_any_role(&store, &[Role::ActivePool, Role::Owner], &alice)
        .unwrap();
    // the unreadable entry comes first
    assert!(control
        .has_any_role(&store, &[Role::Owner, Role::ActivePool], &alice)
        .is_err());
    match control.assert_any_role(&store, &[Role::Owner, Role::ActivePool], &alice) {
        Err(RolesError::Std(_)) => {}
        other => panic!("expected the store's error, got {:?}", other),
    }
}

#[test]
fn storage_error_converts_into_roles_error() {
    let control = registry();
    let mut store = MockStorage::new();
    store.set(b"\x00\x05rolesowner", b"17");
    let err = control.get(&store, &Role::Owner).unwrap_err();
    let same = control.get(&store, &Role::Owner).unwrap_err();
    assert_eq!(RolesError::from(err), RolesError::Std(same));
}

#[test]
fn storage_layout_is_length_prefixed() {
    let control = RoleProvider::new("foo", "foo__idx");
    let mut store = MockStorage::new();
    control
        .set(&mut store, &Role::Owner, Addr::unchecked("alice"))
        .unwrap();
    let all: Vec<(Vec<u8>, Vec<u8>)> = store
        .range(None, None, cosmwasm_std::Order::Ascending)
        .collect();
    assert_eq!(
        all,
        vec![
            (b"\x00\x03fooowner".to_vec(), b"\"alice\"".to_vec()),
            (b"\x00\x08foo__idx\x00\x05aliceowner".to_vec(), b"5".to_vec()),
        ]
    );
}

#[test]
fn namespaces_keep_registries_apart() {
    let first = RoleProvider::new("first", "first__idx");
    let second = RoleProvider::new("second", "second__idx");
    let mut store = MockStorage::new();
    let alice = Addr::unchecked("alice");
    first.set(&mut store, &Role::Owner, alice.clone()).unwrap();
    assert_eq!(second.get(&store, &Role::Owner).unwrap(), None);
    assert_eq!(second.roles_of(&store, &alice).unwrap(), Vec::<Role>::new());
    second.delete(&mut store, &Role::Owner).unwrap();
    assert_eq!(first.get(&store, &Role::Owner).unwrap(), Some(alice.clone()));
    assert_eq!(first.roles_of(&store, &alice).unwrap(), vec![Role::Owner]);
}

/// The primary mapping and the index agree on every role and account.
fn assert_consistent(control: &RoleProvider, store: &MockStorage, accounts: &[Addr]) {
    for role in Role::all() {
        let grantee = control.get(store, &role).unwrap();
        for account in accounts {
            let listed = control.roles_of(store, account).unwrap().contains(&role);
            assert_eq!(listed, grantee.as_ref() == Some(account));
        }
    }
}

#[test]
fn index_stays_consistent_over_a_long_history() {
    let control = registry();
    let mut store = MockStorage::new();
    let accounts = [
        Addr::unchecked("alice"),
        Addr::unchecked("bob"),
        Addr::unchecked("carol"),
    ];
    let roles = Role::all();
    // a fixed pseudo-random walk over the operations
    let mut state: u32 = 12345;
    for _ in 0..300 {
        state = state.wrapping_mul(1103515245).wrapping_add(12345);
        let role = roles[((state >> 16) % 4) as usize];
        let account = accounts[((state >> 20) % 3) as usize].clone();
        if (state >> 24) % 3 == 0 {
            control.delete(&mut store, &role).unwrap();
        } else {
            control.set(&mut store, &role, account).unwrap();
        }
        assert_consistent(&control, &store, &accounts);
    }
}

#[test]
fn address_length_bound_is_two_bytes_of_length() {
    assert!(address_fits(&Addr::unchecked("")));
    assert!(address_fits(&Addr::unchecked("a".repeat(0xFFFF))));
    assert!(!address_fits(&Addr::unchecked("a".repeat(0x10000))));
    // the bound is in bytes, not in characters
    assert!(address_fits(&Addr::unchecked("é".repeat(0x7FFF))));
    assert!(!address_fits(&Addr::unchecked("é".repeat(0x8000))));
}

#[test]
fn try_set_refuses_an_address_too_long_for_a_key() {
    let control = registry();
    let mut store = MockStorage::new();
    let alice = Addr::unchecked("alice");
    control
        .set(&mut store, &Role::Owner, alice.clone())
        .unwrap();
    let before: Vec<(Vec<u8>, Vec<u8>)> = store
        .range(None, None, cosmwasm_std::Order::Ascending)
        .collect();
    let long = Addr::unchecked("x".repeat(0x10000));
    assert_eq!(control.try_set(&mut store, &Role::Owner, long.clone()), None);
    assert_eq!(control.try_roles_of(&store, &long), None);
    let after: Vec<(Vec<u8>, Vec<u8>)> = store
        .range(None, None, cosmwasm_std::Order::Ascending)
        .collect();
    assert_eq!(before, after);
    assert_eq!(control.get(&store, &Role::Owner).unwrap(), Some(alice));
}

#[test]
fn try_set_grants_at_the_length_bound() {
    let control = registry();
    let mut store = MockStorage::new();
    let longest = Addr::unchecked("y".repeat(0xFFFF));
    assert_eq!(
        control.try_set(&mut store, &Role::TroveManager, longest.clone()),
        Some(Ok(()))
    );
    assert_eq!(
        control.get(&store, &Role::TroveManager).unwrap(),
        Some(longest.clone())
    );
    assert_eq!(
        control.try_roles_of(&store, &longest),
        Some(Ok(vec![Role::TroveManager]))
    );
    control
        .set(&mut store, &Role::TroveManager, Addr::unchecked("bob"))
        .unwrap();
    assert_eq!(
        control.roles_of(&store, &longest).unwrap(),
        Vec::<Role>::new()
    );
}

#[test]
fn delete_tolerates_a_stored_address_too_long_for_a_key() {
    let control = registry();
    let mut store = MockStorage::new();
    // a grant written by other means, whose holder no index key can carry
    let long = "z".repeat(0x10000);
    store.set(b"\x00\x05rolesowner", format!("\"{}\"", long).as_bytes());
    assert_eq!(
        control.get(&store, &Role::Owner).unwrap(),
        Some(Addr::unchecked(long))
    );
    control.delete(&mut store, &Role::Owner).unwrap();
    assert_eq!(control.get(&store, &Role::Owner).unwrap(), None);
    assert_eq!(store.range(None, None, cosmwasm_std::Order::Ascending).count(), 0);
}

#[test]
fn try_new_checks_the_namespaces() {
    assert!(RoleProvider::try_new("foo", "foo__idx").is_some());
    assert!(RoleProvider::try_new("", "idx").is_some());
    // the two namespaces must differ
    assert!(RoleProvider::try_new("foo", "foo").is_none());
    assert!(RoleProvider::try_new("", "").is_none());
    // and each fit the two bytes of its length
    let longest = "n".repeat(0xFFFF);
    let too_long = "n".repeat(0x10000);
    assert!(RoleProvider::try_new(&longest, "idx").is_some());
    assert!(RoleProvider::try_new(&too_long, "idx").is_none());
    assert!(RoleProvider::try_new("foo", &too_long).is_none());
}

#[test]
fn try_new_gives_a_working_registry() {
    let control = RoleProvider::try_new("foo", "foo__idx").unwrap();
    let mut store = MockStorage::new();
    let alice = Addr::unchecked("alice");
    control
        .set(&mut store, &Role::Owner, alice.clone())
        .unwrap();
    let same = RoleProvider::new("foo", "foo__idx");
    assert_eq!(same.get(&store, &Role::Owner).unwrap(), Some(alice.clone()));
    assert_eq!(same.roles_of(&store, &alice).unwrap(), vec![Role::Owner]);
}
