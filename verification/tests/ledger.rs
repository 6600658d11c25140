use dbnb::contract::{
    add_listing, config, config_read, confirm_listing, create_viewing_key, find_listing_id,
    handle, init, query, query_confirmations, query_listings, Env, Ledger,
};
use dbnb::errors::LedgerError;
use dbnb::state::State;
use dbnb::msg::{HandleAnswer, HandleMsg, InitMsg, QueryAnswer, QueryMsg};

fn env(height: u64, time: u64, sender: &str) -> Env {
    Env { height, time, sender: sender.to_string() }
}

fn fresh_ledger() -> Ledger {
    init(&env(1, 1000, "creator"), InitMsg { prng_seed: b"test==".to_vec() })
}

fn add_cabin(ledger: &mut Ledger) {
    add_listing(
        ledger,
        &env(1, 1000, "party_a"),
        "Cabin".to_string(),
        "A cabin in the woods".to_string(),
        "1 Forest Way".to_string(),
        vec!["img://cabin".to_string()],
        100u128,
    );
}

#[test]
fn initialization_sets_owner_and_seed() {
    let ledger = fresh_ledger();
    assert_eq!(ledger.state.owner, b"creator".to_vec());
    assert_eq!(ledger.state.prng_seed, b"test==".to_vec());
    let (listings, total) = query_listings(&ledger, 0, 10);
    assert_eq!(listings.len(), 0);
    assert_eq!(total, 0);
}

#[test]
fn added_listing_is_browsable() {
    let mut ledger = fresh_ledger();
    add_cabin(&mut ledger);
    let (listings, total) = query_listings(&ledger, 0, 10);
    assert_eq!(total, 1);
    assert_eq!(listings.len(), 1);
    assert_eq!(listings[0].name, "Cabin");
    assert_eq!(listings[0].price, 100u128);
    assert_eq!(listings[0].owner, b"party_a".to_vec());
    assert_eq!(listings[0].images, vec!["img://cabin".to_string()]);
}

#[test]
fn first_listing_is_found_at_position_zero() {
    let mut ledger = fresh_ledger();
    add_cabin(&mut ledger);
    let (listings, _) = query_listings(&ledger, 0, 10);
    let id = listings[0].id.clone();
    assert_eq!(find_listing_id(&ledger, &id), Ok(0));
}

#[test]
fn unknown_identifier_is_not_found() {
    let mut ledger = fresh_ledger();
    add_cabin(&mut ledger);
    let absent = "0000000000000000000000000000000000000000000000000000000000000000".to_string();
    assert_eq!(find_listing_id(&ledger, &absent), Err(LedgerError::NotFound));
}

#[test]
fn identifiers_are_hex_of_expected_width() {
    let mut ledger = fresh_ledger();
    add_cabin(&mut ledger);
    let (listings, _) = query_listings(&ledger, 0, 10);
    let id = &listings[0].id;
    assert_eq!(id.len(), 64);
    assert!(id.chars().all(|c| c.is_ascii_digit() || ('a'..='f').contains(&c)));
}

#[test]
fn identifier_generation_is_deterministic() {
    let mut first = fresh_ledger();
    let mut second = fresh_ledger();
    add_cabin(&mut first);
    add_cabin(&mut second);
    let (a, _) = query_listings(&first, 0, 10);
    let (b, _) = query_listings(&second, 0, 10);
    assert_eq!(a[0].id, b[0].id);
}

#[test]
fn registry_and_index_log_stay_in_lock_step() {
    let mut ledger = fresh_ledger();
    for height in 1..=5u64 {
        add_listing(
            &mut ledger,
            &env(height, 1000 + height, "party_a"),
            format!("Listing {height}"),
            String::new(),
            String::new(),
            Vec::new(),
            height as u128,
        );
    }
    assert_eq!(ledger.listings.length(), ledger.listing_ids.length());
    let (listings, _) = query_listings(&ledger, 0, 10);
    for listing in listings {
        let k = find_listing_id(&ledger, &listing.id).expect("appended id must be found");
        assert_eq!(ledger.listings.get_at(k as usize).unwrap().id, listing.id);
    }
}

#[test]
fn pagination_is_reverse_ordered_and_counted() {
    let mut ledger = fresh_ledger();
    for height in 1..=5u64 {
        add_listing(
            &mut ledger,
            &env(height, 1000, "party_a"),
            format!("Listing {height}"),
            String::new(),
            String::new(),
            Vec::new(),
            height as u128,
        );
    }
    let (page0, total0) = query_listings(&ledger, 0, 2);
    assert_eq!(total0, 5);
    assert_eq!(page0.len(), 2);
    assert_eq!(page0[0].name, "Listing 5");
    assert_eq!(page0[1].name, "Listing 4");
    let (page1, _) = query_listings(&ledger, 1, 2);
    assert_eq!(page1[0].name, "Listing 3");
    assert_eq!(page1[1].name, "Listing 2");
    let (page2, _) = query_listings(&ledger, 2, 2);
    assert_eq!(page2.len(), 1);
    assert_eq!(page2[0].name, "Listing 1");
    let (beyond, total) = query_listings(&ledger, 9, 2);
    assert_eq!(beyond.len(), 0);
    assert_eq!(total, 5);
    let (nothing, _) = query_listings(&ledger, 0, 0);
    assert_eq!(nothing.len(), 0);
}

#[test]
fn confirming_twice_fails_already_booked() {
    let mut ledger = fresh_ledger();
    add_cabin(&mut ledger);
    let party_b = env(2, 2000, "party_b");
    assert_eq!(confirm_listing(&mut ledger, &party_b, 0, 10, 20), Ok(true));
    assert_eq!(
        confirm_listing(&mut ledger, &party_b, 0, 30, 40),
        Err(LedgerError::AlreadyBooked)
    );
}

#[test]
fn overlapping_confirmation_by_another_party_succeeds() {
    let mut ledger = fresh_ledger();
    add_cabin(&mut ledger);
    assert_eq!(confirm_listing(&mut ledger, &env(2, 2000, "party_b"), 0, 10, 20), Ok(true));
    assert_eq!(confirm_listing(&mut ledger, &env(3, 3000, "party_c"), 0, 15, 25), Ok(true));
}

#[test]
fn confirming_a_missing_position_is_not_found() {
    let mut ledger = fresh_ledger();
    add_cabin(&mut ledger);
    assert_eq!(
        confirm_listing(&mut ledger, &env(2, 2000, "party_b"), 1, 10, 20),
        Err(LedgerError::NotFound)
    );
}

#[test]
fn confirmations_are_readable_with_the_right_credential() {
    let mut ledger = fresh_ledger();
    add_cabin(&mut ledger);
    let party_b = env(2, 2000, "party_b");
    confirm_listing(&mut ledger, &party_b, 0, 10, 20).unwrap();
    let vk = create_viewing_key(&mut ledger, &party_b, "entropy".to_string());
    let confs = query_confirmations(&ledger, 0, 10, &"party_b".to_string(), &vk).unwrap();
    assert_eq!(confs.len(), 1);
    assert_eq!(confs[0].start, 10);
    assert_eq!(confs[0].end, 20);
    assert_eq!(confs[0].addr, b"party_b".to_vec());
    let (listings, _) = query_listings(&ledger, 0, 10);
    assert_eq!(confs[0].id, listings[0].id);
}

#[test]
fn wrong_or_missing_credential_is_unauthorized() {
    let mut ledger = fresh_ledger();
    add_cabin(&mut ledger);
    let party_b = env(2, 2000, "party_b");
    confirm_listing(&mut ledger, &party_b, 0, 10, 20).unwrap();
    let vk = create_viewing_key(&mut ledger, &party_b, "entropy".to_string());
    assert_eq!(
        query_confirmations(&ledger, 0, 10, &"party_b".to_string(), &"guess".to_string()),
        Err(LedgerError::Unauthorized)
    );
    assert_eq!(
        query_confirmations(&ledger, 0, 10, &"party_c".to_string(), &vk),
        Err(LedgerError::Unauthorized)
    );
}

#[test]
fn a_new_credential_replaces_the_old_one() {
    let mut ledger = fresh_ledger();
    let party_b = env(2, 2000, "party_b");
    let old_vk = create_viewing_key(&mut ledger, &party_b, "first".to_string());
    let new_vk = create_viewing_key(&mut ledger, &env(3, 3000, "party_b"), "second".to_string());
    let address = "party_b".to_string();
    assert_eq!(
        query_confirmations(&ledger, 0, 10, &address, &old_vk),
        Err(LedgerError::Unauthorized)
    );
    assert!(query_confirmations(&ledger, 0, 10, &address, &new_vk).is_ok());
}

#[test]
fn a_party_without_bookings_reads_an_empty_page() {
    let mut ledger = fresh_ledger();
    let party_b = env(2, 2000, "party_b");
    let vk = create_viewing_key(&mut ledger, &party_b, "entropy".to_string());
    let confs = query_confirmations(&ledger, 0, 10, &"party_b".to_string(), &vk).unwrap();
    assert_eq!(confs.len(), 0);
}

#[test]
fn confirmation_pages_come_most_recent_first() {
    let mut ledger = fresh_ledger();
    for height in 1..=3u64 {
        add_listing(
            &mut ledger,
            &env(height, 1000, "party_a"),
            format!("Listing {height}"),
            String::new(),
            String::new(),
            Vec::new(),
            1u128,
        );
    }
    let party_b = env(4, 4000, "party_b");
    confirm_listing(&mut ledger, &party_b, 0, 10, 20).unwrap();
    confirm_listing(&mut ledger, &party_b, 1, 30, 40).unwrap();
    confirm_listing(&mut ledger, &party_b, 2, 50, 60).unwrap();
    let vk = create_viewing_key(&mut ledger, &party_b, "entropy".to_string());
    let confs = query_confirmations(&ledger, 0, 2, &"party_b".to_string(), &vk).unwrap();
    assert_eq!(confs.len(), 2);
    assert_eq!(confs[0].start, 50);
    assert_eq!(confs[1].start, 30);
    let rest = query_confirmations(&ledger, 1, 2, &"party_b".to_string(), &vk).unwrap();
    assert_eq!(rest.len(), 1);
    assert_eq!(rest[0].start, 10);
}

#[test]
fn handle_routes_every_mutation() {
    let mut ledger = fresh_ledger();
    let added = handle(
        &mut ledger,
        &env(1, 1000, "party_a"),
        HandleMsg::AddListing {
            name: "Cabin".to_string(),
            description: String::new(),
            address: String::new(),
            images: Vec::new(),
            price: 100u128,
        },
    );
    assert_eq!(added, Ok(None));
    let booked = handle(
        &mut ledger,
        &env(2, 2000, "party_b"),
        HandleMsg::ConfirmListing { id: 0, start: 10, end: 20 },
    );
    assert!(matches!(booked, Ok(Some(HandleAnswer::ListingConfirmation { booked: true }))));
    let keyed = handle(
        &mut ledger,
        &env(3, 3000, "party_b"),
        HandleMsg::CreateViewingKey { entropy: "entropy".to_string() },
    );
    match keyed {
        Ok(Some(HandleAnswer::CreateViewingKey { key })) => {
            assert_eq!(key.len(), 64);
        }
        other => panic!("unexpected answer: {other:?}"),
    }
}

#[test]
fn query_routes_every_read() {
    let mut ledger = fresh_ledger();
    add_cabin(&mut ledger);
    let party_b = env(2, 2000, "party_b");
    confirm_listing(&mut ledger, &party_b, 0, 10, 20).unwrap();
    let vk = create_viewing_key(&mut ledger, &party_b, "entropy".to_string());

    let listings = query(&ledger, QueryMsg::GetListings { page: 0, page_size: 10 });
    let id = match listings {
        Ok(QueryAnswer::Listings { listings, total }) => {
            assert_eq!(total, 1);
            assert_eq!(listings.len(), 1);
            listings[0].id.clone()
        }
        other => panic!("unexpected answer: {other:?}"),
    };

    let index = query(&ledger, QueryMsg::GetIndexOfListing { id: id.clone() });
    assert!(matches!(index, Ok(QueryAnswer::ListingIndex { index: 0 })));

    let confs = query(
        &ledger,
        QueryMsg::GetConfirmations {
            page: 0,
            page_size: 10,
            address: "party_b".to_string(),
            vk: vk.clone(),
        },
    );
    match confs {
        Ok(QueryAnswer::Confirmations { confirmations }) => {
            assert_eq!(confirmations.len(), 1);
            assert_eq!(confirmations[0].id, id);
        }
        other => panic!("unexpected answer: {other:?}"),
    }

    let denied = query(
        &ledger,
        QueryMsg::GetConfirmations {
            page: 0,
            page_size: 10,
            address: "party_b".to_string(),
            vk: "guess".to_string(),
        },
    );
    assert_eq!(denied, Err(LedgerError::Unauthorized));
}

#[test]
fn configuration_can_be_replaced_and_read() {
    let mut ledger = fresh_ledger();
    let replacement = State { owner: b"new_owner".to_vec(), prng_seed: b"new_seed".to_vec() };
    config(&mut ledger, replacement.clone());
    assert_eq!(*config_read(&ledger), replacement);
}
