use anchor_lang::prelude::Pubkey;
use mpl_token_metadata::pda::{find_master_edition_account, find_metadata_account};
use solana_nft_anchor::address::{Address, Purpose};
use solana_nft_anchor::records::{Descriptor, DescriptorRecord, HoldingKey, UsageConstraint};
use solana_nft_anchor::table::{Key, Stored, Table};
use std::str::FromStr;

fn registry() -> Pubkey {
    Pubkey::from_str("metaqbxxUerdq28cj1RbAWkYQm3ybzjb6a8bt518x1s").expect("a program id")
}

fn sample(seed: u8) -> Address {
    let mut bytes = [0u8; 32];
    for (i, byte) in bytes.iter_mut().enumerate() {
        *byte = seed.wrapping_mul(31).wrapping_add(i as u8);
    }
    Address::new(bytes)
}

#[test]
fn descriptor_location_is_the_program_address_of_the_three_seeds() {
    let program = registry();
    for seed in 0..16u8 {
        let mint = sample(seed);
        let (expected, _) = Pubkey::find_program_address(
            &["metadata".as_bytes(), program.as_ref(), &mint.bytes],
            &program,
        );
        let found = solana_nft_anchor::address::derive(&mint, Purpose::Descriptor);
        assert_eq!(found, Some(Address::new(expected.to_bytes())));
    }
}

#[test]
fn marker_location_is_the_program_address_of_the_four_seeds() {
    let program = registry();
    for seed in 0..16u8 {
        let mint = sample(seed);
        let (expected, _) = Pubkey::find_program_address(
            &["metadata".as_bytes(), program.as_ref(), &mint.bytes, "edition".as_bytes()],
            &program,
        );
        let found = solana_nft_anchor::address::derive(&mint, Purpose::Marker);
        assert_eq!(found, Some(Address::new(expected.to_bytes())));
    }
}

#[test]
fn derived_locations_are_those_of_the_metadata_program() {
    for seed in 0..32u8 {
        let mint = sample(seed.wrapping_mul(7));
        let key = Pubkey::new_from_array(mint.bytes);
        assert_eq!(
            solana_nft_anchor::address::derive(&mint, Purpose::Descriptor),
            Some(Address::new(find_metadata_account(&key).0.to_bytes()))
        );
        assert_eq!(
            solana_nft_anchor::address::derive(&mint, Purpose::Marker),
            Some(Address::new(find_master_edition_account(&key).0.to_bytes()))
        );
    }
    assert_eq!(mpl_token_metadata::ID, registry());
}

#[test]
fn derived_location_of_the_system_address() {
    let mint = Address::new([0u8; 32]);
    let program = registry();
    let descriptor = solana_nft_anchor::address::derive(&mint, Purpose::Descriptor)
        .expect("a derived location");
    let key = Pubkey::new_from_array(descriptor.bytes);
    assert!(!key.is_on_curve());
    let mut bump = None;
    for candidate in (0..=255u8).rev() {
        let seeds: [&[u8]; 4] =
            ["metadata".as_bytes(), program.as_ref(), &mint.bytes, &[candidate]];
        if let Ok(address) = Pubkey::create_program_address(&seeds, &program) {
            bump = Some((address, candidate));
            break;
        }
    }
    let (address, _) = bump.expect("a bump seed");
    assert_eq!(address.to_bytes(), descriptor.bytes);
}

#[test]
fn derive_is_deterministic_and_tells_purposes_and_identifiers_apart() {
    let one = sample(1);
    let two = sample(2);
    let d1 = solana_nft_anchor::address::derive(&one, Purpose::Descriptor);
    let m1 = solana_nft_anchor::address::derive(&one, Purpose::Marker);
    let d2 = solana_nft_anchor::address::derive(&two, Purpose::Descriptor);
    assert!(d1.is_some() && m1.is_some() && d2.is_some());
    assert_eq!(d1, solana_nft_anchor::address::derive(&one, Purpose::Descriptor));
    assert_eq!(m1, solana_nft_anchor::address::derive(&one, Purpose::Marker));
    assert_ne!(d1, m1);
    assert_ne!(d1, d2);
    assert_ne!(d1, Some(one));
    assert_ne!(m1, Some(one));
}

#[test]
fn addresses_compare_by_their_bytes() {
    let a = Address::new([5u8; 32]);
    let mut bytes = [5u8; 32];
    assert!(a.same(&Address::new(bytes)));
    bytes[31] = 6;
    assert!(!a.same(&Address::new(bytes)));
    bytes[31] = 5;
    bytes[0] = 4;
    assert!(!a.same(&Address::new(bytes)));
    assert_eq!(a.duplicate(), a);
    assert_eq!(a.bytes, [5u8; 32]);
}

#[test]
fn holding_keys_compare_by_both_parts() {
    let a = Address::new([1u8; 32]);
    let b = Address::new([2u8; 32]);
    let key = HoldingKey { identifier: a, owner: b };
    assert!(key.same(&HoldingKey { identifier: a, owner: b }));
    assert!(!key.same(&HoldingKey { identifier: b, owner: b }));
    assert!(!key.same(&HoldingKey { identifier: a, owner: a }));
    assert!(!key.same(&HoldingKey { identifier: b, owner: a }));
    assert_eq!(key.duplicate(), key);
}

#[test]
fn table_keeps_one_value_per_key() {
    let a = Address::new([1u8; 32]);
    let b = Address::new([2u8; 32]);
    let mut table: Table<Address, u64> = Table::new();
    assert!(!table.contains(&a));
    assert_eq!(table.get(&a), None);

    table.put(a, 10);
    table.put(b, 20);
    assert!(table.contains(&a));
    assert_eq!(table.get(&a), Some(&10));
    assert_eq!(table.get(&b), Some(&20));

    table.put(a, 11);
    assert_eq!(table.get(&a), Some(&11));
    assert_eq!(table.get(&b), Some(&20));
    assert_eq!(table.get(&Address::new([3u8; 32])), None);

    let copy = table.snapshot();
    table.put(b, 21);
    assert_eq!(copy.get(&a), Some(&11));
    assert_eq!(copy.get(&b), Some(&20));
    assert_eq!(table.get(&b), Some(&21));
}

#[test]
fn plain_descriptor_has_no_fee_and_no_extras() {
    let plain = Descriptor::new("Pixel Fox".to_string(), "PFOX".to_string(), "ipfs://abc123".to_string());
    assert_eq!(
        plain,
        Descriptor {
            name: "Pixel Fox".to_string(),
            symbol: "PFOX".to_string(),
            uri: "ipfs://abc123".to_string(),
            fee_rate: 0,
            creators: None,
            collection: None,
            usage: None,
        }
    );
}

#[test]
fn duplicates_stand_for_the_same_record() {
    let a = Address::new([1u8; 32]);
    let b = Address::new([2u8; 32]);
    let rich = Descriptor {
        name: "n".to_string(),
        symbol: "s".to_string(),
        uri: "u".to_string(),
        fee_rate: 250,
        creators: Some(vec![a, b]),
        collection: Some(b),
        usage: Some(UsageConstraint { remaining: 2, total: 5 }),
    };
    assert_eq!(rich.duplicate(), rich);
    let record = DescriptorRecord { identifier: a, update_authority: b, payload: rich };
    assert_eq!(record.duplicate(), record);
    let bare = Descriptor::new(String::new(), String::new(), String::new());
    assert_eq!(bare.duplicate(), bare);
    assert_eq!(7u64.duplicate(), 7);
}
