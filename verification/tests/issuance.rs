use solana_nft_anchor::address::{Address, Purpose};
use solana_nft_anchor::error::{ErrorClass, IssuanceError};
use solana_nft_anchor::issuance::{init_nft, InitNFT};
use solana_nft_anchor::ledger::{is_derived, AuthorizationContext, Ledger};
use solana_nft_anchor::records::{AssetRecord, Descriptor, HoldingRecord, UniquenessMarker};

fn address(tag: u8) -> Address {
    Address::new([tag; 32])
}

fn location(identifier: &Address, purpose: Purpose) -> Address {
    solana_nft_anchor::address::derive(identifier, purpose).expect("a derived location")
}

fn accounts(signer: Address, mint: Address, owner: Address, include_descriptor: bool) -> InitNFT {
    InitNFT {
        signer,
        mint,
        owner,
        metadata_account: location(&mint, Purpose::Descriptor),
        master_edition_account: location(&mint, Purpose::Marker),
        include_descriptor,
    }
}

fn funded(cost: u64, who: &Address, amount: u64) -> Ledger {
    let mut ledger = Ledger::new(cost);
    ledger.fund(who, amount);
    ledger
}

fn pixel_fox(ledger: &mut Ledger, accounts: &InitNFT) -> Result<(), IssuanceError> {
    init_nft(
        ledger,
        accounts,
        "Pixel Fox".to_string(),
        "PFOX".to_string(),
        "ipfs://abc123".to_string(),
    )
}

#[test]
fn issuance_with_descriptor_end_to_end() {
    let a = address(1);
    let mint = address(2);
    let mut ledger = funded(10, &a, 25);
    let accounts = accounts(a, mint, a, true);

    assert_eq!(pixel_fox(&mut ledger, &accounts), Ok(()));

    assert_eq!(
        ledger.asset(&mint),
        Some(AssetRecord { precision: 0, authority: a, freeze_authority: Some(a), supply: 1 })
    );
    assert_eq!(
        ledger.holding(&mint, &a),
        Some(HoldingRecord { owner: a, identifier: mint, quantity: 1 })
    );
    assert_eq!(ledger.quantity(&mint, &a), 1);
    let record = ledger.descriptor(&accounts.metadata_account).expect("a descriptor");
    assert_eq!(record.identifier, mint);
    assert_eq!(record.update_authority, a);
    assert_eq!(record.payload.name, "Pixel Fox");
    assert_eq!(record.payload.symbol, "PFOX");
    assert_eq!(record.payload.uri, "ipfs://abc123");
    assert_eq!(record.payload.fee_rate, 0);
    assert_eq!(record.payload.creators, None);
    assert_eq!(record.payload.collection, None);
    assert_eq!(record.payload.usage, None);
    assert_eq!(
        ledger.marker(&accounts.master_edition_account),
        Some(UniquenessMarker { identifier: mint, descriptor: accounts.metadata_account })
    );
    assert_eq!(ledger.funds_of(&a), 15);
}

#[test]
fn issuance_without_descriptor_adds_asset_and_holding_only() {
    let a = address(1);
    let owner = address(7);
    let mint = address(2);
    let mut ledger = funded(3, &a, 3);
    let accounts = accounts(a, mint, owner, false);

    assert_eq!(pixel_fox(&mut ledger, &accounts), Ok(()));

    let asset = ledger.asset(&mint).expect("an asset");
    assert_eq!(asset.precision, 0);
    assert_eq!(asset.authority, a);
    assert_eq!(asset.supply, 1);
    assert_eq!(ledger.quantity(&mint, &owner), 1);
    assert_eq!(ledger.quantity(&mint, &a), 0);
    assert_eq!(ledger.holding(&mint, &a), None);
    assert_eq!(ledger.descriptor(&accounts.metadata_account), None);
    assert_eq!(ledger.marker(&accounts.master_edition_account), None);
    assert_eq!(ledger.funds_of(&a), 0);
    assert_eq!(ledger.asset(&address(9)), None);
}

#[test]
fn second_unit_of_issued_identifier_is_refused() {
    let a = address(1);
    let mint = address(2);
    let mut ledger = funded(10, &a, 25);
    let accounts = accounts(a, mint, a, true);
    assert_eq!(pixel_fox(&mut ledger, &accounts), Ok(()));

    let ctx = AuthorizationContext { signer: a };
    assert_eq!(ledger.mint_unit(&ctx, &mint, &a), Err(IssuanceError::SupplyExceeded));
    assert_eq!(ledger.quantity(&mint, &a), 1);
    assert_eq!(ledger.asset(&mint).expect("an asset").supply, 1);

    assert_eq!(ledger.mint_unit(&ctx, &mint, &address(5)), Err(IssuanceError::SupplyExceeded));
    assert_eq!(ledger.holding(&mint, &address(5)), None);
}

#[test]
fn reissue_on_same_slot_is_refused_and_changes_nothing() {
    let a = address(1);
    let b = address(3);
    let mint = address(2);
    let mut ledger = funded(10, &a, 25);
    ledger.fund(&b, 100);
    let first = accounts(a, mint, a, true);
    assert_eq!(pixel_fox(&mut ledger, &first), Ok(()));

    let outcome = pixel_fox(&mut ledger, &first);
    assert_eq!(outcome, Err(IssuanceError::AlreadyBound));
    assert_eq!(outcome.unwrap_err().class(), ErrorClass::PreconditionViolation);

    let by_other = accounts(b, mint, b, false);
    assert_eq!(pixel_fox(&mut ledger, &by_other), Err(IssuanceError::AlreadyBound));

    assert_eq!(ledger.asset(&mint).expect("an asset").authority, a);
    assert_eq!(ledger.asset(&mint).expect("an asset").supply, 1);
    assert_eq!(ledger.quantity(&mint, &a), 1);
    assert_eq!(ledger.quantity(&mint, &b), 0);
    assert_eq!(ledger.funds_of(&a), 15);
    assert_eq!(ledger.funds_of(&b), 100);
}

#[test]
fn issuance_is_all_or_nothing() {
    let a = address(1);
    let mint = address(2);
    let mut ledger = funded(10, &a, 25);
    let mut forged = accounts(a, mint, a, true);
    forged.master_edition_account = address(66);

    let outcome = pixel_fox(&mut ledger, &forged);
    assert_eq!(outcome, Err(IssuanceError::LocationMismatch));
    assert_eq!(outcome.unwrap_err().class(), ErrorClass::IntegrityCheckFailure);

    assert_eq!(ledger.asset(&mint), None);
    assert_eq!(ledger.holding(&mint, &a), None);
    assert_eq!(ledger.descriptor(&forged.metadata_account), None);
    assert_eq!(ledger.marker(&forged.master_edition_account), None);
    assert_eq!(ledger.funds_of(&a), 25);

    let honest = accounts(a, mint, a, true);
    assert_eq!(pixel_fox(&mut ledger, &honest), Ok(()));
    assert_eq!(ledger.funds_of(&a), 15);
}

#[test]
fn issuance_with_forged_descriptor_location_is_refused() {
    let a = address(1);
    let mint = address(2);
    let mut ledger = funded(0, &a, 0);
    let mut forged = accounts(a, mint, a, true);
    forged.metadata_account = location(&address(3), Purpose::Descriptor);

    assert_eq!(pixel_fox(&mut ledger, &forged), Err(IssuanceError::LocationMismatch));
    assert_eq!(ledger.asset(&mint), None);

    forged.include_descriptor = false;
    assert_eq!(pixel_fox(&mut ledger, &forged), Ok(()));
}

#[test]
fn issuance_without_funds_is_refused() {
    let a = address(1);
    let mint = address(2);
    let mut ledger = funded(10, &a, 9);
    let accounts = accounts(a, mint, a, true);

    let outcome = pixel_fox(&mut ledger, &accounts);
    assert_eq!(outcome, Err(IssuanceError::InsufficientFunds));
    assert_eq!(outcome.unwrap_err().class(), ErrorClass::ResourceExhaustion);
    assert_eq!(ledger.asset(&mint), None);
    assert_eq!(ledger.funds_of(&a), 9);

    let mut unfunded = Ledger::new(1);
    assert_eq!(pixel_fox(&mut unfunded, &accounts), Err(IssuanceError::InsufficientFunds));
}

#[test]
fn two_issuances_on_different_slots_are_independent() {
    let a = address(1);
    let b = address(3);
    let first = address(2);
    let second = address(4);
    let mut ledger = funded(10, &a, 10);
    ledger.fund(&b, 10);

    assert_eq!(pixel_fox(&mut ledger, &accounts(a, first, a, true)), Ok(()));
    assert_eq!(pixel_fox(&mut ledger, &accounts(b, second, a, true)), Ok(()));

    assert_eq!(ledger.quantity(&first, &a), 1);
    assert_eq!(ledger.quantity(&second, &a), 1);
    assert_eq!(ledger.asset(&first).expect("an asset").authority, a);
    assert_eq!(ledger.asset(&second).expect("an asset").authority, b);
    assert_eq!(
        ledger.descriptor(&location(&second, Purpose::Descriptor)).expect("a descriptor").identifier,
        second
    );
    assert_eq!(ledger.funds_of(&a), 0);
    assert_eq!(ledger.funds_of(&b), 0);
}

#[test]
fn bind_refuses_bound_slot_before_looking_at_funds() {
    let a = address(1);
    let poor = address(3);
    let slot = address(2);
    let mut ledger = funded(10, &a, 10);

    assert_eq!(ledger.bind(&AuthorizationContext { signer: a }, &slot), Ok(()));
    assert_eq!(
        ledger.asset(&slot),
        Some(AssetRecord { precision: 0, authority: a, freeze_authority: Some(a), supply: 0 })
    );
    assert_eq!(ledger.funds_of(&a), 0);
    assert_eq!(
        ledger.bind(&AuthorizationContext { signer: poor }, &slot),
        Err(IssuanceError::AlreadyBound)
    );
    assert_eq!(
        ledger.bind(&AuthorizationContext { signer: poor }, &address(4)),
        Err(IssuanceError::InsufficientFunds)
    );
    assert_eq!(ledger.asset(&address(4)), None);
}

#[test]
fn mint_unit_checks_identifier_then_authority_then_cap() {
    let a = address(1);
    let stranger = address(3);
    let slot = address(2);
    let mut ledger = Ledger::new(0);
    let ctx = AuthorizationContext { signer: a };

    let missing = ledger.mint_unit(&ctx, &slot, &a);
    assert_eq!(missing, Err(IssuanceError::IdentifierMissing { identifier: slot }));
    assert_eq!(missing.unwrap_err().class(), ErrorClass::PreconditionViolation);

    assert_eq!(ledger.bind(&ctx, &slot), Ok(()));
    let refused = ledger.mint_unit(&AuthorizationContext { signer: stranger }, &slot, &stranger);
    assert_eq!(refused, Err(IssuanceError::AuthorityMismatch));
    assert_eq!(refused.unwrap_err().class(), ErrorClass::AuthorizationFailure);
    assert_eq!(ledger.holding(&slot, &stranger), None);

    assert_eq!(ledger.holding(&slot, &stranger), None);
    assert_eq!(ledger.mint_unit(&ctx, &slot, &stranger), Ok(()));
    assert_eq!(
        ledger.holding(&slot, &stranger),
        Some(HoldingRecord { owner: stranger, identifier: slot, quantity: 1 })
    );
    assert_eq!(ledger.asset(&slot).expect("an asset").supply, 1);

    let capped = ledger.mint_unit(&ctx, &slot, &a);
    assert_eq!(capped, Err(IssuanceError::SupplyExceeded));
    assert_eq!(capped.unwrap_err().class(), ErrorClass::InvariantViolation);
    assert_eq!(
        ledger.mint_unit(&AuthorizationContext { signer: stranger }, &slot, &a),
        Err(IssuanceError::AuthorityMismatch)
    );
    assert_eq!(ledger.quantity(&slot, &stranger), 1);
    assert_eq!(ledger.quantity(&slot, &a), 0);
}

#[test]
fn descriptor_before_identifier_is_refused() {
    let a = address(1);
    let slot = address(2);
    let mut ledger = Ledger::new(0);
    let ctx = AuthorizationContext { signer: a };
    let at = location(&slot, Purpose::Descriptor);
    let payload = Descriptor::new("n".to_string(), "s".to_string(), "u".to_string());

    let outcome = ledger.attach_descriptor(&ctx, &slot, &at, payload);
    assert_eq!(outcome, Err(IssuanceError::IdentifierMissing { identifier: slot }));
    assert_eq!(outcome.unwrap_err().class(), ErrorClass::PreconditionViolation);
    assert_eq!(ledger.descriptor(&at), None);
}

#[test]
fn marker_before_descriptor_is_refused() {
    let a = address(1);
    let slot = address(2);
    let mut ledger = Ledger::new(0);
    let ctx = AuthorizationContext { signer: a };
    assert_eq!(ledger.bind(&ctx, &slot), Ok(()));
    assert_eq!(ledger.mint_unit(&ctx, &slot, &a), Ok(()));
    let descriptor = location(&slot, Purpose::Descriptor);
    let at = location(&slot, Purpose::Marker);

    let outcome = ledger.attach_uniqueness_marker(&ctx, &slot, &at, &descriptor);
    assert_eq!(outcome, Err(IssuanceError::DescriptorMissing));
    assert_eq!(outcome.unwrap_err().class(), ErrorClass::InvariantViolation);
    assert_eq!(ledger.marker(&at), None);

    let unbound = address(8);
    assert_eq!(
        ledger.attach_uniqueness_marker(
            &ctx,
            &unbound,
            &location(&unbound, Purpose::Marker),
            &location(&unbound, Purpose::Descriptor),
        ),
        Err(IssuanceError::DescriptorMissing)
    );
}

#[test]
fn forged_descriptor_location_is_refused_whatever_the_payload() {
    let a = address(1);
    let slot = address(2);
    let mut ledger = Ledger::new(0);
    let ctx = AuthorizationContext { signer: a };
    assert_eq!(ledger.bind(&ctx, &slot), Ok(()));

    let forged = [
        address(77),
        slot,
        location(&slot, Purpose::Marker),
        location(&address(3), Purpose::Descriptor),
    ];
    for at in forged.iter() {
        let plain = Descriptor::new("n".to_string(), "s".to_string(), "u".to_string());
        assert_eq!(
            ledger.attach_descriptor(&ctx, &slot, at, plain),
            Err(IssuanceError::LocationMismatch)
        );
        let mut rich = Descriptor::new(String::new(), String::new(), String::new());
        rich.fee_rate = 500;
        rich.creators = Some(vec![a]);
        assert_eq!(
            ledger.attach_descriptor(&ctx, &slot, at, rich),
            Err(IssuanceError::LocationMismatch)
        );
        assert_eq!(ledger.descriptor(at), None);
    }
    let unbound = address(9);
    let outcome = ledger.attach_descriptor(
        &ctx,
        &unbound,
        &address(77),
        Descriptor::new("n".to_string(), "s".to_string(), "u".to_string()),
    );
    assert_eq!(outcome, Err(IssuanceError::LocationMismatch));
    assert_eq!(outcome.unwrap_err().class(), ErrorClass::IntegrityCheckFailure);
}

#[test]
fn forged_marker_location_is_refused() {
    let a = address(1);
    let slot = address(2);
    let mut ledger = Ledger::new(0);
    let ctx = AuthorizationContext { signer: a };
    assert_eq!(ledger.bind(&ctx, &slot), Ok(()));
    assert_eq!(ledger.mint_unit(&ctx, &slot, &a), Ok(()));
    let descriptor = location(&slot, Purpose::Descriptor);
    let at = location(&slot, Purpose::Marker);
    assert_eq!(
        ledger.attach_descriptor(
            &ctx,
            &slot,
            &descriptor,
            Descriptor::new("n".to_string(), "s".to_string(), "u".to_string()),
        ),
        Ok(())
    );

    assert_eq!(
        ledger.attach_uniqueness_marker(&ctx, &slot, &descriptor, &descriptor),
        Err(IssuanceError::LocationMismatch)
    );
    assert_eq!(
        ledger.attach_uniqueness_marker(&ctx, &slot, &address(50), &descriptor),
        Err(IssuanceError::LocationMismatch)
    );
    assert_eq!(
        ledger.attach_uniqueness_marker(&ctx, &slot, &at, &address(50)),
        Err(IssuanceError::LocationMismatch)
    );
    assert_eq!(ledger.marker(&at), None);
    assert_eq!(ledger.marker(&address(50)), None);

    assert_eq!(ledger.attach_uniqueness_marker(&ctx, &slot, &at, &descriptor), Ok(()));
    assert_eq!(
        ledger.marker(&at),
        Some(UniquenessMarker { identifier: slot, descriptor })
    );
}

#[test]
fn records_are_attached_once_and_by_the_authority() {
    let a = address(1);
    let stranger = address(3);
    let slot = address(2);
    let mut ledger = Ledger::new(0);
    let ctx = AuthorizationContext { signer: a };
    let other = AuthorizationContext { signer: stranger };
    assert_eq!(ledger.bind(&ctx, &slot), Ok(()));
    assert_eq!(ledger.mint_unit(&ctx, &slot, &a), Ok(()));
    let descriptor = location(&slot, Purpose::Descriptor);
    let at = location(&slot, Purpose::Marker);
    let payload = || Descriptor::new("first".to_string(), "F".to_string(), "u".to_string());

    assert_eq!(
        ledger.attach_descriptor(&other, &slot, &descriptor, payload()),
        Err(IssuanceError::AuthorityMismatch)
    );
    assert_eq!(ledger.descriptor(&descriptor), None);
    assert_eq!(ledger.attach_descriptor(&ctx, &slot, &descriptor, payload()), Ok(()));
    let again = ledger.attach_descriptor(
        &ctx,
        &slot,
        &descriptor,
        Descriptor::new("second".to_string(), "S".to_string(), "v".to_string()),
    );
    assert_eq!(again, Err(IssuanceError::AlreadyAttached));
    assert_eq!(again.unwrap_err().class(), ErrorClass::PreconditionViolation);
    assert_eq!(ledger.descriptor(&descriptor).expect("a descriptor").payload.name, "first");

    assert_eq!(
        ledger.attach_uniqueness_marker(&other, &slot, &at, &descriptor),
        Err(IssuanceError::AuthorityMismatch)
    );
    assert_eq!(ledger.attach_uniqueness_marker(&ctx, &slot, &at, &descriptor), Ok(()));
    assert_eq!(
        ledger.attach_uniqueness_marker(&ctx, &slot, &at, &descriptor),
        Err(IssuanceError::AlreadyAttached)
    );
}

#[test]
fn every_error_has_its_class() {
    assert_eq!(IssuanceError::AlreadyBound.class(), ErrorClass::PreconditionViolation);
    assert_eq!(IssuanceError::AlreadyAttached.class(), ErrorClass::PreconditionViolation);
    assert_eq!(
        IssuanceError::IdentifierMissing { identifier: address(1) }.class(),
        ErrorClass::PreconditionViolation
    );
    assert_eq!(IssuanceError::AuthorityMismatch.class(), ErrorClass::AuthorizationFailure);
    assert_eq!(IssuanceError::InsufficientFunds.class(), ErrorClass::ResourceExhaustion);
    assert_eq!(IssuanceError::SupplyExceeded.class(), ErrorClass::InvariantViolation);
    assert_eq!(IssuanceError::DescriptorMissing.class(), ErrorClass::InvariantViolation);
    assert_eq!(IssuanceError::LocationMismatch.class(), ErrorClass::IntegrityCheckFailure);
}

#[test]
fn is_derived_accepts_the_derived_location_only() {
    let slot = address(2);
    let descriptor = location(&slot, Purpose::Descriptor);
    let marker = location(&slot, Purpose::Marker);
    assert!(is_derived(&slot, Purpose::Descriptor, &descriptor));
    assert!(is_derived(&slot, Purpose::Marker, &marker));
    assert!(!is_derived(&slot, Purpose::Descriptor, &marker));
    assert!(!is_derived(&slot, Purpose::Marker, &descriptor));
    assert!(!is_derived(&slot, Purpose::Descriptor, &slot));
    assert!(!is_derived(&address(3), Purpose::Descriptor, &descriptor));
}

#[test]
fn snapshot_is_a_ledger_of_its_own() {
    let a = address(1);
    let slot = address(2);
    let mut ledger = funded(4, &a, 9);
    let saved = ledger.snapshot();
    assert_eq!(pixel_fox(&mut ledger, &accounts(a, slot, a, true)), Ok(()));

    assert_eq!(saved.storage_cost(), 4);
    assert_eq!(saved.funds_of(&a), 9);
    assert_eq!(saved.asset(&slot), None);
    assert_eq!(ledger.funds_of(&a), 5);

    let copy = ledger.snapshot();
    assert_eq!(copy.asset(&slot), ledger.asset(&slot));
    assert_eq!(copy.quantity(&slot, &a), 1);
    assert_eq!(
        copy.descriptor(&location(&slot, Purpose::Descriptor)),
        ledger.descriptor(&location(&slot, Purpose::Descriptor))
    );
    assert_eq!(
        copy.marker(&location(&slot, Purpose::Marker)),
        ledger.marker(&location(&slot, Purpose::Marker))
    );
}
