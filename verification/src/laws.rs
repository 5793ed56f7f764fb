//! What holds of every issuance, stated over ledger states.
use vstd::prelude::*;
use crate::address::{derived_location, Address, Purpose};
use crate::error::{ErrorClass, IssuanceError};
use crate::issuance::{issuance, InitNFT};
use crate::records::{AssetState, DescriptorState, DescriptorView, MarkerState};
use crate::state::LedgerState;

verus! {

/// A successful issuance on a consistent ledger adds exactly one identifier,
/// the slot, which was not bound before: of precision zero, under the signer's
/// authority, with one unit outstanding. It adds exactly one holding of that
/// identifier, the owner's, of quantity one. With a descriptor asked for, it
/// adds the descriptor and the marker at their derived locations and nothing
/// else; without, it adds neither. Every record that was there stays as it
/// was, and the ledger stays consistent.
pub proof fn lemma_issuance_adds_one_asset(
    state: LedgerState,
    accounts: InitNFT,
    payload: DescriptorView,
)
    requires
        state.consistent(),
        issuance(state, accounts, payload) is Ok,
    ensures
        ({
            let next = issuance(state, accounts, payload)->Ok_0;
            let mint = accounts.mint@;
            &&& next.consistent()
            &&& !state.assets.contains_key(mint)
            &&& next.assets == state.assets.insert(
                mint,
                AssetState {
                    precision: 0,
                    authority: accounts.signer@,
                    freeze_authority: Some(accounts.signer@),
                    supply: 1,
                },
            )
            &&& forall|owner: Seq<u8>| !state.holdings.contains_key((mint, owner))
            &&& next.holdings == state.holdings.insert((mint, accounts.owner@), 1)
            &&& forall|owner: Seq<u8>|
                next.holdings.contains_key((mint, owner)) <==> owner == accounts.owner@
            &&& next.storage_cost == state.storage_cost
            &&& next.funds == state.funds.insert(
                accounts.signer@,
                (state.funds_of(accounts.signer@) - state.storage_cost) as u64,
            )
            &&& accounts.include_descriptor ==> {
                &&& derived_location(mint, Purpose::Descriptor) == Some(accounts.metadata_account@)
                &&& derived_location(mint, Purpose::Marker) == Some(
                    accounts.master_edition_account@,
                )
                &&& !state.descriptors.contains_key(accounts.metadata_account@)
                &&& !state.markers.contains_key(accounts.master_edition_account@)
                &&& next.descriptors == state.descriptors.insert(
                    accounts.metadata_account@,
                    DescriptorState {
                        identifier: mint,
                        update_authority: accounts.signer@,
                        payload,
                    },
                )
                &&& next.markers == state.markers.insert(
                    accounts.master_edition_account@,
                    MarkerState { identifier: mint, descriptor: accounts.metadata_account@ },
                )
            }
            &&& !accounts.include_descriptor ==> next.descriptors == state.descriptors
                && next.markers == state.markers
        }),
{
    let mint = accounts.mint@;
    let bound = state.bind(accounts.signer, accounts.mint)->Ok_0;
    state.lemma_bind_consistent(accounts.signer, accounts.mint);
    let minted = bound.mint_unit(accounts.signer, accounts.mint, accounts.owner)->Ok_0;
    bound.lemma_mint_unit_consistent(accounts.signer, accounts.mint, accounts.owner);
    assert forall|owner: Seq<u8>| !state.holdings.contains_key((mint, owner)) by {
        if state.holdings.contains_key((mint, owner)) {
            assert(state.assets.contains_key(mint));
        }
    }
    assert(bound.quantity(mint, accounts.owner@) == 0);
    assert(minted.assets =~= state.assets.insert(
        mint,
        AssetState {
            precision: 0,
            authority: accounts.signer@,
            freeze_authority: Some(accounts.signer@),
            supply: 1,
        },
    ));
    if accounts.include_descriptor {
        let described = minted.attach_descriptor(
            accounts.signer,
            accounts.mint,
            accounts.metadata_account,
            payload,
        )->Ok_0;
        minted.lemma_attach_descriptor_consistent(
            accounts.signer,
            accounts.mint,
            accounts.metadata_account,
            payload,
        );
        described.lemma_attach_uniqueness_marker_consistent(
            accounts.signer,
            accounts.mint,
            accounts.master_edition_account,
            accounts.metadata_account,
        );
    }
}

/// After a successful issuance, every further issuance on the same slot is
/// refused as a precondition violation, whoever signs and whatever else it
/// carries: the slot is bound.
pub proof fn lemma_reissue_refused(
    state: LedgerState,
    accounts: InitNFT,
    payload: DescriptorView,
    again: InitNFT,
    other: DescriptorView,
)
    requires
        issuance(state, accounts, payload) is Ok,
        again.mint@ == accounts.mint@,
    ensures
        issuance(issuance(state, accounts, payload)->Ok_0, again, other) == Err::<
            LedgerState,
            IssuanceError,
        >(IssuanceError::AlreadyBound),
        IssuanceError::AlreadyBound.class_of() == ErrorClass::PreconditionViolation,
{
}

/// After a successful issuance, a further unit of the same identifier is
/// refused to its authority, for whatever owner: the supply is capped at one.
pub proof fn lemma_second_unit_refused(
    state: LedgerState,
    accounts: InitNFT,
    payload: DescriptorView,
    owner: Address,
)
    requires
        issuance(state, accounts, payload) is Ok,
    ensures
        issuance(state, accounts, payload)->Ok_0.mint_unit(accounts.signer, accounts.mint, owner)
            == Err::<LedgerState, IssuanceError>(IssuanceError::SupplyExceeded),
        IssuanceError::SupplyExceeded.class_of() == ErrorClass::InvariantViolation,
{
}

/// Once a unit is minted, no signer obtains another of the same identifier.
pub proof fn lemma_mint_unit_once(
    state: LedgerState,
    signer: Address,
    identifier: Address,
    owner: Address,
    later_signer: Address,
    later_owner: Address,
)
    requires
        state.mint_unit(signer, identifier, owner) is Ok,
    ensures
        state.mint_unit(signer, identifier, owner)->Ok_0.mint_unit(
            later_signer,
            identifier,
            later_owner,
        ) is Err,
        later_signer@ == signer@ ==> state.mint_unit(signer, identifier, owner)->Ok_0.mint_unit(
            later_signer,
            identifier,
            later_owner,
        ) == Err::<LedgerState, IssuanceError>(IssuanceError::SupplyExceeded),
{
}

/// A descriptor offered at its derived location for an identifier that is not
/// bound is refused with the error that names that identifier.
pub proof fn lemma_descriptor_needs_identifier(
    state: LedgerState,
    signer: Address,
    identifier: Address,
    location: Address,
    payload: DescriptorView,
)
    requires
        !state.assets.contains_key(identifier@),
        derived_location(identifier@, Purpose::Descriptor) == Some(location@),
    ensures
        state.attach_descriptor(signer, identifier, location, payload) == Err::<
            LedgerState,
            IssuanceError,
        >(IssuanceError::IdentifierMissing { identifier }),
        (IssuanceError::IdentifierMissing { identifier }).class_of()
            == ErrorClass::PreconditionViolation,
{
}

/// A marker offered at its derived location while no descriptor stands at the
/// identifier's descriptor location is refused for want of the descriptor.
pub proof fn lemma_marker_needs_descriptor(
    state: LedgerState,
    signer: Address,
    identifier: Address,
    location: Address,
    descriptor: Address,
)
    requires
        derived_location(identifier@, Purpose::Marker) == Some(location@),
        derived_location(identifier@, Purpose::Descriptor) == Some(descriptor@),
        !state.descriptors.contains_key(descriptor@),
    ensures
        state.attach_uniqueness_marker(signer, identifier, location, descriptor) == Err::<
            LedgerState,
            IssuanceError,
        >(IssuanceError::DescriptorMissing),
        IssuanceError::DescriptorMissing.class_of() == ErrorClass::InvariantViolation,
{
}

/// A descriptor offered anywhere but at its derived location is refused as an
/// integrity failure, in every state, by every signer, with every payload.
pub proof fn lemma_forged_descriptor_location_refused(
    state: LedgerState,
    signer: Address,
    identifier: Address,
    location: Address,
    payload: DescriptorView,
)
    requires
        derived_location(identifier@, Purpose::Descriptor) != Some(location@),
    ensures
        state.attach_descriptor(signer, identifier, location, payload) == Err::<
            LedgerState,
            IssuanceError,
        >(IssuanceError::LocationMismatch),
        IssuanceError::LocationMismatch.class_of() == ErrorClass::IntegrityCheckFailure,
{
}

/// A marker offered anywhere but at its derived location, or bound to anything
/// but the derived descriptor location, is refused as an integrity failure, in
/// every state and by every signer.
pub proof fn lemma_forged_marker_location_refused(
    state: LedgerState,
    signer: Address,
    identifier: Address,
    location: Address,
    descriptor: Address,
)
    requires
        derived_location(identifier@, Purpose::Marker) != Some(location@) || derived_location(
            identifier@,
            Purpose::Descriptor,
        ) != Some(descriptor@),
    ensures
        state.attach_uniqueness_marker(signer, identifier, location, descriptor) == Err::<
            LedgerState,
            IssuanceError,
        >(IssuanceError::LocationMismatch),
        IssuanceError::LocationMismatch.class_of() == ErrorClass::IntegrityCheckFailure,
{
}

/// An issuance that asks for a descriptor and carries a forged descriptor or
/// marker location never succeeds. Where the descriptor location is the forged
/// one and the issuance would pass without a descriptor, it is refused as an
/// integrity failure.
pub proof fn lemma_forged_issuance_refused(
    state: LedgerState,
    accounts: InitNFT,
    payload: DescriptorView,
)
    requires
        accounts.include_descriptor,
        derived_location(accounts.mint@, Purpose::Descriptor) != Some(accounts.metadata_account@)
            || derived_location(accounts.mint@, Purpose::Marker) != Some(
            accounts.master_edition_account@,
        ),
    ensures
        issuance(state, accounts, payload) is Err,
        derived_location(accounts.mint@, Purpose::Descriptor) != Some(accounts.metadata_account@)
            && issuance(state, InitNFT { include_descriptor: false, ..accounts }, payload) is Ok
            ==> issuance(state, accounts, payload) == Err::<LedgerState, IssuanceError>(
            IssuanceError::LocationMismatch,
        ),
{
}

/// Whether every record of `before` stands in `after` as it was. Only the
/// supply of an asset and the quantity of a holding may differ, and only by
/// having grown.
pub open spec fn keeps_records(before: LedgerState, after: LedgerState) -> bool {
    &&& forall|id: Seq<u8>| #[trigger]
        before.assets.contains_key(id) ==> {
            &&& after.assets.contains_key(id)
            &&& after.assets[id].precision == before.assets[id].precision
            &&& after.assets[id].authority == before.assets[id].authority
            &&& after.assets[id].freeze_authority == before.assets[id].freeze_authority
            &&& after.assets[id].supply >= before.assets[id].supply
        }
    &&& forall|id: Seq<u8>, owner: Seq<u8>| #[trigger]
        before.holdings.contains_key((id, owner)) ==> after.holdings.contains_key((id, owner))
            && after.holdings[(id, owner)] >= before.holdings[(id, owner)]
    &&& forall|location: Seq<u8>| #[trigger]
        before.descriptors.contains_key(location) ==> after.descriptors.contains_key(location)
            && after.descriptors[location] == before.descriptors[location]
    &&& forall|location: Seq<u8>| #[trigger]
        before.markers.contains_key(location) ==> after.markers.contains_key(location)
            && after.markers[location] == before.markers[location]
}

/// No step touches a record that is there: on a consistent ledger each of the
/// four keeps all records.
pub proof fn lemma_steps_keep_records(
    state: LedgerState,
    signer: Address,
    identifier: Address,
    owner: Address,
    location: Address,
    descriptor: Address,
    payload: DescriptorView,
)
    requires
        state.consistent(),
    ensures
        state.bind(signer, identifier) matches Ok(next) ==> keeps_records(state, next),
        state.mint_unit(signer, identifier, owner) matches Ok(next) ==> keeps_records(state, next),
        state.attach_descriptor(signer, identifier, location, payload) matches Ok(next)
            ==> keeps_records(state, next),
        state.attach_uniqueness_marker(signer, identifier, location, descriptor) matches Ok(next)
            ==> keeps_records(state, next),
{
    state.lemma_mint_unit_consistent(signer, identifier, owner);
}

/// A successful issuance on a consistent ledger keeps all records that were
/// there.
pub proof fn lemma_issuance_keeps_records(
    state: LedgerState,
    accounts: InitNFT,
    payload: DescriptorView,
)
    requires
        state.consistent(),
        issuance(state, accounts, payload) is Ok,
    ensures
        keeps_records(state, issuance(state, accounts, payload)->Ok_0),
{
    lemma_issuance_adds_one_asset(state, accounts, payload);
}

} // verus!
