//! The ledger that holds the records, and the four steps of an issuance.
use vstd::prelude::*;
use crate::address::{derived_location, Address, Purpose};
use crate::error::IssuanceError;
use crate::records::{AssetRecord, Descriptor, DescriptorRecord, HoldingKey, HoldingRecord, UniquenessMarker};
use crate::state::LedgerState;
use crate::table::{Key, Stored, Table};

verus! {

/// Who signs for a step. Every step is handed one; none looks for a signer
/// anywhere else.
#[derive(Clone, Copy, Debug, PartialEq, Eq)]
pub struct AuthorizationContext {
    pub signer: Address,
}

/// The registry of identifiers, the balances, the descriptors and the markers.
pub struct Ledger {
    storage_cost: u64,
    funds: Table<Address, u64>,
    assets: Table<Address, AssetRecord>,
    holdings: Table<HoldingKey, u64>,
    descriptors: Table<Address, DescriptorRecord>,
    markers: Table<Address, UniquenessMarker>,
}

impl View for Ledger {
    type V = LedgerState;

    closed spec fn view(&self) -> LedgerState {
        LedgerState {
            storage_cost: self.storage_cost,
            funds: self.funds@,
            assets: self.assets@,
            holdings: self.holdings@,
            descriptors: self.descriptors@,
            markers: self.markers@,
        }
    }
}

impl Ledger {
    /// The ledger is well stored and its state is consistent.
    pub closed spec fn wf(&self) -> bool {
        &&& self.funds.wf()
        &&& self.assets.wf()
        &&& self.holdings.wf()
        &&& self.descriptors.wf()
        &&& self.markers.wf()
        &&& self@.consistent()
    }

    /// A well-formed ledger is in a consistent state.
    pub proof fn lemma_wf_consistent(&self)
        requires
            self.wf(),
        ensures
            self@.consistent(),
    {
    }

    /// A ledger without records, on which binding an identifier costs
    /// `storage_cost`.
    pub fn new(storage_cost: u64) -> (ledger: Ledger)
        ensures
            ledger.wf(),
            ledger@ == LedgerState::empty(storage_cost),
    {
        Ledger {
            storage_cost,
            funds: Table::new(),
            assets: Table::new(),
            holdings: Table::new(),
            descriptors: Table::new(),
            markers: Table::new(),
        }
    }

    /// A second ledger in the same state.
    pub fn snapshot(&self) -> (copy: Ledger)
        requires
            self.wf(),
        ensures
            copy.wf(),
            copy@ == self@,
    {
        Ledger {
            storage_cost: self.storage_cost,
            funds: self.funds.snapshot(),
            assets: self.assets.snapshot(),
            holdings: self.holdings.snapshot(),
            descriptors: self.descriptors.snapshot(),
            markers: self.markers.snapshot(),
        }
    }

    /// Sets what `who` can spend to `amount`.
    pub fn fund(&mut self, who: &Address, amount: u64)
        requires
            old(self).wf(),
        ensures
            final(self).wf(),
            final(self)@ == old(self)@.fund(who@, amount),
    {
        proof {
            self@.lemma_fund_consistent(who@, amount);
        }
        self.funds.put(*who, amount);
    }

    /// What binding one identifier costs.
    pub fn storage_cost(&self) -> (cost: u64)
        ensures
            cost == self@.storage_cost,
    {
        self.storage_cost
    }

    /// What `who` can spend.
    pub fn funds_of(&self, who: &Address) -> (amount: u64)
        requires
            self.wf(),
        ensures
            amount == self@.funds_of(who@),
    {
        match self.funds.get(who) {
            Some(amount) => *amount,
            None => 0,
        }
    }

    /// The registry's record of `identifier`, if it is bound.
    pub fn asset(&self, identifier: &Address) -> (found: Option<AssetRecord>)
        requires
            self.wf(),
        ensures
            match found {
                Some(record) => self@.assets.contains_key(identifier@) && self@.assets[identifier@]
                    == record@,
                None => !self@.assets.contains_key(identifier@),
            },
    {
        match self.assets.get(identifier) {
            Some(record) => Some(*record),
            None => None,
        }
    }

    /// What `owner` holds of `identifier`.
    pub fn quantity(&self, identifier: &Address, owner: &Address) -> (quantity: u64)
        requires
            self.wf(),
        ensures
            quantity == self@.quantity(identifier@, owner@),
    {
        let key = HoldingKey { identifier: *identifier, owner: *owner };
        match self.holdings.get(&key) {
            Some(quantity) => *quantity,
            None => 0,
        }
    }

    /// The holding of `owner` in `identifier`, if one was ever made.
    pub fn holding(&self, identifier: &Address, owner: &Address) -> (found: Option<HoldingRecord>)
        requires
            self.wf(),
        ensures
            match found {
                Some(record) => {
                    &&& self@.holdings.contains_key((identifier@, owner@))
                    &&& record.quantity == self@.holdings[(identifier@, owner@)]
                    &&& record.identifier == *identifier
                    &&& record.owner == *owner
                },
                None => !self@.holdings.contains_key((identifier@, owner@)),
            },
    {
        let key = HoldingKey { identifier: *identifier, owner: *owner };
        match self.holdings.get(&key) {
            Some(quantity) => Some(
                HoldingRecord { owner: *owner, identifier: *identifier, quantity: *quantity },
            ),
            None => None,
        }
    }

    /// The descriptor stored at `location`, if there is one.
    pub fn descriptor(&self, location: &Address) -> (found: Option<DescriptorRecord>)
        requires
            self.wf(),
        ensures
            match found {
                Some(record) => self@.descriptors.contains_key(location@)
                    && self@.descriptors[location@] == record@,
                None => !self@.descriptors.contains_key(location@),
            },
    {
        match self.descriptors.get(location) {
            Some(record) => Some(record.duplicate()),
            None => None,
        }
    }

    /// The marker stored at `location`, if there is one.
    pub fn marker(&self, location: &Address) -> (found: Option<UniquenessMarker>)
        requires
            self.wf(),
        ensures
            match found {
                Some(record) => self@.markers.contains_key(location@) && self@.markers[location@]
                    == record@,
                None => !self@.markers.contains_key(location@),
            },
    {
        match self.markers.get(location) {
            Some(record) => Some(*record),
            None => None,
        }
    }

    /// Registry binding. Makes `slot` an identifier of precision zero whose
    /// issuing and freeze authority is the signer, who pays the storage cost.
    /// Refuses a slot that is bound, then a signer who cannot pay; a refusal
    /// changes nothing.
    pub fn bind(&mut self, ctx: &AuthorizationContext, slot: &Address) -> (outcome: Result<
        (),
        IssuanceError,
    >)
        requires
            old(self).wf(),
        ensures
            final(self).wf(),
            match outcome {
                Ok(()) => old(self)@.bind(ctx.signer, *slot) == Ok::<LedgerState, IssuanceError>(
                    final(self)@,
                ),
                Err(error) => old(self)@.bind(ctx.signer, *slot) == Err::<
                    LedgerState,
                    IssuanceError,
                >(error) && final(self)@ == old(self)@,
            },
    {
        if self.assets.contains(slot) {
            return Err(IssuanceError::AlreadyBound);
        }
        let balance = self.funds_of(&ctx.signer);
        if balance < self.storage_cost {
            return Err(IssuanceError::InsufficientFunds);
        }
        proof {
            self@.lemma_bind_consistent(ctx.signer, *slot);
        }
        self.funds.put(ctx.signer, balance - self.storage_cost);
        self.assets.put(
            *slot,
            AssetRecord {
                precision: 0,
                authority: ctx.signer,
                freeze_authority: Some(ctx.signer),
                supply: 0,
            },
        );
        Ok(())
    }

    /// Unit mint. Finds the holding of `owner` in `identifier`, making it if
    /// there is none, and adds one unit to it. Refuses an identifier that is
    /// not bound, then a signer who is not its issuing authority, then a second
    /// unit; a refusal changes nothing.
    pub fn mint_unit(&mut self, ctx: &AuthorizationContext, identifier: &Address, owner: &Address) -> (outcome:
        Result<(), IssuanceError>)
        requires
            old(self).wf(),
        ensures
            final(self).wf(),
            match outcome {
                Ok(()) => old(self)@.mint_unit(ctx.signer, *identifier, *owner) == Ok::<
                    LedgerState,
                    IssuanceError,
                >(final(self)@),
                Err(error) => old(self)@.mint_unit(ctx.signer, *identifier, *owner) == Err::<
                    LedgerState,
                    IssuanceError,
                >(error) && final(self)@ == old(self)@,
            },
    {
        let record = match self.assets.get(identifier) {
            Some(record) => *record,
            None => {
                return Err(IssuanceError::IdentifierMissing { identifier: *identifier });
            },
        };
        if !record.authority.same(&ctx.signer) {
            return Err(IssuanceError::AuthorityMismatch);
        }
        if record.supply >= 1 {
            return Err(IssuanceError::SupplyExceeded);
        }
        proof {
            self@.lemma_mint_unit_consistent(ctx.signer, *identifier, *owner);
        }
        let held = self.quantity(identifier, owner);
        self.holdings.put(HoldingKey { identifier: *identifier, owner: *owner }, held + 1);
        self.assets.put(
            *identifier,
            AssetRecord {
                precision: record.precision,
                authority: record.authority,
                freeze_authority: record.freeze_authority,
                supply: record.supply + 1,
            },
        );
        Ok(())
    }

    /// Descriptor attachment. Derives the location anew and refuses a
    /// `location` that differs from it, before anything else is looked at;
    /// then an identifier that is not bound, a signer who is not its issuing
    /// authority, and a location that is taken. Else stores `payload` there,
    /// with the signer as update authority. A refusal changes nothing.
    pub fn attach_descriptor(
        &mut self,
        ctx: &AuthorizationContext,
        identifier: &Address,
        location: &Address,
        payload: Descriptor,
    ) -> (outcome: Result<(), IssuanceError>)
        requires
            old(self).wf(),
        ensures
            final(self).wf(),
            match outcome {
                Ok(()) => old(self)@.attach_descriptor(ctx.signer, *identifier, *location, payload@)
                    == Ok::<LedgerState, IssuanceError>(final(self)@),
                Err(error) => old(self)@.attach_descriptor(
                    ctx.signer,
                    *identifier,
                    *location,
                    payload@,
                ) == Err::<LedgerState, IssuanceError>(error) && final(self)@ == old(self)@,
            },
    {
        if !is_derived(identifier, Purpose::Descriptor, location) {
            return Err(IssuanceError::LocationMismatch);
        }
        let authority = match self.assets.get(identifier) {
            Some(record) => record.authority,
            None => {
                return Err(IssuanceError::IdentifierMissing { identifier: *identifier });
            },
        };
        if !authority.same(&ctx.signer) {
            return Err(IssuanceError::AuthorityMismatch);
        }
        if self.descriptors.contains(location) {
            return Err(IssuanceError::AlreadyAttached);
        }
        proof {
            self@.lemma_attach_descriptor_consistent(ctx.signer, *identifier, *location, payload@);
        }
        self.descriptors.put(
            *location,
            DescriptorRecord { identifier: *identifier, update_authority: ctx.signer, payload },
        );
        Ok(())
    }

    /// Marker creation. Derives both locations anew and refuses a `location`
    /// or a `descriptor` that differs, before anything else is looked at; then
    /// an identifier whose descriptor is not at `descriptor`, an identifier
    /// that is not bound, a signer who is not its issuing authority, and a
    /// location that is taken. Else stores the marker there, bound to the
    /// identifier and to its descriptor. A refusal changes nothing.
    pub fn attach_uniqueness_marker(
        &mut self,
        ctx: &AuthorizationContext,
        identifier: &Address,
        location: &Address,
        descriptor: &Address,
    ) -> (outcome: Result<(), IssuanceError>)
        requires
            old(self).wf(),
        ensures
            final(self).wf(),
            match outcome {
                Ok(()) => old(self)@.attach_uniqueness_marker(
                    ctx.signer,
                    *identifier,
                    *location,
                    *descriptor,
                ) == Ok::<LedgerState, IssuanceError>(final(self)@),
                Err(error) => old(self)@.attach_uniqueness_marker(
                    ctx.signer,
                    *identifier,
                    *location,
                    *descriptor,
                ) == Err::<LedgerState, IssuanceError>(error) && final(self)@ == old(self)@,
            },
    {
        if !is_derived(identifier, Purpose::Marker, location) {
            return Err(IssuanceError::LocationMismatch);
        }
        if !is_derived(identifier, Purpose::Descriptor, descriptor) {
            return Err(IssuanceError::LocationMismatch);
        }
        let described = match self.descriptors.get(descriptor) {
            Some(record) => record.identifier.same(identifier),
            None => false,
        };
        if !described {
            return Err(IssuanceError::DescriptorMissing);
        }
        let authority = match self.assets.get(identifier) {
            Some(record) => record.authority,
            None => {
                return Err(IssuanceError::IdentifierMissing { identifier: *identifier });
            },
        };
        if !authority.same(&ctx.signer) {
            return Err(IssuanceError::AuthorityMismatch);
        }
        if self.markers.contains(location) {
            return Err(IssuanceError::AlreadyAttached);
        }
        proof {
            self@.lemma_attach_uniqueness_marker_consistent(
                ctx.signer,
                *identifier,
                *location,
                *descriptor,
            );
        }
        self.markers.put(
            *location,
            UniquenessMarker { identifier: *identifier, descriptor: *descriptor },
        );
        Ok(())
    }
}

/// Whether `location` is the one derived for `purpose` of `identifier`. The
/// derivation is made here, from the identifier; nothing of `location` enters
/// it.
pub fn is_derived(identifier: &Address, purpose: Purpose, location: &Address) -> (matches: bool)
    ensures
        matches == (derived_location(identifier@, purpose) == Some(location@)),
{
    match crate::address::derive(identifier, purpose) {
        Some(expected) => expected.same(location),
        None => false,
    }
}

} // verus!
