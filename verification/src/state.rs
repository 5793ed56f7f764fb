//! The ledger as a mathematical state, and what each step does to it.
use vstd::prelude::*;
use crate::address::{derived_location, Address, Purpose};
use crate::error::IssuanceError;
use crate::records::{AssetState, DescriptorState, DescriptorView, MarkerState};

verus! {

/// Everything the ledger holds, keyed by the bytes of identities, identifiers
/// and locations.
pub struct LedgerState {
    /// What binding one identifier costs its payer.
    pub storage_cost: u64,
    pub funds: Map<Seq<u8>, u64>,
    pub assets: Map<Seq<u8>, AssetState>,
    /// Quantities by identifier and owner.
    pub holdings: Map<(Seq<u8>, Seq<u8>), u64>,
    /// Descriptors by location.
    pub descriptors: Map<Seq<u8>, DescriptorState>,
    /// Markers by location.
    pub markers: Map<Seq<u8>, MarkerState>,
}

impl LedgerState {
    /// A ledger without records.
    pub open spec fn empty(storage_cost: u64) -> LedgerState {
        LedgerState {
            storage_cost,
            funds: Map::empty(),
            assets: Map::empty(),
            holdings: Map::empty(),
            descriptors: Map::empty(),
            markers: Map::empty(),
        }
    }

    /// What `who` can spend; nothing where no funds are recorded.
    pub open spec fn funds_of(self, who: Seq<u8>) -> u64 {
        if self.funds.contains_key(who) {
            self.funds[who]
        } else {
            0
        }
    }

    /// What `owner` holds of `identifier`; nothing where no holding is recorded.
    pub open spec fn quantity(self, identifier: Seq<u8>, owner: Seq<u8>) -> u64 {
        if self.holdings.contains_key((identifier, owner)) {
            self.holdings[(identifier, owner)]
        } else {
            0
        }
    }

    /// Every asset is indivisible and has at most one unit outstanding.
    pub open spec fn assets_capped(self) -> bool {
        forall|id: Seq<u8>| #[trigger]
            self.assets.contains_key(id) ==> self.assets[id].precision == 0
                && self.assets[id].supply <= 1
    }

    /// Holdings are of bound identifiers, none exceeds the supply, and at most
    /// one owner holds anything of an identifier.
    pub open spec fn holdings_backed(self) -> bool {
        &&& forall|id: Seq<u8>, owner: Seq<u8>| #[trigger]
            self.holdings.contains_key((id, owner)) ==> self.assets.contains_key(id)
                && self.holdings[(id, owner)] <= self.assets[id].supply
        &&& forall|id: Seq<u8>, a: Seq<u8>, b: Seq<u8>|
            #[trigger] self.holdings.contains_key((id, a)) && #[trigger] self.holdings.contains_key(
                (id, b),
            ) && self.holdings[(id, a)] > 0 && self.holdings[(id, b)] > 0 ==> a == b
    }

    /// Whether some owner holds the one unit of `id`.
    pub open spec fn held(self, id: Seq<u8>) -> bool {
        exists|owner: Seq<u8>| #[trigger]
            self.holdings.contains_key((id, owner)) && self.holdings[(id, owner)] == 1
    }

    /// Every unit outstanding is held by someone.
    pub open spec fn supply_held(self) -> bool {
        forall|id: Seq<u8>| #[trigger]
            self.assets.contains_key(id) && self.assets[id].supply == 1 ==> self.held(id)
    }

    /// Every descriptor stands at the location derived from its identifier,
    /// and that identifier is bound.
    pub open spec fn descriptors_placed(self) -> bool {
        forall|location: Seq<u8>| #[trigger]
            self.descriptors.contains_key(location) ==> derived_location(
                self.descriptors[location].identifier,
                Purpose::Descriptor,
            ) == Some(location) && self.assets.contains_key(self.descriptors[location].identifier)
    }

    /// Every marker stands at the location derived from its identifier and
    /// names that identifier's descriptor, which exists.
    pub open spec fn markers_placed(self) -> bool {
        forall|location: Seq<u8>| #[trigger]
            self.markers.contains_key(location) ==> {
                let marker = self.markers[location];
                &&& derived_location(marker.identifier, Purpose::Marker) == Some(location)
                &&& derived_location(marker.identifier, Purpose::Descriptor) == Some(
                    marker.descriptor,
                )
                &&& self.descriptors.contains_key(marker.descriptor)
                &&& self.descriptors[marker.descriptor].identifier == marker.identifier
            }
    }

    /// What holds of every ledger that the steps below have made.
    pub open spec fn consistent(self) -> bool {
        &&& self.assets_capped()
        &&& self.holdings_backed()
        &&& self.supply_held()
        &&& self.descriptors_placed()
        &&& self.markers_placed()
    }

    /// Sets what `who` can spend.
    pub open spec fn fund(self, who: Seq<u8>, amount: u64) -> LedgerState {
        LedgerState { funds: self.funds.insert(who, amount), ..self }
    }

    /// Registry binding: `slot` becomes an identifier of precision zero with
    /// `signer` as issuing and freeze authority, and `signer` pays for it.
    pub open spec fn bind(self, signer: Address, slot: Address) -> Result<
        LedgerState,
        IssuanceError,
    > {
        if self.assets.contains_key(slot@) {
            Err(IssuanceError::AlreadyBound)
        } else if self.funds_of(signer@) < self.storage_cost {
            Err(IssuanceError::InsufficientFunds)
        } else {
            Ok(
                LedgerState {
                    funds: self.funds.insert(
                        signer@,
                        (self.funds_of(signer@) - self.storage_cost) as u64,
                    ),
                    assets: self.assets.insert(
                        slot@,
                        AssetState {
                            precision: 0,
                            authority: signer@,
                            freeze_authority: Some(signer@),
                            supply: 0,
                        },
                    ),
                    ..self
                },
            )
        }
    }

    /// Unit mint: one more unit of `identifier` for `owner`, whose holding is
    /// made if there is none.
    pub open spec fn mint_unit(self, signer: Address, identifier: Address, owner: Address) -> Result<
        LedgerState,
        IssuanceError,
    > {
        if !self.assets.contains_key(identifier@) {
            Err(IssuanceError::IdentifierMissing { identifier })
        } else if self.assets[identifier@].authority != signer@ {
            Err(IssuanceError::AuthorityMismatch)
        } else if self.assets[identifier@].supply >= 1 {
            Err(IssuanceError::SupplyExceeded)
        } else {
            Ok(
                LedgerState {
                    assets: self.assets.insert(
                        identifier@,
                        AssetState {
                            supply: (self.assets[identifier@].supply + 1) as u64,
                            ..self.assets[identifier@]
                        },
                    ),
                    holdings: self.holdings.insert(
                        (identifier@, owner@),
                        (self.quantity(identifier@, owner@) + 1) as u64,
                    ),
                    ..self
                },
            )
        }
    }

    /// Descriptor attachment: `payload` is stored for `identifier` at
    /// `location`, which must be the derived one.
    pub open spec fn attach_descriptor(
        self,
        signer: Address,
        identifier: Address,
        location: Address,
        payload: DescriptorView,
    ) -> Result<LedgerState, IssuanceError> {
        if derived_location(identifier@, Purpose::Descriptor) != Some(location@) {
            Err(IssuanceError::LocationMismatch)
        } else if !self.assets.contains_key(identifier@) {
            Err(IssuanceError::IdentifierMissing { identifier })
        } else if self.assets[identifier@].authority != signer@ {
            Err(IssuanceError::AuthorityMismatch)
        } else if self.descriptors.contains_key(location@) {
            Err(IssuanceError::AlreadyAttached)
        } else {
            Ok(
                LedgerState {
                    descriptors: self.descriptors.insert(
                        location@,
                        DescriptorState {
                            identifier: identifier@,
                            update_authority: signer@,
                            payload,
                        },
                    ),
                    ..self
                },
            )
        }
    }

    /// Whether the descriptor of `identifier` stands at `location`.
    pub open spec fn describes(self, location: Seq<u8>, identifier: Seq<u8>) -> bool {
        self.descriptors.contains_key(location) && self.descriptors[location].identifier
            == identifier
    }

    /// Marker creation: the marker of `identifier` is stored at `location`,
    /// bound to the descriptor at `descriptor`; both must be the derived
    /// locations, and the descriptor must be there.
    pub open spec fn attach_uniqueness_marker(
        self,
        signer: Address,
        identifier: Address,
        location: Address,
        descriptor: Address,
    ) -> Result<LedgerState, IssuanceError> {
        if derived_location(identifier@, Purpose::Marker) != Some(location@) || derived_location(
            identifier@,
            Purpose::Descriptor,
        ) != Some(descriptor@) {
            Err(IssuanceError::LocationMismatch)
        } else if !self.describes(descriptor@, identifier@) {
            Err(IssuanceError::DescriptorMissing)
        } else if !self.assets.contains_key(identifier@) {
            Err(IssuanceError::IdentifierMissing { identifier })
        } else if self.assets[identifier@].authority != signer@ {
            Err(IssuanceError::AuthorityMismatch)
        } else if self.markers.contains_key(location@) {
            Err(IssuanceError::AlreadyAttached)
        } else {
            Ok(
                LedgerState {
                    markers: self.markers.insert(
                        location@,
                        MarkerState { identifier: identifier@, descriptor: descriptor@ },
                    ),
                    ..self
                },
            )
        }
    }

    proof fn lemma_held_kept(self, next: LedgerState, id: Seq<u8>)
        requires
            self.held(id),
            next.holdings == self.holdings,
        ensures
            next.held(id),
    {
        let owner = choose|owner: Seq<u8>| #[trigger]
            self.holdings.contains_key((id, owner)) && self.holdings[(id, owner)] == 1;
        assert(next.holdings.contains_key((id, owner)));
    }

    /// Setting funds keeps a ledger consistent.
    pub proof fn lemma_fund_consistent(self, who: Seq<u8>, amount: u64)
        requires
            self.consistent(),
        ensures
            self.fund(who, amount).consistent(),
    {
        let next = self.fund(who, amount);
        assert forall|id: Seq<u8>| #[trigger]
            next.assets.contains_key(id) && next.assets[id].supply == 1 implies next.held(id) by {
            self.lemma_held_kept(next, id);
        }
    }

    /// Binding keeps a ledger consistent.
    pub proof fn lemma_bind_consistent(self, signer: Address, slot: Address)
        requires
            self.consistent(),
        ensures
            self.bind(signer, slot) matches Ok(next) ==> next.consistent(),
    {
        if let Ok(next) = self.bind(signer, slot) {
            assert(next.holdings_backed());
            assert forall|id: Seq<u8>| #[trigger]
                next.assets.contains_key(id) && next.assets[id].supply == 1 implies next.held(
                id,
            ) by {
                assert(self.assets.contains_key(id));
                self.lemma_held_kept(next, id);
            }
            assert(next.descriptors_placed());
        }
    }

    /// A unit mint keeps a ledger consistent, and the holding that it fills
    /// holds exactly the one unit.
    pub proof fn lemma_mint_unit_consistent(self, signer: Address, identifier: Address, owner: Address)
        requires
            self.consistent(),
        ensures
            self.mint_unit(signer, identifier, owner) matches Ok(next) ==> {
                &&& next.consistent()
                &&& self.quantity(identifier@, owner@) == 0
                &&& next.assets[identifier@].supply == 1
                &&& next.holdings[(identifier@, owner@)] == 1
                &&& forall|other: Seq<u8>|
                    other != owner@ ==> next.quantity(identifier@, other) == 0
            },
    {
        if let Ok(next) = self.mint_unit(signer, identifier, owner) {
            let id = identifier@;
            assert(self.assets.contains_key(id));
            assert(self.assets[id].supply == 0);
            assert forall|other: Seq<u8>| self.quantity(id, other) == 0 by {
                if self.holdings.contains_key((id, other)) {
                    assert(self.holdings[(id, other)] <= self.assets[id].supply);
                }
            }
            assert(next.assets_capped());
            assert(next.holdings_backed()) by {
                assert forall|i: Seq<u8>, o: Seq<u8>| #[trigger]
                    next.holdings.contains_key((i, o)) implies next.assets.contains_key(i)
                    && next.holdings[(i, o)] <= next.assets[i].supply by {
                    if (i, o) != (id, owner@) {
                        assert(self.holdings.contains_key((i, o)));
                    }
                }
                assert forall|i: Seq<u8>, a: Seq<u8>, b: Seq<u8>|
                    #[trigger] next.holdings.contains_key((i, a))
                        && #[trigger] next.holdings.contains_key((i, b)) && next.holdings[(i, a)]
                        > 0 && next.holdings[(i, b)] > 0 implies a == b by {
                    if i == id {
                        assert(self.quantity(id, a) == 0);
                        assert(self.quantity(id, b) == 0);
                    } else {
                        assert(self.holdings.contains_key((i, a)));
                        assert(self.holdings.contains_key((i, b)));
                    }
                }
            }
            assert forall|i: Seq<u8>| #[trigger]
                next.assets.contains_key(i) && next.assets[i].supply == 1 implies next.held(
                i,
            ) by {
                if i == id {
                    assert(next.holdings.contains_key((id, owner@)));
                } else {
                    assert(self.assets.contains_key(i));
                    assert(self.held(i));
                    let o = choose|o: Seq<u8>| #[trigger]
                        self.holdings.contains_key((i, o)) && self.holdings[(i, o)] == 1;
                    assert(next.holdings.contains_key((i, o)));
                }
            }
            assert(next.descriptors_placed());
            assert(next.markers_placed());
        }
    }

    /// Attaching a descriptor keeps a ledger consistent.
    pub proof fn lemma_attach_descriptor_consistent(
        self,
        signer: Address,
        identifier: Address,
        location: Address,
        payload: DescriptorView,
    )
        requires
            self.consistent(),
        ensures
            self.attach_descriptor(signer, identifier, location, payload) matches Ok(next)
                ==> next.consistent(),
    {
        if let Ok(next) = self.attach_descriptor(signer, identifier, location, payload) {
            assert forall|id: Seq<u8>| #[trigger]
                next.assets.contains_key(id) && next.assets[id].supply == 1 implies next.held(
                id,
            ) by {
                self.lemma_held_kept(next, id);
            }
            assert(next.descriptors_placed());
            assert(next.markers_placed()) by {
                assert forall|at: Seq<u8>| #[trigger] next.markers.contains_key(at) implies {
                    let marker = next.markers[at];
                    &&& derived_location(marker.identifier, Purpose::Marker) == Some(at)
                    &&& derived_location(marker.identifier, Purpose::Descriptor) == Some(
                        marker.descriptor,
                    )
                    &&& next.descriptors.contains_key(marker.descriptor)
                    &&& next.descriptors[marker.descriptor].identifier == marker.identifier
                } by {
                    assert(self.markers.contains_key(at));
                    assert(self.descriptors.contains_key(self.markers[at].descriptor));
                }
            }
        }
    }

    /// Creating a marker keeps a ledger consistent.
    pub proof fn lemma_attach_uniqueness_marker_consistent(
        self,
        signer: Address,
        identifier: Address,
        location: Address,
        descriptor: Address,
    )
        requires
            self.consistent(),
        ensures
            self.attach_uniqueness_marker(signer, identifier, location, descriptor) matches Ok(
                next,
            ) ==> next.consistent(),
    {
        if let Ok(next) = self.attach_uniqueness_marker(signer, identifier, location, descriptor) {
            assert forall|id: Seq<u8>| #[trigger]
                next.assets.contains_key(id) && next.assets[id].supply == 1 implies next.held(
                id,
            ) by {
                self.lemma_held_kept(next, id);
            }
            assert(next.markers_placed()) by {
                assert forall|at: Seq<u8>| #[trigger] next.markers.contains_key(at) implies {
                    let marker = next.markers[at];
                    &&& derived_location(marker.identifier, Purpose::Marker) == Some(at)
                    &&& derived_location(marker.identifier, Purpose::Descriptor) == Some(
                        marker.descriptor,
                    )
                    &&& next.descriptors.contains_key(marker.descriptor)
                    &&& next.descriptors[marker.descriptor].identifier == marker.identifier
                } by {
                    if at != location@ {
                        assert(self.markers.contains_key(at));
                    }
                }
            }
        }
    }
}

} // verus!
