//! The records that an issuance creates.
use vstd::prelude::*;
use crate::address::Address;
use crate::table::{Key, Stored};

verus! {

/// The addresses as plain byte sequences.
pub open spec fn addresses_view(addresses: Seq<Address>) -> Seq<Seq<u8>> {
    Seq::new(addresses.len(), |i: int| addresses[i]@)
}

/// What the registry holds of one identifier.
#[derive(Clone, Copy, Debug, PartialEq, Eq)]
pub struct AssetRecord {
    /// The number of decimal places: zero, the asset is indivisible.
    pub precision: u8,
    pub authority: Address,
    pub freeze_authority: Option<Address>,
    /// The units outstanding.
    pub supply: u64,
}

pub struct AssetState {
    pub precision: u8,
    pub authority: Seq<u8>,
    pub freeze_authority: Option<Seq<u8>>,
    pub supply: u64,
}

impl View for AssetRecord {
    type V = AssetState;

    open spec fn view(&self) -> AssetState {
        AssetState {
            precision: self.precision,
            authority: self.authority@,
            freeze_authority: match self.freeze_authority {
                Some(address) => Some(address@),
                None => None,
            },
            supply: self.supply,
        }
    }
}

impl Stored for AssetRecord {
    fn duplicate(&self) -> (copy: AssetRecord) {
        *self
    }
}

/// The pair under which a holding is kept.
#[derive(Clone, Copy, Debug, PartialEq, Eq)]
pub struct HoldingKey {
    pub identifier: Address,
    pub owner: Address,
}

impl View for HoldingKey {
    type V = (Seq<u8>, Seq<u8>);

    open spec fn view(&self) -> (Seq<u8>, Seq<u8>) {
        (self.identifier@, self.owner@)
    }
}

impl Stored for HoldingKey {
    fn duplicate(&self) -> (copy: HoldingKey) {
        *self
    }
}

impl Key for HoldingKey {
    fn same(&self, other: &HoldingKey) -> (equal: bool) {
        self.identifier.same(&other.identifier) && self.owner.same(&other.owner)
    }
}

/// How much of an identifier an owner holds.
#[derive(Clone, Copy, Debug, PartialEq, Eq)]
pub struct HoldingRecord {
    pub owner: Address,
    pub identifier: Address,
    pub quantity: u64,
}

/// A limit on how often an asset may be used.
#[derive(Clone, Copy, Debug, PartialEq, Eq)]
pub struct UsageConstraint {
    pub remaining: u64,
    pub total: u64,
}

/// The descriptive payload of an asset.
#[derive(Debug, PartialEq, Eq)]
pub struct Descriptor {
    pub name: String,
    pub symbol: String,
    pub uri: String,
    /// The secondary-fee rate, in hundredths of a percent.
    pub fee_rate: u16,
    pub creators: Option<Vec<Address>>,
    pub collection: Option<Address>,
    pub usage: Option<UsageConstraint>,
}

pub struct DescriptorView {
    pub name: Seq<char>,
    pub symbol: Seq<char>,
    pub uri: Seq<char>,
    pub fee_rate: u16,
    pub creators: Option<Seq<Seq<u8>>>,
    pub collection: Option<Seq<u8>>,
    pub usage: Option<UsageConstraint>,
}

impl DescriptorView {
    /// The payload that an issuance attaches: the three texts, no fee and
    /// nothing else.
    pub open spec fn plain(name: Seq<char>, symbol: Seq<char>, uri: Seq<char>) -> DescriptorView {
        DescriptorView {
            name,
            symbol,
            uri,
            fee_rate: 0,
            creators: None,
            collection: None,
            usage: None,
        }
    }
}

impl View for Descriptor {
    type V = DescriptorView;

    open spec fn view(&self) -> DescriptorView {
        DescriptorView {
            name: self.name@,
            symbol: self.symbol@,
            uri: self.uri@,
            fee_rate: self.fee_rate,
            creators: match self.creators {
                Some(list) => Some(addresses_view(list@)),
                None => None,
            },
            collection: match self.collection {
                Some(address) => Some(address@),
                None => None,
            },
            usage: self.usage,
        }
    }
}

impl Descriptor {
    /// A payload of three texts, with no fee, creators, collection or usage
    /// limit.
    pub fn new(name: String, symbol: String, uri: String) -> (descriptor: Descriptor)
        ensures
            descriptor@ == DescriptorView::plain(name@, symbol@, uri@),
    {
        Descriptor {
            name,
            symbol,
            uri,
            fee_rate: 0,
            creators: None,
            collection: None,
            usage: None,
        }
    }
}

fn duplicate_addresses(list: &Vec<Address>) -> (copy: Vec<Address>)
    ensures
        addresses_view(copy@) == addresses_view(list@),
{
    let mut copy: Vec<Address> = Vec::new();
    let mut i: usize = 0;
    while i < list.len()
        invariant
            i <= list.len(),
            copy@ == list@.subrange(0, i as int),
        decreases list.len() - i,
    {
        copy.push(list[i]);
        assert(copy@ =~= list@.subrange(0, i + 1));
        i += 1;
    }
    assert(copy@ =~= list@);
    copy
}

impl Stored for Descriptor {
    fn duplicate(&self) -> (copy: Descriptor) {
        let creators = match &self.creators {
            Some(list) => Some(duplicate_addresses(list)),
            None => None,
        };
        Descriptor {
            name: self.name.clone(),
            symbol: self.symbol.clone(),
            uri: self.uri.clone(),
            fee_rate: self.fee_rate,
            creators,
            collection: self.collection,
            usage: self.usage,
        }
    }
}

/// A descriptor as it is stored: bound to its identifier and to the authority
/// that attached it.
#[derive(Debug, PartialEq, Eq)]
pub struct DescriptorRecord {
    pub identifier: Address,
    pub update_authority: Address,
    pub payload: Descriptor,
}

pub struct DescriptorState {
    pub identifier: Seq<u8>,
    pub update_authority: Seq<u8>,
    pub payload: DescriptorView,
}

impl View for DescriptorRecord {
    type V = DescriptorState;

    open spec fn view(&self) -> DescriptorState {
        DescriptorState {
            identifier: self.identifier@,
            update_authority: self.update_authority@,
            payload: self.payload@,
        }
    }
}

impl Stored for DescriptorRecord {
    fn duplicate(&self) -> (copy: DescriptorRecord) {
        DescriptorRecord {
            identifier: self.identifier,
            update_authority: self.update_authority,
            payload: self.payload.duplicate(),
        }
    }
}

/// The record that caps an identifier's supply at one unit for good. It names
/// the identifier and the location of its descriptor.
#[derive(Clone, Copy, Debug, PartialEq, Eq)]
pub struct UniquenessMarker {
    pub identifier: Address,
    pub descriptor: Address,
}

pub struct MarkerState {
    pub identifier: Seq<u8>,
    pub descriptor: Seq<u8>,
}

impl View for UniquenessMarker {
    type V = MarkerState;

    open spec fn view(&self) -> MarkerState {
        MarkerState { identifier: self.identifier@, descriptor: self.descriptor@ }
    }
}

impl Stored for UniquenessMarker {
    fn duplicate(&self) -> (copy: UniquenessMarker) {
        *self
    }
}

} // verus!
