//! Thirty-two byte addresses and the locations derived from them.
use vstd::prelude::*;
use anchor_lang::prelude::Pubkey;
use crate::table::{Key, Stored};

verus! {

/// An identity, an asset identifier or a storage location: thirty-two bytes.
#[derive(Clone, Copy, Debug, PartialEq, Eq, Hash)]
pub struct Address {
    pub bytes: [u8; 32],
}

impl View for Address {
    type V = Seq<u8>;

    open spec fn view(&self) -> Seq<u8> {
        self.bytes@
    }
}

impl Address {
    pub fn new(bytes: [u8; 32]) -> (address: Address)
        ensures
            address@ == bytes@,
    {
        Address { bytes }
    }
}

impl Stored for Address {
    fn duplicate(&self) -> (copy: Address) {
        *self
    }
}

impl Key for Address {
    fn same(&self, other: &Address) -> (equal: bool) {
        let mut i: usize = 0;
        while i < 32
            invariant
                i <= 32,
                forall|j: int| 0 <= j < i ==> self.bytes@[j] == other.bytes@[j],
            decreases 32 - i,
        {
            if self.bytes[i] != other.bytes[i] {
                return false;
            }
            i += 1;
        }
        assert(self@ =~= other@);
        true
    }
}

/// What a derived location is for.
#[derive(Clone, Copy, Debug, PartialEq, Eq)]
pub enum Purpose {
    /// The location of an asset's descriptor.
    Descriptor,
    /// The location of an asset's uniqueness marker.
    Marker,
}

/// The address that `Pubkey::try_find_program_address` finds for the given
/// seeds under the given program, if it finds one.
pub uninterp spec fn program_address(seeds: Seq<Seq<u8>>, program: Seq<u8>) -> Option<Seq<u8>>;

/// The seeds as plain byte sequences.
pub open spec fn seeds_view(seeds: Seq<Vec<u8>>) -> Seq<Seq<u8>> {
    Seq::new(seeds.len(), |i: int| seeds[i]@)
}

/// Calls `Pubkey::try_find_program_address` of solana_program, as anchor_lang
/// hands it on, and keeps the address without its bump seed. The search reads
/// the seeds and the program alone. It gives no address where a seed is longer
/// than 32 bytes, where there are more than 15 seeds, or where no bump seed
/// leads off the curve.
#[verifier::external_body]
pub(crate) fn find_program_address(seeds: &Vec<Vec<u8>>, program: &[u8; 32]) -> (found: Option<[u8; 32]>)
    ensures
        match found {
            Some(bytes) => program_address(seeds_view(seeds@), program@) == Some(bytes@),
            None => program_address(seeds_view(seeds@), program@) is None,
        },
{
    let parts: Vec<&[u8]> = seeds.iter().map(|seed| seed.as_slice()).collect();
    match Pubkey::try_find_program_address(&parts, &Pubkey::new_from_array(*program)) {
        Some((key, _)) => Some(key.to_bytes()),
        None => None,
    }
}

/// The token metadata program, under which descriptors and markers are
/// stored: the bytes of `metaqbxxUerdq28cj1RbAWkYQm3ybzjb6a8bt518x1s`.
pub open spec fn descriptor_program() -> Seq<u8> {
    seq![
        11u8, 112u8, 101u8, 177u8, 227u8, 209u8, 124u8, 69u8, 56u8, 157u8, 82u8, 127u8, 107u8,
        4u8, 195u8, 205u8, 88u8, 184u8, 108u8, 115u8, 26u8, 160u8, 253u8, 181u8, 73u8, 182u8,
        209u8, 188u8, 3u8, 248u8, 41u8, 70u8,
    ]
}

/// The bytes of the tag `metadata`, which opens every seed list.
pub open spec fn descriptor_tag() -> Seq<u8> {
    seq![109u8, 101u8, 116u8, 97u8, 100u8, 97u8, 116u8, 97u8]
}

/// The bytes of the tag `edition`, which closes a marker's seed list.
pub open spec fn marker_tag() -> Seq<u8> {
    seq![101u8, 100u8, 105u8, 116u8, 105u8, 111u8, 110u8]
}

/// The seeds from which the location for `purpose` is derived.
pub open spec fn location_seeds(identifier: Seq<u8>, purpose: Purpose) -> Seq<Seq<u8>> {
    match purpose {
        Purpose::Descriptor => seq![descriptor_tag(), descriptor_program(), identifier],
        Purpose::Marker => seq![descriptor_tag(), descriptor_program(), identifier, marker_tag()],
    }
}

/// The one location at which the record for `purpose` of `identifier` may be
/// stored, if there is one.
pub open spec fn derived_location(identifier: Seq<u8>, purpose: Purpose) -> Option<Seq<u8>> {
    program_address(location_seeds(identifier, purpose), descriptor_program())
}

fn program_bytes() -> (program: [u8; 32])
    ensures
        program@ == descriptor_program(),
{
    let program: [u8; 32] = [
        11, 112, 101, 177, 227, 209, 124, 69, 56, 157, 82, 127, 107, 4, 195, 205, 88, 184, 108,
        115, 26, 160, 253, 181, 73, 182, 209, 188, 3, 248, 41, 70,
    ];
    assert(program@ =~= descriptor_program());
    program
}

fn to_seed(bytes: &[u8; 32]) -> (seed: Vec<u8>)
    ensures
        seed@ == bytes@,
{
    let mut seed: Vec<u8> = Vec::new();
    let mut i: usize = 0;
    while i < 32
        invariant
            i <= 32,
            seed@ == bytes@.subrange(0, i as int),
        decreases 32 - i,
    {
        seed.push(bytes[i]);
        assert(seed@ =~= bytes@.subrange(0, i + 1));
        i += 1;
    }
    assert(seed@ =~= bytes@);
    seed
}

/// Derives the location for `purpose` of `identifier`. The result depends on
/// the two arguments alone; a caller never chooses it.
pub fn derive(identifier: &Address, purpose: Purpose) -> (location: Option<Address>)
    ensures
        match location {
            Some(address) => derived_location(identifier@, purpose) == Some(address@),
            None => derived_location(identifier@, purpose) is None,
        },
{
    let program = program_bytes();
    let tag: Vec<u8> = vec![109, 101, 116, 97, 100, 97, 116, 97];
    assert(tag@ =~= descriptor_tag());
    let mut seeds: Vec<Vec<u8>> = Vec::new();
    seeds.push(tag);
    seeds.push(to_seed(&program));
    seeds.push(to_seed(&identifier.bytes));
    match purpose {
        Purpose::Descriptor => {},
        Purpose::Marker => {
            let closing: Vec<u8> = vec![101, 100, 105, 116, 105, 111, 110];
            assert(closing@ =~= marker_tag());
            seeds.push(closing);
        },
    }
    assert(seeds_view(seeds@) =~= location_seeds(identifier@, purpose));
    match find_program_address(&seeds, &program) {
        Some(bytes) => Some(Address { bytes }),
        None => None,
    }
}

} // verus!
