//! The issuance coordinator: one call, one new asset.
use vstd::prelude::*;
use crate::address::Address;
use crate::error::IssuanceError;
use crate::laws::lemma_issuance_adds_one_asset;
use crate::ledger::{AuthorizationContext, Ledger};
use crate::records::{Descriptor, DescriptorView};
use crate::state::LedgerState;

verus! {

/// The accounts of one issuance.
#[derive(Clone, Copy, Debug, PartialEq, Eq)]
pub struct InitNFT {
    /// Who signs and pays, and becomes issuing and freeze authority.
    pub signer: Address,
    /// The slot that becomes the new identifier.
    pub mint: Address,
    /// Who receives the one unit.
    pub owner: Address,
    /// Where the caller says the descriptor belongs.
    pub metadata_account: Address,
    /// Where the caller says the uniqueness marker belongs.
    pub master_edition_account: Address,
    /// Whether a descriptor and a marker are attached after the mint.
    pub include_descriptor: bool,
}

/// What an issuance makes of a ledger: binding, unit mint and, where asked
/// for, descriptor and marker, each on what the step before left. The first
/// refusal is the outcome.
pub open spec fn issuance(state: LedgerState, accounts: InitNFT, payload: DescriptorView) -> Result<
    LedgerState,
    IssuanceError,
> {
    match state.bind(accounts.signer, accounts.mint) {
        Err(error) => Err(error),
        Ok(bound) => match bound.mint_unit(accounts.signer, accounts.mint, accounts.owner) {
            Err(error) => Err(error),
            Ok(minted) => if !accounts.include_descriptor {
                Ok(minted)
            } else {
                match minted.attach_descriptor(
                    accounts.signer,
                    accounts.mint,
                    accounts.metadata_account,
                    payload,
                ) {
                    Err(error) => Err(error),
                    Ok(described) => described.attach_uniqueness_marker(
                        accounts.signer,
                        accounts.mint,
                        accounts.master_edition_account,
                        accounts.metadata_account,
                    ),
                }
            },
        },
    }
}

fn run_steps(ledger: &mut Ledger, accounts: &InitNFT, payload: Descriptor) -> (outcome: Result<
    (),
    IssuanceError,
>)
    requires
        old(ledger).wf(),
    ensures
        final(ledger).wf(),
        match outcome {
            Ok(()) => issuance(old(ledger)@, *accounts, payload@) == Ok::<
                LedgerState,
                IssuanceError,
            >(final(ledger)@),
            Err(error) => issuance(old(ledger)@, *accounts, payload@) == Err::<
                LedgerState,
                IssuanceError,
            >(error),
        },
{
    let ctx = AuthorizationContext { signer: accounts.signer };
    ledger.bind(&ctx, &accounts.mint)?;
    ledger.mint_unit(&ctx, &accounts.mint, &accounts.owner)?;
    if accounts.include_descriptor {
        ledger.attach_descriptor(&ctx, &accounts.mint, &accounts.metadata_account, payload)?;
        ledger.attach_uniqueness_marker(
            &ctx,
            &accounts.mint,
            &accounts.master_edition_account,
            &accounts.metadata_account,
        )?;
    }
    Ok(())
}

/// Issues one new asset: binds `accounts.mint`, mints its one unit to
/// `accounts.owner` and, where `accounts.include_descriptor` is set, attaches
/// the descriptor made of `name`, `symbol` and `uri` and then the uniqueness
/// marker. All of it happens or none: after a refusal the ledger is as it was.
pub fn init_nft(ledger: &mut Ledger, accounts: &InitNFT, name: String, symbol: String, uri: String) -> (outcome:
    Result<(), IssuanceError>)
    requires
        old(ledger).wf(),
    ensures
        final(ledger).wf(),
        match outcome {
            Ok(()) => issuance(
                old(ledger)@,
                *accounts,
                DescriptorView::plain(name@, symbol@, uri@),
            ) == Ok::<LedgerState, IssuanceError>(final(ledger)@),
            Err(error) => issuance(
                old(ledger)@,
                *accounts,
                DescriptorView::plain(name@, symbol@, uri@),
            ) == Err::<LedgerState, IssuanceError>(error) && final(ledger)@ == old(ledger)@,
        },
        outcome is Ok ==> {
            &&& !old(ledger)@.assets.contains_key(accounts.mint@)
            &&& final(ledger)@.assets.contains_key(accounts.mint@)
            &&& final(ledger)@.assets[accounts.mint@].precision == 0
            &&& final(ledger)@.assets[accounts.mint@].authority == accounts.signer@
            &&& final(ledger)@.assets[accounts.mint@].supply == 1
            &&& final(ledger)@.quantity(accounts.mint@, accounts.owner@) == 1
            &&& forall|owner: Seq<u8>|
                owner != accounts.owner@ ==> final(ledger)@.quantity(accounts.mint@, owner) == 0
        },
{
    proof {
        ledger.lemma_wf_consistent();
        if issuance(ledger@, *accounts, DescriptorView::plain(name@, symbol@, uri@)) is Ok {
            lemma_issuance_adds_one_asset(
                ledger@,
                *accounts,
                DescriptorView::plain(name@, symbol@, uri@),
            );
        }
    }
    let mut work = ledger.snapshot();
    let outcome = run_steps(&mut work, accounts, Descriptor::new(name, symbol, uri));
    if outcome.is_ok() {
        *ledger = work;
    }
    outcome
}

} // verus!
