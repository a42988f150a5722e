//! What holds of the program on every ledger, stated over the functions that
//! say how its requests end and what they leave behind.

use crate::address::{
    candidate, derivation, is_derive_outcome, is_lowest_bump, Address, DerivationExhausted,
};
use crate::program::{
    create_mint_access, create_mint_result, create_mint_state, declares_writable,
    holder_derivation, mint_derivation, mint_state_of, mint_tokens_access, mint_tokens_result,
    mint_tokens_state, resolve_holder_result, resolve_holder_state, Deployment, MintError,
    MintState, MINT_DECIMALS,
};
use crate::store::{
    debited, storage_cost, MintRecord, Records, HOLDER_RECORD_SIZE, MINT_RECORD_SIZE,
};
use crate::token::{holder_at, mint_at, mint_to_result, mint_to_state, Evidence, MintTo, TokenError};
use vstd::prelude::*;

verus! {

/// Whether `address` and `bump` are what the seeds derive under `program`:
/// `bump` is the lowest disambiguator that yields a program address, and
/// `address` is that address.
pub open spec fn derives(
    label: Seq<u8>,
    extra: Seq<Seq<u8>>,
    program: Address,
    address: Address,
    bump: u8,
) -> bool {
    is_lowest_bump(label, extra, program, bump) && candidate(label, extra, bump, program) == Some(
        address,
    )
}

/// Whether the mint at `mint` has in `after` the authorities and the
/// precision that it has in `before`.
pub open spec fn same_authorities(
    before: Records,
    after: Records,
    token_program: Address,
    mint: Address,
) -> bool {
    match (mint_at(before, token_program, mint), mint_at(after, token_program, mint)) {
        (Some(old), Some(new)) => {
            &&& new.mint_authority == old.mint_authority
            &&& new.freeze_authority == old.freeze_authority
            &&& new.decimals == old.decimals
        },
        _ => false,
    }
}

/// The balance that the holder account at `holder` has, or none where the
/// account does not exist yet.
pub open spec fn balance_of(records: Records, token_program: Address, holder: Address) -> int {
    match holder_at(records, token_program, holder) {
        Some(held) => held.balance as int,
        None => 0,
    }
}

/// Whether the record at `address` is in `after` what it is in `before`:
/// there in both with the same contents, or in neither.
pub open spec fn unchanged_at(before: Records, after: Records, address: Address) -> bool {
    after.contains_key(address) == before.contains_key(address) && (before.contains_key(address)
        ==> after[address] == before[address])
}

/// Where some disambiguator works, a lowest one does.
proof fn lemma_lowest_exists(label: Seq<u8>, extra: Seq<Seq<u8>>, program: Address, bump: u8)
    requires
        candidate(label, extra, bump, program) is Some,
    ensures
        exists|b: u8| is_lowest_bump(label, extra, program, b),
    decreases bump,
{
    if forall|b: u8| b < bump ==> candidate(label, extra, b, program) is None {
        assert(is_lowest_bump(label, extra, program, bump));
    } else {
        let lower = choose|b: u8| b < bump && candidate(label, extra, b, program) is Some;
        lemma_lowest_exists(label, extra, program, lower);
    }
}

/// A derivation yields the lowest disambiguator that works and the address
/// that it gives, and fails only where no disambiguator works.
pub proof fn law_derivation_is_lowest(label: Seq<u8>, extra: Seq<Seq<u8>>, program: Address)
    ensures
        match derivation(label, extra, program) {
            Some((address, bump)) => derives(label, extra, program, address, bump),
            None => forall|b: u8| candidate(label, extra, b, program) is None,
        },
{
    if !exists|b: u8| is_lowest_bump(label, extra, program, b) {
        assert forall|b: u8| candidate(label, extra, b, program) is None by {
            if candidate(label, extra, b, program) is Some {
                lemma_lowest_exists(label, extra, program, b);
            }
        }
    }
}

/// Derivation is deterministic: two runs on the same label, seeds and
/// program end alike, with the same address and disambiguator or both
/// exhausted.
pub proof fn law_derive_deterministic(
    label: Seq<u8>,
    extra: Seq<Seq<u8>>,
    program: Address,
    first: Result<(Address, u8), DerivationExhausted>,
    second: Result<(Address, u8), DerivationExhausted>,
)
    requires
        is_derive_outcome(label, extra, program, first),
        is_derive_outcome(label, extra, program, second),
    ensures
        first == second,
{
    if let (Err(e), Err(f)) = (first, second) {
        assert(e == f);
    }
}

/// Verification accepts the derived address with its disambiguator, and with
/// that disambiguator no other address.
pub proof fn law_verify_accepts_derived(
    label: Seq<u8>,
    extra: Seq<Seq<u8>>,
    program: Address,
    claimed: Address,
)
    requires
        derivation(label, extra, program) is Some,
    ensures
        ({
            let (address, bump) = derivation(label, extra, program)->0;
            (candidate(label, extra, bump, program) == Some(claimed)) <==> claimed == address
        }),
{
    law_derivation_is_lowest(label, extra, program);
}

/// Single authority: once the mint is created, its mint authority and its
/// freeze authority are both the mint's own derived address, its precision
/// is six decimals and nothing is in supply.
pub proof fn law_single_authority(
    deployment: Deployment,
    records: Records,
    price: u64,
    signer: Address,
)
    requires
        create_mint_result(deployment, records, price, signer) is Ok,
    ensures
        ({
            let mint = create_mint_result(deployment, records, price, signer)->Ok_0;
            let after = create_mint_state(deployment, records, price, signer);
            &&& mint_derivation(deployment) matches Some((derived, _)) && mint == derived
            &&& mint_at(after, deployment.token_program, mint) == Some(
                MintRecord {
                    decimals: MINT_DECIMALS,
                    mint_authority: mint,
                    freeze_authority: mint,
                    supply: 0,
                },
            )
        }),
{
}

/// The storage of the mint is paid for by the signer: the mint record holds
/// the cost of its bytes, and the signer's funds are less by that cost.
pub proof fn law_mint_is_paid_for(
    deployment: Deployment,
    records: Records,
    price: u64,
    signer: Address,
)
    requires
        create_mint_result(deployment, records, price, signer) is Ok,
    ensures
        ({
            let mint = create_mint_result(deployment, records, price, signer)->Ok_0;
            let after = create_mint_state(deployment, records, price, signer);
            let cost = storage_cost(MINT_RECORD_SIZE, price);
            &&& signer != mint
            &&& records.contains_key(signer) && !records.contains_key(mint)
            &&& after[mint].funds == cost
            &&& after[mint].owner_program == deployment.token_program
            &&& after[mint].size == MINT_RECORD_SIZE
            &&& after[signer] == debited(records, signer, cost)
            &&& after[signer].funds + cost == records[signer].funds
        }),
{
}

/// The authorities and the precision of a mint are never reassigned: no
/// request to the program changes them, on any mint of the ledger.
pub proof fn law_authorities_never_reassigned(
    deployment: Deployment,
    records: Records,
    price: u64,
    signer: Address,
    owner: Address,
    of_mint: Address,
    amount: u64,
    mint: Address,
)
    requires
        mint_at(records, deployment.token_program, mint) is Some,
    ensures
        same_authorities(
            records,
            create_mint_state(deployment, records, price, signer),
            deployment.token_program,
            mint,
        ),
        same_authorities(
            records,
            resolve_holder_state(deployment, records, price, owner, of_mint, signer),
            deployment.token_program,
            mint,
        ),
        same_authorities(
            records,
            mint_tokens_state(deployment, records, price, signer, amount),
            deployment.token_program,
            mint,
        ),
{
}

/// Resolving a holder account is idempotent: once it has succeeded, any
/// further request for the same owner and mint, whoever pays, ends with the
/// same address and changes nothing. So the record is created once.
pub proof fn law_resolve_idempotent(
    deployment: Deployment,
    records: Records,
    price: u64,
    owner: Address,
    mint: Address,
    signer: Address,
    later_signer: Address,
)
    requires
        resolve_holder_result(deployment, records, price, owner, mint, signer) is Ok,
    ensures
        ({
            let after = resolve_holder_state(deployment, records, price, owner, mint, signer);
            &&& resolve_holder_result(deployment, after, price, owner, mint, later_signer)
                == resolve_holder_result(deployment, records, price, owner, mint, signer)
            &&& resolve_holder_state(deployment, after, price, owner, mint, later_signer) == after
        }),
{
}

/// A holder account that is created is paid for by the signer of the
/// request, and one that exists costs nothing.
pub proof fn law_holder_is_paid_for(
    deployment: Deployment,
    records: Records,
    price: u64,
    owner: Address,
    mint: Address,
    signer: Address,
)
    requires
        resolve_holder_result(deployment, records, price, owner, mint, signer) is Ok,
    ensures
        ({
            let holder = resolve_holder_result(deployment, records, price, owner, mint, signer)->Ok_0;
            let after = resolve_holder_state(deployment, records, price, owner, mint, signer);
            let cost = storage_cost(HOLDER_RECORD_SIZE, price);
            if records.contains_key(holder) {
                after == records
            } else {
                &&& signer != holder
                &&& after[holder].funds == cost
                &&& after[holder].owner_program == deployment.token_program
                &&& after[holder].size == HOLDER_RECORD_SIZE
                &&& after[signer] == debited(records, signer, cost)
                &&& after[signer].funds + cost == records[signer].funds
            }
        }),
{
}

/// A holder account that has just been created has no balance, and belongs
/// to the owner and the mint requested.
pub proof fn law_resolved_holder(
    deployment: Deployment,
    records: Records,
    price: u64,
    owner: Address,
    mint: Address,
    signer: Address,
)
    requires
        resolve_holder_result(deployment, records, price, owner, mint, signer) is Ok,
    ensures
        ({
            let holder = resolve_holder_result(deployment, records, price, owner, mint, signer)->Ok_0;
            let after = resolve_holder_state(deployment, records, price, owner, mint, signer);
            &&& holder_derivation(deployment, owner, mint) matches Some((derived, _)) && holder
                == derived
            &&& holder_at(after, deployment.token_program, holder) is Some
            &&& holder_at(after, deployment.token_program, holder)->0.owner == owner
            &&& holder_at(after, deployment.token_program, holder)->0.mint == mint
            &&& !records.contains_key(holder) ==> holder_at(
                after,
                deployment.token_program,
                holder,
            )->0.balance == 0
        }),
{
}

/// Conservation: a successful request to mint adds exactly the amount to the
/// mint's supply and to the holder account's balance. No other record
/// changes, but that of the signer where it has paid for a new holder
/// account, and that one keeps its contents.
pub proof fn law_conservation(
    deployment: Deployment,
    records: Records,
    price: u64,
    signer: Address,
    amount: u64,
)
    requires
        mint_tokens_result(deployment, records, price, signer, amount) is Ok,
    ensures
        ({
            let holder = mint_tokens_result(deployment, records, price, signer, amount)->Ok_0;
            let (mint, _) = mint_derivation(deployment)->0;
            let after = mint_tokens_state(deployment, records, price, signer, amount);
            let token_program = deployment.token_program;
            &&& mint_at(records, token_program, mint) is Some
            &&& mint_at(after, token_program, mint) is Some
            &&& mint_at(after, token_program, mint)->0.supply == mint_at(
                records,
                token_program,
                mint,
            )->0.supply + amount
            &&& holder_at(after, token_program, holder) is Some
            &&& balance_of(after, token_program, holder) == balance_of(
                records,
                token_program,
                holder,
            ) + amount
            &&& forall|other: Address|
                other != mint && other != holder && (other != signer || records.contains_key(
                    holder,
                )) ==> unchanged_at(records, after, other)
            &&& after.contains_key(signer) == records.contains_key(signer)
            &&& signer != mint && signer != holder ==> after[signer].data == records[signer].data
        }),
{
}

/// Forged authority: where a mint stands, a request to mint that names any
/// address but the one that the evidence derives and the mint records is
/// refused as an authority mismatch, and changes nothing.
pub proof fn law_forged_authority_rejected(
    records: Records,
    token_program: Address,
    caller: Address,
    accounts: MintTo,
    evidence: Evidence,
    amount: u64,
    genuine: Address,
)
    requires
        mint_at(records, token_program, accounts.mint) is Some,
        evidence.reconstructs(caller, genuine),
        accounts.authority != genuine,
    ensures
        mint_to_result(records, token_program, caller, accounts, evidence, amount) == Err::<
            (),
            TokenError,
        >(TokenError::AuthorityMismatch),
        mint_to_state(records, token_program, caller, accounts, evidence, amount) == records,
{
}

/// An authority that the mint does not record is refused as well, whatever
/// evidence comes with it.
pub proof fn law_unrecorded_authority_rejected(
    records: Records,
    token_program: Address,
    caller: Address,
    accounts: MintTo,
    evidence: Evidence,
    amount: u64,
)
    requires
        mint_at(records, token_program, accounts.mint) is Some,
        accounts.authority != mint_at(records, token_program, accounts.mint)->0.mint_authority,
    ensures
        mint_to_result(records, token_program, caller, accounts, evidence, amount) == Err::<
            (),
            TokenError,
        >(TokenError::AuthorityMismatch),
        mint_to_state(records, token_program, caller, accounts, evidence, amount) == records,
{
}

/// Re-initialization: once the mint is created, any further request to
/// create it, whoever pays, fails because the record is already
/// initialized, and leaves every record as it is.
pub proof fn law_reinitialization_rejected(
    deployment: Deployment,
    records: Records,
    price: u64,
    signer: Address,
    later_signer: Address,
)
    requires
        create_mint_result(deployment, records, price, signer) is Ok,
    ensures
        ({
            let after = create_mint_state(deployment, records, price, signer);
            &&& create_mint_result(deployment, after, price, later_signer) == Err::<
                Address,
                MintError,
            >(MintError::AccountAlreadyInitialized)
            &&& create_mint_state(deployment, after, price, later_signer) == after
        }),
{
}

/// The mint becomes active by its creation, and by nothing else: the request
/// to create it succeeds only on an uninitialized mint and leaves it active.
pub proof fn law_creation_activates(
    deployment: Deployment,
    records: Records,
    price: u64,
    signer: Address,
)
    requires
        create_mint_result(deployment, records, price, signer) is Ok,
    ensures
        mint_state_of(deployment, records) == MintState::Uninitialized,
        mint_state_of(deployment, create_mint_state(deployment, records, price, signer))
            == MintState::Active,
{
}

/// An active mint stays active: no request to the program takes it back.
pub proof fn law_active_is_terminal(
    deployment: Deployment,
    records: Records,
    price: u64,
    signer: Address,
    owner: Address,
    mint: Address,
    amount: u64,
)
    requires
        mint_state_of(deployment, records) == MintState::Active,
    ensures
        mint_state_of(deployment, create_mint_state(deployment, records, price, signer))
            == MintState::Active,
        mint_state_of(
            deployment,
            resolve_holder_state(deployment, records, price, owner, mint, signer),
        ) == MintState::Active,
        mint_state_of(deployment, mint_tokens_state(deployment, records, price, signer, amount))
            == MintState::Active,
{
}

/// Nothing is minted from a mint that is not active.
pub proof fn law_uninitialized_mint_refuses(
    deployment: Deployment,
    records: Records,
    price: u64,
    signer: Address,
    amount: u64,
)
    requires
        mint_state_of(deployment, records) == MintState::Uninitialized,
    ensures
        mint_tokens_result(deployment, records, price, signer, amount) is Err,
{
}

/// A request changes only records that it declares writable: every other
/// record of the ledger is after the request what it was before.
pub proof fn law_writes_are_declared(
    deployment: Deployment,
    records: Records,
    price: u64,
    signer: Address,
    amount: u64,
    other: Address,
)
    ensures
        create_mint_access(deployment, signer) matches Some(declared) && !declares_writable(
            declared,
            other,
        ) ==> unchanged_at(
            records,
            create_mint_state(deployment, records, price, signer),
            other,
        ),
        mint_tokens_access(deployment, signer) matches Some(declared) && !declares_writable(
            declared,
            other,
        ) ==> unchanged_at(
            records,
            mint_tokens_state(deployment, records, price, signer, amount),
            other,
        ),
{
    if let Some(declared) = create_mint_access(deployment, signer) {
        assert(declared[0].address == signer && declared[0].writable);
        assert(declared[1].writable);
    }
    if let Some(declared) = mint_tokens_access(deployment, signer) {
        assert(declared[0].address == signer && declared[0].writable);
        assert(declared[1].writable);
        assert(declared[2].writable);
    }
}

/// A request that fails changes nothing.
pub proof fn law_failure_is_atomic(
    deployment: Deployment,
    records: Records,
    price: u64,
    signer: Address,
    owner: Address,
    mint: Address,
    amount: u64,
)
    ensures
        create_mint_result(deployment, records, price, signer) is Err ==> create_mint_state(
            deployment,
            records,
            price,
            signer,
        ) == records,
        resolve_holder_result(deployment, records, price, owner, mint, signer) is Err
            ==> resolve_holder_state(deployment, records, price, owner, mint, signer) == records,
        mint_tokens_result(deployment, records, price, signer, amount) is Err
            ==> mint_tokens_state(deployment, records, price, signer, amount) == records,
{
}

} // verus!
