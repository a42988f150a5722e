//! The program: it creates the mint, whose authority is an address derived
//! from the program's own, and mints into a holder's account by presenting
//! the evidence for that address to the token accounting module.

use crate::address::{derivation, Address};
use crate::store::{
    can_pay, create_record_result, create_record_state, storage_cost, system_address,
    system_program, AccountError, Ledger, Records, HOLDER_RECORD_SIZE, MINT_RECORD_SIZE,
};
use crate::token::{
    holder_at, initialize_holder_account, initialize_holder_account_state, initialize_mint,
    initialize_mint_state, mint_at, mint_to, mint_to_result, mint_to_state, AuthorityProof,
    Evidence, MintTo, TokenError,
};
use vstd::prelude::*;

verus! {

/// The label from which the mint's address is derived: the bytes of `mint`.
pub const MINT_LABEL: [u8; 4] = [109, 105, 110, 116];

/// The decimal precision of the mint.
pub const MINT_DECIMALS: u8 = 6;

/// The addresses that are fixed when the program is deployed: its own, and
/// those of the token accounting module and of the module under which holder
/// account addresses are derived.
#[derive(Clone, Copy, Debug, PartialEq, Eq)]
pub struct Deployment {
    pub program_id: Address,
    pub token_program: Address,
    pub associated_token_program: Address,
}

/// The request to create the mint.
#[derive(Clone, Copy, Debug, PartialEq, Eq)]
pub struct CreateMint {
    /// Pays for the storage of the mint record.
    pub signer: Address,
}

/// The request to mint into the signer's holder account.
#[derive(Clone, Copy, Debug, PartialEq, Eq)]
pub struct MintTokens {
    /// Owns the holder account, and pays for its storage where it has to be
    /// created.
    pub signer: Address,
}

/// Why a request failed. A request that fails leaves the ledger as it was.
#[derive(Clone, Copy, Debug, PartialEq, Eq, Structural)]
pub enum MintError {
    /// The amount to mint is zero.
    InvalidAmount,
    /// No disambiguator derives a program address from the seeds.
    DerivationExhausted,
    /// A record already stands at the address of the record to create.
    AccountAlreadyInitialized,
    /// No mint stands at the address where the request needs one.
    AccountNotInitialized,
    /// The funding signer cannot pay for the storage of the new record.
    InsufficientFunds,
    /// The record at the holder account's address is not the account of the
    /// owner and the mint requested.
    OwnerMismatch,
    /// The token accounting module did not accept the authority presented.
    AuthorityMismatch,
    /// The supply or the balance would exceed what its counter can hold.
    ArithmeticOverflow,
}

/// Where the mint of a deployment stands. It is uninitialized until the
/// request to create it succeeds, and active ever after.
#[derive(Clone, Copy, Debug, PartialEq, Eq, Structural)]
pub enum MintState {
    Uninitialized,
    Active,
}

/// A record that a request names, and whether the request may change it.
/// The ledger's scheduler keeps apart the requests that may change the same
/// record.
#[derive(Clone, Copy, Debug, PartialEq, Eq)]
pub struct RecordAccess {
    pub address: Address,
    pub writable: bool,
}

/// Whether a list of declared records lets a request change the record at
/// `address`.
pub open spec fn declares_writable(declared: Seq<RecordAccess>, address: Address) -> bool {
    exists|i: int|
        0 <= i < declared.len() && (#[trigger] declared[i]).address == address
            && declared[i].writable
}

/// The error of a request that the account store refused.
pub open spec fn account_failure(e: AccountError) -> MintError {
    match e {
        AccountError::AccountAlreadyInitialized => MintError::AccountAlreadyInitialized,
        AccountError::InsufficientFunds => MintError::InsufficientFunds,
    }
}

/// The error of a request that the token accounting module refused.
pub open spec fn token_failure(e: TokenError) -> MintError {
    match e {
        TokenError::AuthorityMismatch => MintError::AuthorityMismatch,
        TokenError::Overflow => MintError::ArithmeticOverflow,
        TokenError::InvalidRecord => MintError::AccountNotInitialized,
    }
}

/// The mint's address and its disambiguator under a deployment.
pub open spec fn mint_derivation(deployment: Deployment) -> Option<(Address, u8)> {
    derivation(MINT_LABEL@, Seq::empty(), deployment.program_id)
}

/// The address, and its disambiguator, of the account in which `owner` holds
/// tokens of `mint`.
pub open spec fn holder_derivation(deployment: Deployment, owner: Address, mint: Address)
    -> Option<(Address, u8)> {
    derivation(
        owner@,
        seq![deployment.token_program@, mint@],
        deployment.associated_token_program,
    )
}

/// Where the mint of a deployment stands on a ledger with these records.
pub open spec fn mint_state_of(deployment: Deployment, records: Records) -> MintState {
    match mint_derivation(deployment) {
        Some((mint, _)) => if mint_at(records, deployment.token_program, mint) is Some {
            MintState::Active
        } else {
            MintState::Uninitialized
        },
        None => MintState::Uninitialized,
    }
}

/// The records that a request to create the mint declares: the signer and
/// the mint, which it may change, and the two programs it calls into.
pub open spec fn create_mint_access(deployment: Deployment, signer: Address) -> Option<
    Seq<RecordAccess>,
> {
    match mint_derivation(deployment) {
        Some((mint, _)) => Some(
            seq![
                RecordAccess { address: signer, writable: true },
                RecordAccess { address: mint, writable: true },
                RecordAccess { address: deployment.token_program, writable: false },
                RecordAccess { address: system_address(), writable: false },
            ],
        ),
        None => None,
    }
}

/// The records that a request to mint declares: the signer, the signer's
/// holder account and the mint, which it may change, and the three programs
/// it calls into.
pub open spec fn mint_tokens_access(deployment: Deployment, signer: Address) -> Option<
    Seq<RecordAccess>,
> {
    match mint_derivation(deployment) {
        Some((mint, _)) => match holder_derivation(deployment, signer, mint) {
            Some((holder, _)) => Some(
                seq![
                    RecordAccess { address: signer, writable: true },
                    RecordAccess { address: holder, writable: true },
                    RecordAccess { address: mint, writable: true },
                    RecordAccess { address: deployment.token_program, writable: false },
                    RecordAccess { address: deployment.associated_token_program, writable: false },
                    RecordAccess { address: system_address(), writable: false },
                ],
            ),
            None => None,
        },
        None => None,
    }
}

/// How a request to create the mint ends: with the mint's address, unless
/// that address cannot be derived or the store refuses to create a record
/// there.
pub open spec fn create_mint_result(
    deployment: Deployment,
    records: Records,
    price: u64,
    signer: Address,
) -> Result<Address, MintError> {
    match mint_derivation(deployment) {
        None => Err(MintError::DerivationExhausted),
        Some((mint, _)) => match create_record_result(
            records,
            price,
            mint,
            MINT_RECORD_SIZE,
            signer,
        ) {
            Err(e) => Err(account_failure(e)),
            Ok(_) => Ok(mint),
        },
    }
}

/// The records after that request: on success a record paid for by the
/// signer stands at the mint's address, and holds a mint whose two
/// authorities are that address.
pub open spec fn create_mint_state(
    deployment: Deployment,
    records: Records,
    price: u64,
    signer: Address,
) -> Records {
    match create_mint_result(deployment, records, price, signer) {
        Ok(mint) => initialize_mint_state(
            create_record_state(
                records,
                price,
                mint,
                deployment.token_program,
                MINT_RECORD_SIZE,
                signer,
            ),
            deployment.token_program,
            mint,
            MINT_DECIMALS,
            mint,
            mint,
        ),
        Err(_) => records,
    }
}

/// Whether the record at `holder` is the account in which `owner` holds
/// tokens of `mint`.
pub open spec fn is_holder_of(
    records: Records,
    token_program: Address,
    holder: Address,
    owner: Address,
    mint: Address,
) -> bool {
    match holder_at(records, token_program, holder) {
        Some(held) => held.owner == owner && held.mint == mint,
        None => false,
    }
}

/// How a request to resolve the holder account of `owner` for `mint` ends:
/// with the account's address, where the account exists or can be created.
pub open spec fn resolve_holder_result(
    deployment: Deployment,
    records: Records,
    price: u64,
    owner: Address,
    mint: Address,
    signer: Address,
) -> Result<Address, MintError> {
    match holder_derivation(deployment, owner, mint) {
        None => Err(MintError::DerivationExhausted),
        Some((holder, _)) => if mint_at(records, deployment.token_program, mint) is None {
            Err(MintError::AccountNotInitialized)
        } else if records.contains_key(holder) {
            if is_holder_of(records, deployment.token_program, holder, owner, mint) {
                Ok(holder)
            } else {
                Err(MintError::OwnerMismatch)
            }
        } else if !can_pay(records, signer, storage_cost(HOLDER_RECORD_SIZE, price)) {
            Err(MintError::InsufficientFunds)
        } else {
            Ok(holder)
        },
    }
}

/// The records after that request: where the account was missing and could
/// be created, a record paid for by the signer stands at its address and
/// holds an account with no balance; otherwise nothing has changed.
pub open spec fn resolve_holder_state(
    deployment: Deployment,
    records: Records,
    price: u64,
    owner: Address,
    mint: Address,
    signer: Address,
) -> Records {
    match resolve_holder_result(deployment, records, price, owner, mint, signer) {
        Ok(holder) => if records.contains_key(holder) {
            records
        } else {
            initialize_holder_account_state(
                create_record_state(
                    records,
                    price,
                    holder,
                    deployment.token_program,
                    HOLDER_RECORD_SIZE,
                    signer,
                ),
                deployment.token_program,
                holder,
                owner,
                mint,
            )
        },
        Err(_) => records,
    }
}

/// What the program asks of the token accounting module, once the mint's
/// address and the holder account are known: to credit the holder account,
/// on the authority of the mint's own address.
pub open spec fn mint_request(mint: Address, holder: Address) -> MintTo {
    MintTo { mint, to: holder, authority: mint }
}

/// The evidence that the program presents for the mint's address.
pub open spec fn mint_evidence(bump: u8) -> Evidence {
    Evidence { label: MINT_LABEL@, bump }
}

/// How a request to mint `amount` into the signer's holder account ends:
/// with the holder account's address, unless the amount is zero, an address
/// cannot be derived, the holder account cannot be resolved, or the token
/// accounting module refuses.
pub open spec fn mint_tokens_result(
    deployment: Deployment,
    records: Records,
    price: u64,
    signer: Address,
    amount: u64,
) -> Result<Address, MintError> {
    if amount == 0 {
        Err(MintError::InvalidAmount)
    } else {
        match mint_derivation(deployment) {
            None => Err(MintError::DerivationExhausted),
            Some((mint, bump)) => match resolve_holder_result(
                deployment,
                records,
                price,
                signer,
                mint,
                signer,
            ) {
                Err(e) => Err(e),
                Ok(holder) => match mint_to_result(
                    resolve_holder_state(deployment, records, price, signer, mint, signer),
                    deployment.token_program,
                    deployment.program_id,
                    mint_request(mint, holder),
                    mint_evidence(bump),
                    amount,
                ) {
                    Err(e) => Err(token_failure(e)),
                    Ok(_) => Ok(holder),
                },
            },
        }
    }
}

/// The records after that request: on success the holder account is
/// resolved and credited, and the mint's supply has grown by the amount;
/// otherwise nothing has changed.
pub open spec fn mint_tokens_state(
    deployment: Deployment,
    records: Records,
    price: u64,
    signer: Address,
    amount: u64,
) -> Records {
    match mint_tokens_result(deployment, records, price, signer, amount) {
        Ok(holder) => {
            let (mint, bump) = mint_derivation(deployment)->0;
            mint_to_state(
                resolve_holder_state(deployment, records, price, signer, mint, signer),
                deployment.token_program,
                deployment.program_id,
                mint_request(mint, holder),
                mint_evidence(bump),
                amount,
            )
        },
        Err(_) => records,
    }
}

fn from_account_error(e: AccountError) -> (error: MintError)
    ensures
        error == account_failure(e),
{
    match e {
        AccountError::AccountAlreadyInitialized => MintError::AccountAlreadyInitialized,
        AccountError::InsufficientFunds => MintError::InsufficientFunds,
    }
}

fn from_token_error(e: TokenError) -> (error: MintError)
    ensures
        error == token_failure(e),
{
    match e {
        TokenError::AuthorityMismatch => MintError::AuthorityMismatch,
        TokenError::Overflow => MintError::ArithmeticOverflow,
        TokenError::InvalidRecord => MintError::AccountNotInitialized,
    }
}

fn derive_mint(deployment: &Deployment) -> (found: Option<(Address, u8)>)
    ensures
        found == mint_derivation(*deployment),
{
    let no_extra: Vec<Vec<u8>> = Vec::new();
    assert(crate::address::seed_bytes(no_extra@) =~= Seq::empty());
    match crate::address::derive(MINT_LABEL.as_slice(), &no_extra, &deployment.program_id) {
        Ok(found) => Some(found),
        Err(_) => None,
    }
}

fn derive_holder(deployment: &Deployment, owner: &Address, mint: &Address) -> (found: Option<
    (Address, u8),
>)
    ensures
        found == holder_derivation(*deployment, *owner, *mint),
{
    let label = owner.to_seed();
    let mut extra: Vec<Vec<u8>> = Vec::new();
    extra.push(deployment.token_program.to_seed());
    extra.push(mint.to_seed());
    assert(crate::address::seed_bytes(extra@) =~= seq![deployment.token_program@, mint@]);
    match crate::address::derive(label.as_slice(), &extra, &deployment.associated_token_program) {
        Ok(found) => Some(found),
        Err(_) => None,
    }
}

/// Where the mint of the deployment stands on the ledger.
pub fn mint_state(deployment: &Deployment, ledger: &Ledger) -> (state: MintState)
    ensures
        state == mint_state_of(*deployment, ledger@),
{
    match derive_mint(deployment) {
        Some((mint, _)) => match crate::token::mint(ledger, &deployment.token_program, &mint) {
            Some(_) => MintState::Active,
            None => MintState::Uninitialized,
        },
        None => MintState::Uninitialized,
    }
}

impl CreateMint {
    /// The records that the request declares, those that it may change
    /// marked writable.
    pub fn access(&self, deployment: &Deployment) -> (r: Result<Vec<RecordAccess>, MintError>)
        ensures
            match r {
                Ok(declared) => create_mint_access(*deployment, self.signer) == Some(declared@),
                Err(e) => e == MintError::DerivationExhausted && create_mint_access(
                    *deployment,
                    self.signer,
                ) is None,
            },
    {
        let mint = match derive_mint(deployment) {
            Some((mint, _)) => mint,
            None => {
                return Err(MintError::DerivationExhausted);
            },
        };
        let mut declared: Vec<RecordAccess> = Vec::new();
        declared.push(RecordAccess { address: self.signer, writable: true });
        declared.push(RecordAccess { address: mint, writable: true });
        declared.push(RecordAccess { address: deployment.token_program, writable: false });
        declared.push(RecordAccess { address: system_program(), writable: false });
        assert(declared@ =~= create_mint_access(*deployment, self.signer)->0);
        Ok(declared)
    }
}

impl MintTokens {
    /// The records that the request declares, those that it may change
    /// marked writable.
    pub fn access(&self, deployment: &Deployment) -> (r: Result<Vec<RecordAccess>, MintError>)
        ensures
            match r {
                Ok(declared) => mint_tokens_access(*deployment, self.signer) == Some(declared@),
                Err(e) => e == MintError::DerivationExhausted && mint_tokens_access(
                    *deployment,
                    self.signer,
                ) is None,
            },
    {
        let mint = match derive_mint(deployment) {
            Some((mint, _)) => mint,
            None => {
                return Err(MintError::DerivationExhausted);
            },
        };
        let holder = match derive_holder(deployment, &self.signer, &mint) {
            Some((holder, _)) => holder,
            None => {
                return Err(MintError::DerivationExhausted);
            },
        };
        let mut declared: Vec<RecordAccess> = Vec::new();
        declared.push(RecordAccess { address: self.signer, writable: true });
        declared.push(RecordAccess { address: holder, writable: true });
        declared.push(RecordAccess { address: mint, writable: true });
        declared.push(RecordAccess { address: deployment.token_program, writable: false });
        declared.push(
            RecordAccess { address: deployment.associated_token_program, writable: false },
        );
        declared.push(RecordAccess { address: system_program(), writable: false });
        assert(declared@ =~= mint_tokens_access(*deployment, self.signer)->0);
        Ok(declared)
    }
}

/// Rejects an amount of zero: the token accounting module would take it as
/// a request to do nothing.
pub fn check_amount(amount: u64) -> (r: Result<(), MintError>)
    ensures
        r == (if amount == 0 {
            Err::<(), MintError>(MintError::InvalidAmount)
        } else {
            Ok::<(), MintError>(())
        }),
{
    if amount == 0 {
        Err(MintError::InvalidAmount)
    } else {
        Ok(())
    }
}

/// What the program hands to the token accounting module to have tokens
/// minted into `holder`: the records of the request, with the mint's own
/// address as the authority, and the evidence for that address, rebuilt from
/// the mint's label and its disambiguator.
pub fn authorized_mint(mint: &Address, holder: &Address, bump: u8) -> (call: (
    MintTo,
    AuthorityProof,
))
    ensures
        call.0 == mint_request(*mint, *holder),
        call.1@ == mint_evidence(bump),
{
    let accounts = MintTo { mint: *mint, to: *holder, authority: *mint };
    let evidence = AuthorityProof { label: vstd::slice::slice_to_vec(MINT_LABEL.as_slice()), bump };
    (accounts, evidence)
}

/// Creates the mint: a record at the address derived from the mint's label,
/// paid for by the signer, that holds a mint of six decimals whose mint and
/// freeze authority are that same address. Returns the mint's address.
pub fn create_mint(deployment: &Deployment, ledger: &mut Ledger, ctx: &CreateMint) -> (r: Result<
    Address,
    MintError,
>)
    ensures
        final(ledger).byte_price() == old(ledger).byte_price(),
        r == create_mint_result(*deployment, old(ledger)@, old(ledger).byte_price(), ctx.signer),
        final(ledger)@ == create_mint_state(
            *deployment,
            old(ledger)@,
            old(ledger).byte_price(),
            ctx.signer,
        ),
{
    let mint = match derive_mint(deployment) {
        Some((mint, _)) => mint,
        None => {
            return Err(MintError::DerivationExhausted);
        },
    };
    match ledger.create_record(&mint, &deployment.token_program, MINT_RECORD_SIZE, &ctx.signer) {
        Ok(_) => {},
        Err(e) => {
            return Err(from_account_error(e));
        },
    }
    // The record was created blank and for the module, which therefore accepts it.
    match initialize_mint(ledger, &deployment.token_program, &mint, MINT_DECIMALS, &mint, &mint) {
        Ok(_) => Ok(mint),
        Err(e) => Err(from_token_error(e)),
    }
}

/// Resolves the account in which `owner` holds tokens of `mint`: finds it at
/// its derived address, or creates it there with no balance, paid for by
/// `signer`. Returns the account's address.
pub fn resolve_holder(
    deployment: &Deployment,
    ledger: &mut Ledger,
    owner: &Address,
    mint: &Address,
    signer: &Address,
) -> (r: Result<Address, MintError>)
    ensures
        final(ledger).byte_price() == old(ledger).byte_price(),
        r == resolve_holder_result(
            *deployment,
            old(ledger)@,
            old(ledger).byte_price(),
            *owner,
            *mint,
            *signer,
        ),
        final(ledger)@ == resolve_holder_state(
            *deployment,
            old(ledger)@,
            old(ledger).byte_price(),
            *owner,
            *mint,
            *signer,
        ),
{
    let holder = match derive_holder(deployment, owner, mint) {
        Some((holder, _)) => holder,
        None => {
            return Err(MintError::DerivationExhausted);
        },
    };
    if crate::token::mint(ledger, &deployment.token_program, mint).is_none() {
        return Err(MintError::AccountNotInitialized);
    }
    if ledger.record_exists(&holder) {
        return match crate::token::holder(ledger, &deployment.token_program, &holder) {
            Some(held) => if held.owner == *owner && held.mint == *mint {
                Ok(holder)
            } else {
                Err(MintError::OwnerMismatch)
            },
            None => Err(MintError::OwnerMismatch),
        };
    }
    match ledger.create_record(&holder, &deployment.token_program, HOLDER_RECORD_SIZE, signer) {
        Ok(_) => {},
        Err(e) => {
            return Err(from_account_error(e));
        },
    }
    // The record was created blank and for the module, and the mint is there.
    match initialize_holder_account(ledger, &deployment.token_program, &holder, owner, mint) {
        Ok(_) => Ok(holder),
        Err(e) => Err(from_token_error(e)),
    }
}

/// Mints `amount` into the signer's holder account, which is created if it
/// is missing. The program rebuilds the evidence for the mint's address and
/// presents it to the token accounting module, which checks it and credits
/// the account. Returns the holder account's address.
pub fn mint_tokens(deployment: &Deployment, ledger: &mut Ledger, ctx: &MintTokens, amount: u64)
    -> (r: Result<Address, MintError>)
    ensures
        final(ledger).byte_price() == old(ledger).byte_price(),
        r == mint_tokens_result(
            *deployment,
            old(ledger)@,
            old(ledger).byte_price(),
            ctx.signer,
            amount,
        ),
        final(ledger)@ == mint_tokens_state(
            *deployment,
            old(ledger)@,
            old(ledger).byte_price(),
            ctx.signer,
            amount,
        ),
{
    match check_amount(amount) {
        Ok(_) => {},
        Err(e) => {
            return Err(e);
        },
    }
    let (mint, bump) = match derive_mint(deployment) {
        Some(found) => found,
        None => {
            return Err(MintError::DerivationExhausted);
        },
    };
    // Work on a copy, so that a refusal by the module leaves no new holder account behind.
    let mut staged = ledger.snapshot();
    let holder = match resolve_holder(deployment, &mut staged, &ctx.signer, &mint, &ctx.signer) {
        Ok(holder) => holder,
        Err(e) => {
            return Err(e);
        },
    };
    let (accounts, evidence) = authorized_mint(&mint, &holder, bump);
    match mint_to(
        &mut staged,
        &deployment.token_program,
        &deployment.program_id,
        &accounts,
        &evidence,
        amount,
    ) {
        Ok(_) => {
            *ledger = staged;
            Ok(holder)
        },
        Err(e) => Err(from_token_error(e)),
    }
}

} // verus!
