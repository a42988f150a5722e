//! The token accounting module: the program that owns mint and holder
//! account records, and alone changes supplies and balances.
//!
//! A caller that wants supply increased names the mint's authority and
//! presents the evidence that it speaks for that address. The module checks
//! the evidence itself, on every call, before it credits anything.

use crate::address::{candidate, verify, Address};
use crate::store::{
    write_state, HolderRecord, Ledger, MintRecord, Record, RecordData, Records,
    HOLDER_RECORD_SIZE, MINT_RECORD_SIZE,
};
use vstd::prelude::*;

verus! {

/// Why the module refused a request.
#[derive(Clone, Copy, Debug, PartialEq, Eq, Structural)]
pub enum TokenError {
    /// The evidence does not reconstruct the authority named, or the
    /// authority named is not the one that the mint records.
    AuthorityMismatch,
    /// The supply or the balance would exceed what its counter can hold.
    Overflow,
    /// A record named in the request is missing, is not owned by the module,
    /// or does not hold what the request needs it to hold.
    InvalidRecord,
}

/// The evidence that a program speaks for a derived address: the label and
/// the disambiguator from which the address is derived under that program.
/// It is made for one call and never kept.
#[derive(Debug)]
pub struct AuthorityProof {
    pub label: Vec<u8>,
    pub bump: u8,
}

/// What a piece of evidence says: its label's bytes and its disambiguator.
pub struct Evidence {
    pub label: Seq<u8>,
    pub bump: u8,
}

impl View for AuthorityProof {
    type V = Evidence;

    open spec fn view(&self) -> Evidence {
        Evidence { label: self.label@, bump: self.bump }
    }
}

impl Evidence {
    /// Whether the evidence, presented by `program`, derives `address`.
    pub open spec fn reconstructs(self, program: Address, address: Address) -> bool {
        candidate(self.label, Seq::empty(), self.bump, program) == Some(address)
    }
}

/// The records that a request to mint names: the mint, the holder account
/// to credit, and the authority that approves.
#[derive(Clone, Copy, Debug, PartialEq, Eq)]
pub struct MintTo {
    pub mint: Address,
    pub to: Address,
    pub authority: Address,
}

/// Whether the record at `address` is one of the module's, of `size` bytes
/// and still blank.
pub open spec fn is_blank(records: Records, token_program: Address, address: Address, size: u64)
    -> bool {
    &&& records.contains_key(address)
    &&& records[address].owner_program == token_program
    &&& records[address].size == size
    &&& records[address].data is Blank
}

/// The mint that the module keeps at `address`, if it keeps one there.
pub open spec fn mint_at(records: Records, token_program: Address, address: Address) -> Option<
    MintRecord,
> {
    if records.contains_key(address) && records[address].owner_program == token_program {
        match records[address].data {
            RecordData::Mint(mint) => Some(mint),
            _ => None,
        }
    } else {
        None
    }
}

/// The holder account that the module keeps at `address`, if it keeps one
/// there.
pub open spec fn holder_at(records: Records, token_program: Address, address: Address) -> Option<
    HolderRecord,
> {
    if records.contains_key(address) && records[address].owner_program == token_program {
        match records[address].data {
            RecordData::Holder(holder) => Some(holder),
            _ => None,
        }
    } else {
        None
    }
}

/// How a request to initialize a mint at `address` ends.
pub open spec fn initialize_mint_result(records: Records, token_program: Address, address: Address)
    -> Result<(), TokenError> {
    if is_blank(records, token_program, address, MINT_RECORD_SIZE) {
        Ok(())
    } else {
        Err(TokenError::InvalidRecord)
    }
}

/// The records after that request: on success the record holds a mint with
/// the precision and the authorities given and no supply.
pub open spec fn initialize_mint_state(
    records: Records,
    token_program: Address,
    address: Address,
    decimals: u8,
    mint_authority: Address,
    freeze_authority: Address,
) -> Records {
    if initialize_mint_result(records, token_program, address) is Ok {
        write_state(
            records,
            token_program,
            address,
            RecordData::Mint(MintRecord { decimals, mint_authority, freeze_authority, supply: 0 }),
        )
    } else {
        records
    }
}

/// How a request to initialize a holder account at `address` ends.
pub open spec fn initialize_holder_account_result(
    records: Records,
    token_program: Address,
    address: Address,
    mint: Address,
) -> Result<(), TokenError> {
    if is_blank(records, token_program, address, HOLDER_RECORD_SIZE) && mint_at(
        records,
        token_program,
        mint,
    ) is Some {
        Ok(())
    } else {
        Err(TokenError::InvalidRecord)
    }
}

/// The records after that request: on success the record holds an account of
/// `owner` for `mint` with no balance.
pub open spec fn initialize_holder_account_state(
    records: Records,
    token_program: Address,
    address: Address,
    owner: Address,
    mint: Address,
) -> Records {
    if initialize_holder_account_result(records, token_program, address, mint) is Ok {
        write_state(
            records,
            token_program,
            address,
            RecordData::Holder(HolderRecord { owner, mint, balance: 0 }),
        )
    } else {
        records
    }
}

/// Whether the module accepts `authority`, with the evidence that `caller`
/// presents, as the one that may mint: the evidence derives it, and the mint
/// records it.
pub open spec fn authorized(
    mint: MintRecord,
    caller: Address,
    authority: Address,
    evidence: Evidence,
) -> bool {
    evidence.reconstructs(caller, authority) && authority == mint.mint_authority
}

/// How a request to mint `amount` ends.
pub open spec fn mint_to_result(
    records: Records,
    token_program: Address,
    caller: Address,
    accounts: MintTo,
    evidence: Evidence,
    amount: u64,
) -> Result<(), TokenError> {
    match mint_at(records, token_program, accounts.mint) {
        None => Err(TokenError::InvalidRecord),
        Some(mint) => if !authorized(mint, caller, accounts.authority, evidence) {
            Err(TokenError::AuthorityMismatch)
        } else {
            match holder_at(records, token_program, accounts.to) {
                None => Err(TokenError::InvalidRecord),
                Some(holder) => if holder.mint != accounts.mint {
                    Err(TokenError::InvalidRecord)
                } else if mint.supply + amount > u64::MAX || holder.balance + amount > u64::MAX {
                    Err(TokenError::Overflow)
                } else {
                    Ok(())
                },
            }
        },
    }
}

/// The records after `amount` has been added to the supply of the mint at
/// `mint` and to the balance of the holder account at `to`.
pub open spec fn credited(
    records: Records,
    token_program: Address,
    mint: Address,
    to: Address,
    amount: u64,
) -> Records {
    let minted = mint_at(records, token_program, mint)->0;
    let held = holder_at(records, token_program, to)->0;
    records.insert(
        mint,
        Record {
            data: RecordData::Mint(
                MintRecord { supply: (minted.supply + amount) as u64, ..minted },
            ),
            ..records[mint]
        },
    ).insert(
        to,
        Record {
            data: RecordData::Holder(
                HolderRecord { balance: (held.balance + amount) as u64, ..held },
            ),
            ..records[to]
        },
    )
}

/// The records after a request to mint: credited on success, unchanged
/// otherwise.
pub open spec fn mint_to_state(
    records: Records,
    token_program: Address,
    caller: Address,
    accounts: MintTo,
    evidence: Evidence,
    amount: u64,
) -> Records {
    if mint_to_result(records, token_program, caller, accounts, evidence, amount) is Ok {
        credited(records, token_program, accounts.mint, accounts.to, amount)
    } else {
        records
    }
}

fn blank(ledger: &Ledger, token_program: &Address, address: &Address, size: u64) -> (blank: bool)
    ensures
        blank == is_blank(ledger@, *token_program, *address, size),
{
    match ledger.record(address) {
        Some(record) => record.owner_program == *token_program && record.size == size && matches!(
            record.data,
            RecordData::Blank
        ),
        None => false,
    }
}

/// The mint that the module keeps at `address`, if it keeps one there.
pub fn mint(ledger: &Ledger, token_program: &Address, address: &Address) -> (found: Option<
    MintRecord,
>)
    ensures
        found == mint_at(ledger@, *token_program, *address),
{
    match ledger.record(address) {
        Some(record) => if record.owner_program == *token_program {
            match record.data {
                RecordData::Mint(mint) => Some(mint),
                _ => None,
            }
        } else {
            None
        },
        None => None,
    }
}

/// The holder account that the module keeps at `address`, if it keeps one
/// there.
pub fn holder(ledger: &Ledger, token_program: &Address, address: &Address) -> (found: Option<
    HolderRecord,
>)
    ensures
        found == holder_at(ledger@, *token_program, *address),
{
    match ledger.record(address) {
        Some(record) => if record.owner_program == *token_program {
            match record.data {
                RecordData::Holder(holder) => Some(holder),
                _ => None,
            }
        } else {
            None
        },
        None => None,
    }
}

/// Makes the blank record at `address` a mint with the precision and the
/// authorities given and no supply.
pub fn initialize_mint(
    ledger: &mut Ledger,
    token_program: &Address,
    address: &Address,
    decimals: u8,
    mint_authority: &Address,
    freeze_authority: &Address,
) -> (r: Result<(), TokenError>)
    ensures
        final(ledger).byte_price() == old(ledger).byte_price(),
        r == initialize_mint_result(old(ledger)@, *token_program, *address),
        final(ledger)@ == initialize_mint_state(
            old(ledger)@,
            *token_program,
            *address,
            decimals,
            *mint_authority,
            *freeze_authority,
        ),
{
    if !blank(ledger, token_program, address, MINT_RECORD_SIZE) {
        return Err(TokenError::InvalidRecord);
    }
    let data = RecordData::Mint(
        MintRecord {
            decimals,
            mint_authority: *mint_authority,
            freeze_authority: *freeze_authority,
            supply: 0,
        },
    );
    ledger.write(token_program, address, data);
    Ok(())
}

/// Makes the blank record at `address` an account of `owner` for the mint at
/// `mint`, with no balance.
pub fn initialize_holder_account(
    ledger: &mut Ledger,
    token_program: &Address,
    address: &Address,
    owner: &Address,
    mint: &Address,
) -> (r: Result<(), TokenError>)
    ensures
        final(ledger).byte_price() == old(ledger).byte_price(),
        r == initialize_holder_account_result(old(ledger)@, *token_program, *address, *mint),
        final(ledger)@ == initialize_holder_account_state(
            old(ledger)@,
            *token_program,
            *address,
            *owner,
            *mint,
        ),
{
    if !blank(ledger, token_program, address, HOLDER_RECORD_SIZE) {
        return Err(TokenError::InvalidRecord);
    }
    if self::mint(ledger, token_program, mint).is_none() {
        return Err(TokenError::InvalidRecord);
    }
    let data = RecordData::Holder(HolderRecord { owner: *owner, mint: *mint, balance: 0 });
    ledger.write(token_program, address, data);
    Ok(())
}

/// Adds `amount` to the supply of a mint and to the balance of one of its
/// holder accounts, if the authority named is the mint's and the evidence
/// that `caller` presents derives it.
pub fn mint_to(
    ledger: &mut Ledger,
    token_program: &Address,
    caller: &Address,
    accounts: &MintTo,
    evidence: &AuthorityProof,
    amount: u64,
) -> (r: Result<(), TokenError>)
    ensures
        final(ledger).byte_price() == old(ledger).byte_price(),
        r == mint_to_result(old(ledger)@, *token_program, *caller, *accounts, evidence@, amount),
        final(ledger)@ == mint_to_state(
            old(ledger)@,
            *token_program,
            *caller,
            *accounts,
            evidence@,
            amount,
        ),
{
    let minted = match self::mint(ledger, token_program, &accounts.mint) {
        Some(minted) => minted,
        None => {
            return Err(TokenError::InvalidRecord);
        },
    };
    let no_extra: Vec<Vec<u8>> = Vec::new();
    assert(crate::address::seed_bytes(no_extra@) =~= Seq::empty());
    let derived = verify(
        evidence.label.as_slice(),
        &no_extra,
        evidence.bump,
        &accounts.authority,
        caller,
    );
    if !derived || accounts.authority != minted.mint_authority {
        return Err(TokenError::AuthorityMismatch);
    }
    let held = match holder(ledger, token_program, &accounts.to) {
        Some(held) => held,
        None => {
            return Err(TokenError::InvalidRecord);
        },
    };
    if held.mint != accounts.mint {
        return Err(TokenError::InvalidRecord);
    }
    if amount > u64::MAX - minted.supply || amount > u64::MAX - held.balance {
        return Err(TokenError::Overflow);
    }
    let supplied = RecordData::Mint(MintRecord { supply: minted.supply + amount, ..minted });
    let balanced = RecordData::Holder(HolderRecord { balance: held.balance + amount, ..held });
    ledger.write(token_program, &accounts.mint, supplied);
    ledger.write(token_program, &accounts.to, balanced);
    Ok(())
}

} // verus!
