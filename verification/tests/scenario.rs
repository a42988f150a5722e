use anchor_lang::prelude::Pubkey;
use mint_token::address::Address;
use mint_token::program::{
    authorized_mint, check_amount, create_mint, mint_state, mint_tokens, resolve_holder,
    CreateMint, Deployment, MintError, MintState, MintTokens, RecordAccess, MINT_DECIMALS,
    MINT_LABEL,
};
use mint_token::store::{system_program, HolderRecord, Ledger, MintRecord, Record, RecordData};
use mint_token::token::{holder, initialize_holder_account, initialize_mint, mint};
use std::str::FromStr;

const PRICE: u64 = 10;
const MINT_COST: u64 = 820;
const HOLDER_COST: u64 = 1650;

fn address(key: &Pubkey) -> Address {
    Address::new(key.to_bytes())
}

fn deployment() -> Deployment {
    Deployment {
        program_id: address(
            &Pubkey::from_str("4bBvnqzTnXMuD2nLNT2WMRCgtZcB39KGofmSwGGDCCk1").unwrap(),
        ),
        token_program: address(&anchor_spl::token::ID),
        associated_token_program: address(&anchor_spl::associated_token::ID),
    }
}

fn owner() -> Address {
    Address::new([1u8; 32])
}

fn lowest(seeds: &[&[u8]], program: &Address) -> Address {
    let id = Pubkey::new_from_array(program.bytes);
    for bump in 0..=255u8 {
        let last = [bump];
        let mut all = seeds.to_vec();
        all.push(&last);
        if let Ok(key) = Pubkey::create_program_address(&all, &id) {
            return address(&key);
        }
    }
    panic!("no disambiguator yields a program address");
}

fn mint_address() -> Address {
    lowest(&[b"mint"], &deployment().program_id)
}

fn holder_address(of: &Address) -> Address {
    let d = deployment();
    lowest(
        &[&of.bytes, &d.token_program.bytes, &mint_address().bytes],
        &d.associated_token_program,
    )
}

fn funded(amount: u64) -> Ledger {
    let mut ledger = Ledger::new(PRICE);
    assert!(ledger.deposit(&owner(), amount));
    ledger
}

fn with_mint(amount: u64) -> Ledger {
    let mut ledger = funded(amount);
    create_mint(&deployment(), &mut ledger, &CreateMint { signer: owner() }).unwrap();
    ledger
}

fn supply(ledger: &Ledger) -> u64 {
    mint(ledger, &deployment().token_program, &mint_address()).unwrap().supply
}

fn balance(ledger: &Ledger, of: &Address) -> u64 {
    holder(ledger, &deployment().token_program, &holder_address(of)).unwrap().balance
}

fn funds(ledger: &Ledger, of: &Address) -> u64 {
    ledger.record(of).unwrap().funds
}

#[test]
fn the_label_spells_mint() {
    assert_eq!(&MINT_LABEL, b"mint");
    assert_eq!(MINT_DECIMALS, 6);
}

#[test]
fn end_to_end_mint_scenario() {
    let d = deployment();
    let mut ledger = funded(10_000);

    let a = create_mint(&d, &mut ledger, &CreateMint { signer: owner() }).unwrap();
    assert_eq!(a, mint_address());
    assert_eq!(
        ledger.record(&a),
        Some(Record {
            owner_program: d.token_program,
            size: 82,
            funds: MINT_COST,
            data: RecordData::Mint(MintRecord {
                decimals: 6,
                mint_authority: a,
                freeze_authority: a,
                supply: 0,
            }),
        })
    );
    assert_eq!(funds(&ledger, &owner()), 10_000 - MINT_COST);

    let h = resolve_holder(&d, &mut ledger, &owner(), &a, &owner()).unwrap();
    assert_eq!(h, holder_address(&owner()));
    assert_eq!(
        ledger.record(&h),
        Some(Record {
            owner_program: d.token_program,
            size: 165,
            funds: HOLDER_COST,
            data: RecordData::Holder(HolderRecord { owner: owner(), mint: a, balance: 0 }),
        })
    );
    assert_eq!(funds(&ledger, &owner()), 10_000 - MINT_COST - HOLDER_COST);

    assert_eq!(mint_tokens(&d, &mut ledger, &MintTokens { signer: owner() }, 1_000_000), Ok(h));
    assert_eq!(supply(&ledger), 1_000_000);
    assert_eq!(balance(&ledger, &owner()), 1_000_000);

    assert_eq!(mint_tokens(&d, &mut ledger, &MintTokens { signer: owner() }, 500_000), Ok(h));
    assert_eq!(supply(&ledger), 1_500_000);
    assert_eq!(balance(&ledger, &owner()), 1_500_000);
    assert_eq!(funds(&ledger, &owner()), 10_000 - MINT_COST - HOLDER_COST);
}

#[test]
fn create_mint_sets_a_single_authority() {
    let d = deployment();
    let mut ledger = funded(MINT_COST);
    let a = create_mint(&d, &mut ledger, &CreateMint { signer: owner() }).unwrap();
    let created = mint(&ledger, &d.token_program, &a).unwrap();
    assert_eq!(created.mint_authority, a);
    assert_eq!(created.freeze_authority, a);
    assert_eq!(created.mint_authority, mint_address());
    assert_eq!(created.decimals, 6);
    assert_eq!(created.supply, 0);
    assert_eq!(funds(&ledger, &owner()), 0);
}

#[test]
fn create_mint_needs_the_cost_of_the_record() {
    let d = deployment();
    let mut ledger = funded(MINT_COST - 1);
    assert_eq!(
        create_mint(&d, &mut ledger, &CreateMint { signer: owner() }),
        Err(MintError::InsufficientFunds)
    );
    assert!(!ledger.record_exists(&mint_address()));
    assert_eq!(funds(&ledger, &owner()), MINT_COST - 1);
    assert_eq!(mint_state(&d, &ledger), MintState::Uninitialized);
}

#[test]
fn create_mint_needs_a_funded_signer() {
    let d = deployment();
    let mut ledger = Ledger::new(PRICE);
    assert_eq!(
        create_mint(&d, &mut ledger, &CreateMint { signer: owner() }),
        Err(MintError::InsufficientFunds)
    );
    assert!(!ledger.record_exists(&mint_address()));
    assert!(!ledger.record_exists(&owner()));
}

#[test]
fn create_mint_twice_is_rejected() {
    let d = deployment();
    let mut ledger = with_mint(10_000);
    mint_tokens(&d, &mut ledger, &MintTokens { signer: owner() }, 5).unwrap();
    let before = ledger.record(&mint_address());
    let paid = funds(&ledger, &owner());
    assert_eq!(
        create_mint(&d, &mut ledger, &CreateMint { signer: owner() }),
        Err(MintError::AccountAlreadyInitialized)
    );
    assert_eq!(ledger.record(&mint_address()), before);
    assert_eq!(funds(&ledger, &owner()), paid);
    // whoever asks, and whether or not they could pay
    let other = Address::new([2u8; 32]);
    assert_eq!(
        create_mint(&d, &mut ledger, &CreateMint { signer: other }),
        Err(MintError::AccountAlreadyInitialized)
    );
    assert_eq!(ledger.record(&mint_address()), before);
    assert_eq!(supply(&ledger), 5);
}

#[test]
fn create_mint_refuses_an_address_in_use() {
    let d = deployment();
    let mut ledger = funded(10_000);
    ledger.deposit(&mint_address(), 1);
    assert_eq!(
        create_mint(&d, &mut ledger, &CreateMint { signer: owner() }),
        Err(MintError::AccountAlreadyInitialized)
    );
    assert_eq!(ledger.record(&mint_address()).unwrap().data, RecordData::Blank);
    assert_eq!(funds(&ledger, &owner()), 10_000);
}

#[test]
fn the_mint_becomes_active_and_stays_so() {
    let d = deployment();
    let mut ledger = funded(10_000);
    assert_eq!(mint_state(&d, &ledger), MintState::Uninitialized);
    create_mint(&d, &mut ledger, &CreateMint { signer: owner() }).unwrap();
    assert_eq!(mint_state(&d, &ledger), MintState::Active);
    let _ = create_mint(&d, &mut ledger, &CreateMint { signer: owner() });
    assert_eq!(mint_state(&d, &ledger), MintState::Active);
    mint_tokens(&d, &mut ledger, &MintTokens { signer: owner() }, 1).unwrap();
    assert_eq!(mint_state(&d, &ledger), MintState::Active);
    let _ = mint_tokens(&d, &mut ledger, &MintTokens { signer: owner() }, 0);
    assert_eq!(mint_state(&d, &ledger), MintState::Active);
}

#[test]
fn resolve_holder_is_idempotent() {
    let d = deployment();
    let a = mint_address();
    let mut ledger = with_mint(10_000);
    let first = resolve_holder(&d, &mut ledger, &owner(), &a, &owner()).unwrap();
    let record = ledger.record(&first);
    let paid = funds(&ledger, &owner());
    assert_eq!(paid, 10_000 - MINT_COST - HOLDER_COST);
    let second = resolve_holder(&d, &mut ledger, &owner(), &a, &owner()).unwrap();
    assert_eq!(second, first);
    assert_eq!(ledger.record(&first), record);
    assert_eq!(funds(&ledger, &owner()), paid);
    // another payer, funded or not, finds the same account and pays nothing
    let other = Address::new([2u8; 32]);
    assert_eq!(resolve_holder(&d, &mut ledger, &owner(), &a, &other), Ok(first));
    assert!(!ledger.record_exists(&other));
    ledger.deposit(&other, 5_000);
    assert_eq!(resolve_holder(&d, &mut ledger, &owner(), &a, &other), Ok(first));
    assert_eq!(funds(&ledger, &other), 5_000);
    assert_eq!(ledger.record(&first), record);
}

#[test]
fn resolve_holder_keeps_the_balance_of_an_existing_account() {
    let d = deployment();
    let mut ledger = with_mint(10_000);
    let h = mint_tokens(&d, &mut ledger, &MintTokens { signer: owner() }, 77).unwrap();
    assert_eq!(resolve_holder(&d, &mut ledger, &owner(), &mint_address(), &owner()), Ok(h));
    assert_eq!(balance(&ledger, &owner()), 77);
}

#[test]
fn resolve_holder_gives_each_owner_an_account() {
    let d = deployment();
    let a = mint_address();
    let mut ledger = with_mint(10_000);
    let other = Address::new([2u8; 32]);
    let mine = resolve_holder(&d, &mut ledger, &owner(), &a, &owner()).unwrap();
    let theirs = resolve_holder(&d, &mut ledger, &other, &a, &owner()).unwrap();
    assert_ne!(mine, theirs);
    assert_eq!(theirs, holder_address(&other));
    assert_eq!(holder(&ledger, &d.token_program, &theirs).unwrap().owner, other);
    assert_eq!(funds(&ledger, &owner()), 10_000 - MINT_COST - 2 * HOLDER_COST);
}

#[test]
fn resolve_holder_needs_the_cost_of_the_record() {
    let d = deployment();
    let mut ledger = with_mint(MINT_COST + HOLDER_COST - 1);
    assert_eq!(
        resolve_holder(&d, &mut ledger, &owner(), &mint_address(), &owner()),
        Err(MintError::InsufficientFunds)
    );
    assert!(!ledger.record_exists(&holder_address(&owner())));
    assert_eq!(funds(&ledger, &owner()), HOLDER_COST - 1);
    ledger.deposit(&owner(), 1);
    assert!(resolve_holder(&d, &mut ledger, &owner(), &mint_address(), &owner()).is_ok());
    assert_eq!(funds(&ledger, &owner()), 0);
}

#[test]
fn resolve_holder_needs_a_mint() {
    let d = deployment();
    let mut ledger = funded(10_000);
    assert_eq!(
        resolve_holder(&d, &mut ledger, &owner(), &mint_address(), &owner()),
        Err(MintError::AccountNotInitialized)
    );
    assert_eq!(
        resolve_holder(&d, &mut ledger, &owner(), &owner(), &owner()),
        Err(MintError::AccountNotInitialized)
    );
    assert!(!ledger.record_exists(&holder_address(&owner())));
    assert_eq!(funds(&ledger, &owner()), 10_000);
}

#[test]
fn resolve_holder_rejects_an_account_of_another_owner() {
    let d = deployment();
    let a = mint_address();
    let h = holder_address(&owner());
    let other = Address::new([2u8; 32]);
    let mut ledger = with_mint(10_000);
    ledger.create_record(&h, &d.token_program, 165, &owner()).unwrap();
    initialize_holder_account(&mut ledger, &d.token_program, &h, &other, &a).unwrap();
    let before = ledger.record(&h);
    assert_eq!(
        resolve_holder(&d, &mut ledger, &owner(), &a, &owner()),
        Err(MintError::OwnerMismatch)
    );
    assert_eq!(
        mint_tokens(&d, &mut ledger, &MintTokens { signer: owner() }, 5),
        Err(MintError::OwnerMismatch)
    );
    assert_eq!(ledger.record(&h), before);
    assert_eq!(supply(&ledger), 0);
}

#[test]
fn resolve_holder_rejects_an_account_of_another_mint() {
    let d = deployment();
    let a = mint_address();
    let h = holder_address(&owner());
    let second_mint = Address::new([3u8; 32]);
    let mut ledger = with_mint(10_000);
    ledger.create_record(&second_mint, &d.token_program, 82, &owner()).unwrap();
    initialize_mint(&mut ledger, &d.token_program, &second_mint, 6, &a, &a).unwrap();
    ledger.create_record(&h, &d.token_program, 165, &owner()).unwrap();
    initialize_holder_account(&mut ledger, &d.token_program, &h, &owner(), &second_mint).unwrap();
    assert_eq!(
        resolve_holder(&d, &mut ledger, &owner(), &a, &owner()),
        Err(MintError::OwnerMismatch)
    );
}

#[test]
fn resolve_holder_rejects_a_record_that_is_no_holder_account() {
    let d = deployment();
    let mut ledger = with_mint(10_000);
    ledger.deposit(&holder_address(&owner()), 1);
    assert_eq!(
        resolve_holder(&d, &mut ledger, &owner(), &mint_address(), &owner()),
        Err(MintError::OwnerMismatch)
    );
    assert_eq!(funds(&ledger, &owner()), 10_000 - MINT_COST);
}

#[test]
fn mint_conserves_supply_and_balance() {
    let d = deployment();
    let other = Address::new([2u8; 32]);
    let bystander = Address::new([9u8; 32]);
    let mut ledger = with_mint(10_000);
    ledger.deposit(&other, 5_000);
    ledger.deposit(&bystander, 123);
    mint_tokens(&d, &mut ledger, &MintTokens { signer: other }, 300).unwrap();
    mint_tokens(&d, &mut ledger, &MintTokens { signer: owner() }, 40).unwrap();

    let supply_before = supply(&ledger);
    let balance_before = balance(&ledger, &owner());
    let theirs = ledger.record(&holder_address(&other));
    let wallets = (ledger.record(&owner()), ledger.record(&other), ledger.record(&bystander));
    assert_eq!(supply_before, 340);
    assert_eq!(balance_before, 40);

    mint_tokens(&d, &mut ledger, &MintTokens { signer: owner() }, 2).unwrap();

    assert_eq!(supply(&ledger), supply_before + 2);
    assert_eq!(balance(&ledger, &owner()), balance_before + 2);
    assert_eq!(ledger.record(&holder_address(&other)), theirs);
    assert_eq!(
        (ledger.record(&owner()), ledger.record(&other), ledger.record(&bystander)),
        wallets
    );
    assert_eq!(supply(&ledger), balance(&ledger, &owner()) + balance(&ledger, &other));
}

#[test]
fn mint_creates_the_holder_account_on_first_use() {
    let d = deployment();
    let mut ledger = with_mint(MINT_COST + HOLDER_COST);
    assert!(!ledger.record_exists(&holder_address(&owner())));
    let h = mint_tokens(&d, &mut ledger, &MintTokens { signer: owner() }, 9).unwrap();
    assert_eq!(h, holder_address(&owner()));
    assert_eq!(
        holder(&ledger, &d.token_program, &h),
        Some(HolderRecord { owner: owner(), mint: mint_address(), balance: 9 })
    );
    assert_eq!(funds(&ledger, &owner()), 0);
    assert_eq!(funds(&ledger, &h), HOLDER_COST);
}

#[test]
fn mint_rejects_an_amount_of_zero() {
    let d = deployment();
    let mut ledger = with_mint(10_000);
    assert_eq!(
        mint_tokens(&d, &mut ledger, &MintTokens { signer: owner() }, 0),
        Err(MintError::InvalidAmount)
    );
    assert!(!ledger.record_exists(&holder_address(&owner())));
    assert_eq!(supply(&ledger), 0);
    assert_eq!(funds(&ledger, &owner()), 10_000 - MINT_COST);
    // before anything else is looked at
    let mut empty = Ledger::new(PRICE);
    assert_eq!(
        mint_tokens(&d, &mut empty, &MintTokens { signer: owner() }, 0),
        Err(MintError::InvalidAmount)
    );
}

#[test]
fn mint_needs_an_active_mint() {
    let d = deployment();
    let mut ledger = funded(10_000);
    assert_eq!(
        mint_tokens(&d, &mut ledger, &MintTokens { signer: owner() }, 5),
        Err(MintError::AccountNotInitialized)
    );
    assert!(!ledger.record_exists(&mint_address()));
    assert!(!ledger.record_exists(&holder_address(&owner())));
    assert_eq!(funds(&ledger, &owner()), 10_000);
}

#[test]
fn mint_needs_the_cost_of_a_new_holder_account() {
    let d = deployment();
    let mut ledger = with_mint(MINT_COST + HOLDER_COST - 1);
    assert_eq!(
        mint_tokens(&d, &mut ledger, &MintTokens { signer: owner() }, 5),
        Err(MintError::InsufficientFunds)
    );
    assert!(!ledger.record_exists(&holder_address(&owner())));
    assert_eq!(supply(&ledger), 0);
    assert_eq!(funds(&ledger, &owner()), HOLDER_COST - 1);
}

#[test]
fn mint_refuses_to_overflow() {
    let d = deployment();
    let mut ledger = with_mint(10_000);
    let request = MintTokens { signer: owner() };
    mint_tokens(&d, &mut ledger, &request, u64::MAX).unwrap();
    assert_eq!(mint_tokens(&d, &mut ledger, &request, 1), Err(MintError::ArithmeticOverflow));
    assert_eq!(supply(&ledger), u64::MAX);
    assert_eq!(balance(&ledger, &owner()), u64::MAX);
}

#[test]
fn a_mint_that_overflows_creates_no_holder_account() {
    let d = deployment();
    let other = Address::new([2u8; 32]);
    let mut ledger = with_mint(10_000);
    ledger.deposit(&other, 5_000);
    mint_tokens(&d, &mut ledger, &MintTokens { signer: owner() }, u64::MAX).unwrap();
    assert_eq!(
        mint_tokens(&d, &mut ledger, &MintTokens { signer: other }, 1),
        Err(MintError::ArithmeticOverflow)
    );
    assert!(!ledger.record_exists(&holder_address(&other)));
    assert_eq!(funds(&ledger, &other), 5_000);
    assert_eq!(supply(&ledger), u64::MAX);
}

#[test]
fn mint_rejects_a_mint_with_another_authority() {
    let d = deployment();
    let a = mint_address();
    let other = Address::new([2u8; 32]);
    let mut ledger = funded(10_000);
    ledger.create_record(&a, &d.token_program, 82, &owner()).unwrap();
    initialize_mint(&mut ledger, &d.token_program, &a, 6, &other, &other).unwrap();
    assert_eq!(
        mint_tokens(&d, &mut ledger, &MintTokens { signer: owner() }, 5),
        Err(MintError::AuthorityMismatch)
    );
    assert_eq!(supply(&ledger), 0);
    assert!(!ledger.record_exists(&holder_address(&owner())));
    assert_eq!(funds(&ledger, &owner()), 10_000 - MINT_COST);
}

#[test]
fn mint_of_another_deployment_is_out_of_reach() {
    let d = deployment();
    let intruder = Deployment { program_id: Address::new([66u8; 32]), ..d };
    let mut ledger = with_mint(10_000);
    let request = MintTokens { signer: owner() };
    mint_tokens(&d, &mut ledger, &request, 5).unwrap();
    assert_eq!(
        mint_tokens(&intruder, &mut ledger, &request, 5),
        Err(MintError::AccountNotInitialized)
    );
    assert_eq!(supply(&ledger), 5);
    assert_eq!(balance(&ledger, &owner()), 5);
}

#[test]
fn the_requests_are_at_the_root_of_the_crate() {
    let d = deployment();
    let mut ledger = funded(10_000);
    let a = mint_token::create_mint(&d, &mut ledger, &mint_token::CreateMint { signer: owner() });
    assert_eq!(a, Ok(mint_address()));
    let h = mint_token::mint_tokens(&d, &mut ledger, &mint_token::MintTokens { signer: owner() }, 3);
    assert_eq!(h, Ok(holder_address(&owner())));
    assert_eq!(supply(&ledger), 3);
}

#[test]
fn check_amount_rejects_zero_only() {
    assert_eq!(check_amount(0), Err(MintError::InvalidAmount));
    assert_eq!(check_amount(1), Ok(()));
    assert_eq!(check_amount(u64::MAX), Ok(()));
}

#[test]
fn the_program_presents_its_own_evidence() {
    let a = mint_address();
    let h = holder_address(&owner());
    let (accounts, evidence) = authorized_mint(&a, &h, 3);
    assert_eq!(accounts.mint, a);
    assert_eq!(accounts.to, h);
    assert_eq!(accounts.authority, a);
    assert_eq!(evidence.label, b"mint".to_vec());
    assert_eq!(evidence.bump, 3);
}

#[test]
fn create_mint_declares_what_it_changes() {
    let d = deployment();
    let declared = CreateMint { signer: owner() }.access(&d).unwrap();
    assert_eq!(
        declared,
        vec![
            RecordAccess { address: owner(), writable: true },
            RecordAccess { address: mint_address(), writable: true },
            RecordAccess { address: d.token_program, writable: false },
            RecordAccess { address: system_program(), writable: false },
        ]
    );
}

#[test]
fn mint_tokens_declares_what_it_changes() {
    let d = deployment();
    let declared = MintTokens { signer: owner() }.access(&d).unwrap();
    assert_eq!(
        declared,
        vec![
            RecordAccess { address: owner(), writable: true },
            RecordAccess { address: holder_address(&owner()), writable: true },
            RecordAccess { address: mint_address(), writable: true },
            RecordAccess { address: d.token_program, writable: false },
            RecordAccess { address: d.associated_token_program, writable: false },
            RecordAccess { address: system_program(), writable: false },
        ]
    );
}
