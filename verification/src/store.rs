//! The account store: the records on the ledger and the funds that pay for
//! their storage.

use crate::address::Address;
use vstd::prelude::*;

verus! {

/// Bytes of storage that a mint record takes.
pub const MINT_RECORD_SIZE: u64 = 82;

/// Bytes of storage that a holder account record takes.
pub const HOLDER_RECORD_SIZE: u64 = 165;

/// A fungible asset class and its total supply.
#[derive(Clone, Copy, Debug, PartialEq, Eq)]
pub struct MintRecord {
    pub decimals: u8,
    pub mint_authority: Address,
    pub freeze_authority: Address,
    pub supply: u64,
}

/// One owner's balance of one mint.
#[derive(Clone, Copy, Debug, PartialEq, Eq)]
pub struct HolderRecord {
    pub owner: Address,
    pub mint: Address,
    pub balance: u64,
}

/// What a record holds. A record is blank from its creation until the
/// program that owns it writes to it.
#[derive(Clone, Copy, Debug, PartialEq, Eq)]
pub enum RecordData {
    Blank,
    Mint(MintRecord),
    Holder(HolderRecord),
}

/// A record on the ledger: the program that alone may write to it, the size
/// of its storage, the funds it holds and its contents.
#[derive(Clone, Copy, Debug, PartialEq, Eq)]
pub struct Record {
    pub owner_program: Address,
    pub size: u64,
    pub funds: u64,
    pub data: RecordData,
}

/// Why the store refused to create a record.
#[derive(Clone, Copy, Debug, PartialEq, Eq, Structural)]
pub enum AccountError {
    AccountAlreadyInitialized,
    InsufficientFunds,
}

/// The records of a ledger, by address.
pub type Records = Map<Address, Record>;

/// The address of the system program, which owns every plain wallet.
pub open spec fn system_address() -> Address {
    Address::of(Seq::new(32, |i: int| 0u8))
}

/// What storage of `size` bytes costs at `price` a byte.
pub open spec fn storage_cost(size: u64, price: u64) -> int {
    size * price
}

/// Whether `signer` has a record that holds at least `cost`.
pub open spec fn can_pay(records: Records, signer: Address, cost: int) -> bool {
    records.contains_key(signer) && records[signer].funds >= cost
}

/// The record of `signer` after it has paid `cost`.
pub open spec fn debited(records: Records, signer: Address, cost: int) -> Record {
    Record { funds: (records[signer].funds - cost) as u64, ..records[signer] }
}

/// The records after a deposit of `amount` to `wallet`: an existing record
/// gains the funds, unless its funds would overflow; a missing one is opened
/// as a plain wallet.
pub open spec fn deposit_state(records: Records, wallet: Address, amount: u64) -> Records {
    if !records.contains_key(wallet) {
        records.insert(
            wallet,
            Record {
                owner_program: system_address(),
                size: 0,
                funds: amount,
                data: RecordData::Blank,
            },
        )
    } else if records[wallet].funds + amount <= u64::MAX {
        records.insert(
            wallet,
            Record { funds: (records[wallet].funds + amount) as u64, ..records[wallet] },
        )
    } else {
        records
    }
}

/// How a request to create a record at `address`, paid for by `signer`,
/// ends: the address must be free, and the signer must hold the cost.
pub open spec fn create_record_result(
    records: Records,
    price: u64,
    address: Address,
    size: u64,
    signer: Address,
) -> Result<(), AccountError> {
    if records.contains_key(address) {
        Err(AccountError::AccountAlreadyInitialized)
    } else if !can_pay(records, signer, storage_cost(size, price)) {
        Err(AccountError::InsufficientFunds)
    } else {
        Ok(())
    }
}

/// The records after that request: on success the signer has paid the cost
/// and a blank record that holds it stands at `address`; otherwise nothing
/// has changed.
pub open spec fn create_record_state(
    records: Records,
    price: u64,
    address: Address,
    owner_program: Address,
    size: u64,
    signer: Address,
) -> Records {
    if create_record_result(records, price, address, size, signer) is Ok {
        let cost = storage_cost(size, price);
        records.insert(signer, debited(records, signer, cost)).insert(
            address,
            Record { owner_program, size, funds: cost as u64, data: RecordData::Blank },
        )
    } else {
        records
    }
}

/// Whether `writer` may write to the record at `address`: the record exists
/// and `writer` is the program that owns it.
pub open spec fn may_write(records: Records, writer: Address, address: Address) -> bool {
    records.contains_key(address) && records[address].owner_program == writer
}

/// The records after `writer` has asked to set the contents of the record at
/// `address`.
pub open spec fn write_state(records: Records, writer: Address, address: Address, data: RecordData)
    -> Records {
    if may_write(records, writer, address) {
        records.insert(address, Record { data, ..records[address] })
    } else {
        records
    }
}

#[derive(Clone, Copy)]
struct Entry {
    address: Address,
    record: Record,
}

spec fn holds(entries: Seq<Entry>, address: Address) -> bool {
    exists|i: int| 0 <= i < entries.len() && (#[trigger] entries[i]).address == address
}

spec fn place(entries: Seq<Entry>, address: Address) -> int {
    choose|i: int| 0 <= i < entries.len() && (#[trigger] entries[i]).address == address
}

spec fn distinct(entries: Seq<Entry>) -> bool {
    forall|i: int, j: int|
        0 <= i < entries.len() && 0 <= j < entries.len() && i != j ==> (#[trigger] entries[i]).address
            != (#[trigger] entries[j]).address
}

spec fn as_map(entries: Seq<Entry>) -> Records {
    Map::new(|a: Address| holds(entries, a), |a: Address| entries[place(entries, a)].record)
}

proof fn lemma_at(entries: Seq<Entry>, i: int)
    requires
        distinct(entries),
        0 <= i < entries.len(),
    ensures
        holds(entries, entries[i].address),
        place(entries, entries[i].address) == i,
        as_map(entries).contains_key(entries[i].address),
        as_map(entries)[entries[i].address] == entries[i].record,
{
}

proof fn lemma_push(entries: Seq<Entry>, entry: Entry)
    requires
        distinct(entries),
        !holds(entries, entry.address),
    ensures
        distinct(entries.push(entry)),
        as_map(entries.push(entry)) == as_map(entries).insert(entry.address, entry.record),
{
    let after = entries.push(entry);
    assert forall|i: int, j: int|
        0 <= i < after.len() && 0 <= j < after.len() && i != j implies (#[trigger] after[i]).address
        != (#[trigger] after[j]).address by {
        if i < entries.len() {
            assert(after[i] == entries[i]);
        }
        if j < entries.len() {
            assert(after[j] == entries[j]);
        }
    }
    assert forall|a: Address| holds(after, a) <==> (holds(entries, a) || a == entry.address) by {
        if holds(entries, a) {
            let i = place(entries, a);
            assert(after[i].address == a);
        }
        if a == entry.address {
            assert(after[entries.len() as int].address == a);
        }
        if holds(after, a) {
            let i = place(after, a);
            if i < entries.len() {
                assert(entries[i].address == a);
            }
        }
    }
    assert forall|a: Address| holds(after, a) implies #[trigger] as_map(after)[a] == as_map(
        entries,
    ).insert(entry.address, entry.record)[a] by {
        let i = place(after, a);
        lemma_at(after, i);
        if i < entries.len() {
            assert(after[i] == entries[i]);
            lemma_at(entries, i);
        }
    }
    assert(as_map(after) =~= as_map(entries).insert(entry.address, entry.record));
}

proof fn lemma_update(entries: Seq<Entry>, i: int, record: Record)
    requires
        distinct(entries),
        0 <= i < entries.len(),
    ensures
        distinct(entries.update(i, Entry { address: entries[i].address, record })),
        as_map(entries.update(i, Entry { address: entries[i].address, record })) == as_map(
            entries,
        ).insert(entries[i].address, record),
{
    let address = entries[i].address;
    let after = entries.update(i, Entry { address, record });
    assert forall|j: int| 0 <= j < entries.len() implies (#[trigger] after[j]).address
        == entries[j].address by {}
    assert(distinct(after)) by {
        assert forall|j: int, k: int|
            0 <= j < after.len() && 0 <= k < after.len() && j != k implies (#[trigger] after[j]).address
            != (#[trigger] after[k]).address by {
            assert(after[j].address == entries[j].address);
            assert(after[k].address == entries[k].address);
        }
    }
    lemma_at(entries, i);
    assert forall|a: Address| holds(after, a) <==> holds(entries, a) by {
        if holds(entries, a) {
            let j = place(entries, a);
            assert(after[j].address == a);
        }
        if holds(after, a) {
            let j = place(after, a);
            assert(entries[j].address == a);
        }
    }
    assert forall|a: Address| holds(after, a) implies #[trigger] as_map(after)[a] == as_map(
        entries,
    ).insert(address, record)[a] by {
        let j = place(after, a);
        lemma_at(after, j);
        lemma_at(entries, j);
    }
    assert(as_map(after) =~= as_map(entries).insert(address, record));
}

/// The ledger's account store. Its records are found by address, and no
/// address holds two of them. Storage is paid for at a price per byte that is
/// fixed when the ledger is opened.
pub struct Ledger {
    entries: Vec<Entry>,
    price: u64,
}

impl View for Ledger {
    type V = Records;

    closed spec fn view(&self) -> Records {
        as_map(self.entries@)
    }
}

impl Ledger {
    /// No address holds two records.
    #[verifier::type_invariant]
    spec fn distinct_addresses(&self) -> bool {
        distinct(self.entries@)
    }

    /// The price of a byte of storage.
    pub closed spec fn byte_price(&self) -> u64 {
        self.price
    }

    /// An empty ledger on which a byte of storage costs `price`.
    pub fn new(price: u64) -> (ledger: Ledger)
        ensures
            ledger@ == Map::<Address, Record>::empty(),
            ledger.byte_price() == price,
    {
        let ledger = Ledger { entries: Vec::new(), price };
        assert(ledger@ =~= Map::<Address, Record>::empty());
        ledger
    }

    /// The price of a byte of storage.
    pub fn price(&self) -> (price: u64)
        ensures
            price == self.byte_price(),
    {
        self.price
    }

    /// Where the record at `address` is kept, if one stands there.
    fn find(&self, address: &Address) -> (at: Option<usize>)
        ensures
            match at {
                Some(i) => {
                    &&& i < self.entries.len()
                    &&& self.entries[i as int].address == *address
                    &&& self@.contains_key(*address)
                    &&& self@[*address] == self.entries[i as int].record
                },
                None => !self@.contains_key(*address),
            },
    {
        proof {
            use_type_invariant(self);
        }
        let mut i: usize = 0;
        while i < self.entries.len()
            invariant
                i <= self.entries.len(),
                distinct(self.entries@),
                forall|j: int| 0 <= j < i ==> (#[trigger] self.entries[j]).address != *address,
            decreases self.entries.len() - i,
        {
            if self.entries[i].address == *address {
                proof {
                    lemma_at(self.entries@, i as int);
                }
                return Some(i);
            }
            i += 1;
        }
        None
    }

    /// Puts `record` at `address`, which holds none.
    fn insert(&mut self, address: Address, record: Record)
        requires
            !old(self)@.contains_key(address),
        ensures
            final(self)@ == old(self)@.insert(address, record),
            final(self).byte_price() == old(self).byte_price(),
    {
        proof {
            use_type_invariant(&*self);
            lemma_push(self.entries@, Entry { address, record });
        }
        let mut entries: Vec<Entry> = Vec::new();
        core::mem::swap(&mut self.entries, &mut entries);
        entries.push(Entry { address, record });
        core::mem::swap(&mut self.entries, &mut entries);
    }

    /// Puts `record` in the place of the one kept at `i`.
    fn replace(&mut self, i: usize, record: Record)
        requires
            i < old(self).entries.len(),
        ensures
            final(self)@ == old(self)@.insert(old(self).entries[i as int].address, record),
            final(self).byte_price() == old(self).byte_price(),
    {
        proof {
            use_type_invariant(&*self);
            lemma_update(self.entries@, i as int, record);
        }
        let mut entries: Vec<Entry> = Vec::new();
        core::mem::swap(&mut self.entries, &mut entries);
        let address = entries[i].address;
        entries[i] = Entry { address, record };
        core::mem::swap(&mut self.entries, &mut entries);
    }

    /// Whether a record stands at `address`.
    pub fn record_exists(&self, address: &Address) -> (exists: bool)
        ensures
            exists == self@.contains_key(*address),
    {
        self.find(address).is_some()
    }

    /// The record at `address`, if one stands there.
    pub fn record(&self, address: &Address) -> (found: Option<Record>)
        ensures
            found == (if self@.contains_key(*address) {
                Some(self@[*address])
            } else {
                None
            }),
    {
        match self.find(address) {
            Some(i) => Some(self.entries[i].record),
            None => None,
        }
    }

    /// A copy of the ledger as it stands.
    pub fn snapshot(&self) -> (copy: Ledger)
        ensures
            copy@ == self@,
            copy.byte_price() == self.byte_price(),
    {
        proof {
            use_type_invariant(self);
        }
        let mut entries: Vec<Entry> = Vec::new();
        let mut i: usize = 0;
        while i < self.entries.len()
            invariant
                i <= self.entries.len(),
                entries@ == self.entries@.take(i as int),
            decreases self.entries.len() - i,
        {
            entries.push(self.entries[i]);
            i += 1;
            assert(entries@ =~= self.entries@.take(i as int));
        }
        assert(self.entries@.take(i as int) =~= self.entries@);
        Ledger { entries, price: self.price }
    }

    /// Adds `amount` to the funds at `wallet`, opening a plain wallet there
    /// if no record exists. Tells whether the funds were added: they are not
    /// where the record's funds would overflow.
    pub fn deposit(&mut self, wallet: &Address, amount: u64) -> (added: bool)
        ensures
            final(self).byte_price() == old(self).byte_price(),
            final(self)@ == deposit_state(old(self)@, *wallet, amount),
            added == (old(self)@.contains_key(*wallet) ==> old(self)@[*wallet].funds + amount
                <= u64::MAX),
    {
        match self.find(wallet) {
            Some(i) => {
                let held = self.entries[i].record;
                if amount > u64::MAX - held.funds {
                    return false;
                }
                self.replace(i, Record { funds: held.funds + amount, ..held });
            },
            None => {
                let opened = Record {
                    owner_program: system_program(),
                    size: 0,
                    funds: amount,
                    data: RecordData::Blank,
                };
                self.insert(*wallet, opened);
            },
        }
        true
    }

    /// Creates a blank record of `size` bytes at `address`, owned by
    /// `owner_program`, and moves the cost of its storage into it from the
    /// funds of `funding_signer`.
    pub fn create_record(
        &mut self,
        address: &Address,
        owner_program: &Address,
        size: u64,
        funding_signer: &Address,
    ) -> (r: Result<(), AccountError>)
        ensures
            final(self).byte_price() == old(self).byte_price(),
            r == create_record_result(
                old(self)@,
                old(self).byte_price(),
                *address,
                size,
                *funding_signer,
            ),
            final(self)@ == create_record_state(
                old(self)@,
                old(self).byte_price(),
                *address,
                *owner_program,
                size,
                *funding_signer,
            ),
    {
        if self.find(address).is_some() {
            return Err(AccountError::AccountAlreadyInitialized);
        }
        let payer = match self.find(funding_signer) {
            Some(i) => i,
            None => {
                return Err(AccountError::InsufficientFunds);
            },
        };
        let held = self.entries[payer].record;
        let cost = match size.checked_mul(self.price) {
            Some(cost) => cost,
            None => {
                return Err(AccountError::InsufficientFunds);
            },
        };
        if held.funds < cost {
            return Err(AccountError::InsufficientFunds);
        }
        self.replace(payer, Record { funds: held.funds - cost, ..held });
        let created = Record {
            owner_program: *owner_program,
            size,
            funds: cost,
            data: RecordData::Blank,
        };
        self.insert(*address, created);
        Ok(())
    }

    /// Sets the contents of the record at `address` on behalf of `writer`.
    /// Tells whether the contents were set: they are where the record exists
    /// and `writer` is the program that owns it.
    pub fn write(&mut self, writer: &Address, address: &Address, data: RecordData) -> (written:
        bool)
        ensures
            final(self).byte_price() == old(self).byte_price(),
            written == may_write(old(self)@, *writer, *address),
            final(self)@ == write_state(old(self)@, *writer, *address, data),
    {
        match self.find(address) {
            Some(i) => {
                let held = self.entries[i].record;
                if held.owner_program != *writer {
                    return false;
                }
                self.replace(i, Record { data, ..held });
                true
            },
            None => false,
        }
    }
}

/// The address of the system program: 32 zero bytes.
pub fn system_program() -> (address: Address)
    ensures
        address == system_address(),
{
    let address = Address::new([0u8; 32]);
    proof {
        assert(address@ =~= Seq::new(32, |i: int| 0u8));
        address.lemma_of_view();
    }
    address
}

} // verus!
