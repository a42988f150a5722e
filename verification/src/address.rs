//! Addresses, and the derivation of program-owned addresses from seeds.

use anchor_lang::prelude::Pubkey;
use vstd::prelude::*;
use vstd::std_specs::cmp::PartialEqSpecImpl;

verus! {

/// Number of bytes in an address.
pub const ADDRESS_BYTES: usize = 32;

/// Most seeds a derivation accepts, the disambiguator included.
pub const MAX_SEEDS: usize = 16;

/// Most bytes a single seed may hold.
pub const MAX_SEED_LEN: usize = 32;

/// The address of a record on the ledger.
#[derive(Clone, Copy, Debug)]
pub struct Address {
    pub bytes: [u8; 32],
}

impl View for Address {
    type V = Seq<u8>;

    open spec fn view(&self) -> Seq<u8> {
        self.bytes@
    }
}

impl Address {
    /// The address that is given by its 32 bytes.
    pub open spec fn of(bytes: Seq<u8>) -> Address {
        choose|a: Address| a@ == bytes
    }

    /// An address is determined by its bytes.
    pub proof fn lemma_of_view(self)
        ensures
            Address::of(self@) == self,
    {
        let other = Address::of(self@);
        assert(other@ == self@);
        assert(other.bytes =~= self.bytes);
    }

    /// The address with these bytes.
    pub fn new(bytes: [u8; 32]) -> (a: Address)
        ensures
            a.bytes == bytes,
    {
        Address { bytes }
    }

    /// The bytes of the address, as a seed for a derivation.
    pub fn to_seed(&self) -> (seed: Vec<u8>)
        ensures
            seed@ == self@,
    {
        let mut seed: Vec<u8> = Vec::new();
        let mut i: usize = 0;
        while i < 32
            invariant
                i <= 32,
                seed@ == self@.take(i as int),
            decreases 32 - i,
        {
            seed.push(self.bytes[i]);
            i += 1;
            assert(seed@ == self@.take(i as int));
        }
        assert(self@.take(32) == self@);
        seed
    }
}

impl PartialEq for Address {
    fn eq(&self, other: &Address) -> (same: bool) {
        let mut i: usize = 0;
        while i < 32
            invariant
                i <= 32,
                forall|j: int| 0 <= j < i ==> self.bytes[j] == other.bytes[j],
            decreases 32 - i,
        {
            if self.bytes[i] != other.bytes[i] {
                return false;
            }
            i += 1;
        }
        assert(self.bytes =~= other.bytes);
        true
    }
}

impl PartialEqSpecImpl for Address {
    open spec fn obeys_eq_spec() -> bool {
        true
    }

    open spec fn eq_spec(&self, other: &Address) -> bool {
        *self == *other
    }
}

impl Eq for Address {

}

/// The program address that a list of seeds derives under a program, where
/// there is one: the result of the platform's address function, which hashes
/// the seeds with the program's address and keeps the outcome only if no
/// private key can belong to it.
pub uninterp spec fn program_address(seeds: Seq<Seq<u8>>, program: Seq<u8>) -> Option<Seq<u8>>;

/// The bytes of each seed of a list.
pub open spec fn seed_bytes(seeds: Seq<Vec<u8>>) -> Seq<Seq<u8>> {
    Seq::new(seeds.len(), |i: int| seeds[i]@)
}

/// Whether a list of seeds is longer, or holds a longer seed, than a
/// derivation accepts.
pub open spec fn oversized(seeds: Seq<Seq<u8>>) -> bool {
    seeds.len() > MAX_SEEDS || exists|i: int|
        0 <= i < seeds.len() && (#[trigger] seeds[i]).len() > MAX_SEED_LEN
}

/// Calls `Pubkey::create_program_address` of `anchor_lang` on the seeds and
/// the program's address. Trusted, not proved: the call computes
/// `program_address` of the seeds' bytes and the program's bytes, returning
/// the address where there is one and nothing where there is none; and it
/// returns nothing for a seed list that is oversized.
#[verifier::external_body]
fn create_program_address(seeds: &Vec<Vec<u8>>, program: &Address) -> (r: Option<Address>)
    ensures
        match r {
            Some(a) => program_address(seed_bytes(seeds@), program@) == Some(a@),
            None => program_address(seed_bytes(seeds@), program@) is None,
        },
        oversized(seed_bytes(seeds@)) ==> r is None,
{
    let slices: Vec<&[u8]> = seeds.iter().map(|seed| seed.as_slice()).collect();
    match Pubkey::create_program_address(&slices, &Pubkey::new_from_array(program.bytes)) {
        Ok(key) => Some(Address { bytes: key.to_bytes() }),
        Err(_) => None,
    }
}

/// The seeds that a label and the seeds after it make with a disambiguator.
pub open spec fn seeds_with(label: Seq<u8>, extra: Seq<Seq<u8>>, bump: u8) -> Seq<Seq<u8>> {
    (seq![label] + extra).push(seq![bump])
}

/// The address that the seeds derive under `program` with the disambiguator
/// `bump`, where they derive one.
pub open spec fn candidate(label: Seq<u8>, extra: Seq<Seq<u8>>, bump: u8, program: Address)
    -> Option<Address> {
    match program_address(seeds_with(label, extra, bump), program@) {
        Some(bytes) => if bytes.len() == ADDRESS_BYTES {
            Some(Address::of(bytes))
        } else {
            None
        },
        None => None,
    }
}

/// Whether the label and the seeds after it leave no room for a
/// disambiguator, or one of them is too long to be a seed.
pub open spec fn too_long(label: Seq<u8>, extra: Seq<Seq<u8>>) -> bool {
    ||| extra.len() + 2 > MAX_SEEDS
    ||| label.len() > MAX_SEED_LEN
    ||| exists|i: int| 0 <= i < extra.len() && (#[trigger] extra[i]).len() > MAX_SEED_LEN
}

/// Seeds that are too long are oversized with any disambiguator.
proof fn lemma_too_long_is_oversized(label: Seq<u8>, extra: Seq<Seq<u8>>, bump: u8)
    requires
        too_long(label, extra),
    ensures
        oversized(seeds_with(label, extra, bump)),
{
    let seeds = seeds_with(label, extra, bump);
    if label.len() > MAX_SEED_LEN {
        assert(seeds[0] == label);
    } else if extra.len() + 2 <= MAX_SEEDS {
        let i = choose|i: int| 0 <= i < extra.len() && (#[trigger] extra[i]).len() > MAX_SEED_LEN;
        assert(seeds[i + 1] == extra[i]);
    }
}

/// `bump` is the lowest disambiguator with which the seeds derive a program
/// address.
pub open spec fn is_lowest_bump(label: Seq<u8>, extra: Seq<Seq<u8>>, program: Address, bump: u8)
    -> bool {
    &&& candidate(label, extra, bump, program) is Some
    &&& forall|b: u8| b < bump ==> candidate(label, extra, b, program) is None
}

/// The derived address and its disambiguator: the lowest one with which the
/// seeds derive a program address. `None` where no disambiguator does.
pub open spec fn derivation(label: Seq<u8>, extra: Seq<Seq<u8>>, program: Address) -> Option<
    (Address, u8),
> {
    if exists|b: u8| is_lowest_bump(label, extra, program, b) {
        let bump = choose|b: u8| is_lowest_bump(label, extra, program, b);
        Some((candidate(label, extra, bump, program)->0, bump))
    } else {
        None
    }
}

/// The only way a derivation fails: no disambiguator yields a program address.
#[derive(Clone, Copy, Debug, PartialEq, Eq, Structural)]
pub struct DerivationExhausted;

/// Whether `outcome` is how deriving from the label and the seeds under
/// `program` ends: with what `derivation` names, or exhausted where it names
/// nothing.
pub open spec fn is_derive_outcome(
    label: Seq<u8>,
    extra: Seq<Seq<u8>>,
    program: Address,
    outcome: Result<(Address, u8), DerivationExhausted>,
) -> bool {
    match outcome {
        Ok(found) => derivation(label, extra, program) == Some(found),
        Err(_) => derivation(label, extra, program) is None,
    }
}

/// Pushing a seed onto a list pushes its bytes onto the list's bytes.
proof fn lemma_seed_bytes_push(seeds: Seq<Vec<u8>>, seed: Vec<u8>)
    ensures
        seed_bytes(seeds.push(seed)) == seed_bytes(seeds).push(seed@),
{
    assert(seed_bytes(seeds.push(seed)) =~= seed_bytes(seeds).push(seed@));
}

/// The label followed by the seeds after it, each copied.
fn stem(label: &[u8], extra_seeds: &Vec<Vec<u8>>) -> (seeds: Vec<Vec<u8>>)
    ensures
        seed_bytes(seeds@) == seq![label@] + seed_bytes(extra_seeds@),
{
    let ghost extra = seed_bytes(extra_seeds@);
    let mut seeds: Vec<Vec<u8>> = Vec::new();
    seeds.push(vstd::slice::slice_to_vec(label));
    assert(seed_bytes(seeds@) =~= seq![label@] + extra.take(0));
    let mut i: usize = 0;
    while i < extra_seeds.len()
        invariant
            i <= extra_seeds.len(),
            extra == seed_bytes(extra_seeds@),
            seed_bytes(seeds@) == seq![label@] + extra.take(i as int),
        decreases extra_seeds.len() - i,
    {
        let ghost before = seeds@;
        let seed = vstd::slice::slice_to_vec(extra_seeds[i].as_slice());
        seeds.push(seed);
        proof {
            lemma_seed_bytes_push(before, seed);
            assert((seq![label@] + extra.take(i as int)).push(extra[i as int]) =~= seq![label@]
                + extra.take(i + 1));
        }
        i += 1;
    }
    assert(extra.take(i as int) =~= extra);
    seeds
}

/// Derives the program address of a label and the seeds after it, and the
/// disambiguator that makes it one.
pub fn derive(label: &[u8], extra_seeds: &Vec<Vec<u8>>, program: &Address) -> (r: Result<
    (Address, u8),
    DerivationExhausted,
>)
    ensures
        is_derive_outcome(label@, seed_bytes(extra_seeds@), *program, r),
        too_long(label@, seed_bytes(extra_seeds@)) ==> r is Err,
{
    let ghost extra = seed_bytes(extra_seeds@);
    let mut seeds = stem(label, extra_seeds);
    let mut bump: u8 = 0;
    loop
        invariant
            extra == seed_bytes(extra_seeds@),
            seed_bytes(seeds@) == seq![label@] + extra,
            forall|b: u8| b < bump ==> candidate(label@, extra, b, *program) is None,
        decreases 255 - bump,
    {
        let ghost before = seeds@;
        let last: Vec<u8> = vec![bump];
        seeds.push(last);
        proof {
            lemma_seed_bytes_push(before, last);
            assert(last@ =~= seq![bump]);
            if too_long(label@, extra) {
                lemma_too_long_is_oversized(label@, extra, bump);
            }
        }
        let tried = create_program_address(&seeds, program);
        seeds.pop();
        assert(seeds@ =~= before);
        match tried {
            Some(address) => {
                proof {
                    address.lemma_of_view();
                    assert(is_lowest_bump(label@, extra, *program, bump));
                    let chosen = choose|b: u8| is_lowest_bump(label@, extra, *program, b);
                    assert(chosen == bump);
                }
                return Ok((address, bump));
            },
            None => {},
        }
        if bump == 255 {
            return Err(DerivationExhausted);
        }
        bump += 1;
    }
}

/// Recomputes what the seeds derive with the disambiguator given, and tells
/// whether it is the address that is claimed.
pub fn verify(
    label: &[u8],
    extra_seeds: &Vec<Vec<u8>>,
    bump: u8,
    claimed: &Address,
    program: &Address,
) -> (genuine: bool)
    ensures
        genuine == (candidate(label@, seed_bytes(extra_seeds@), bump, *program) == Some(*claimed)),
        too_long(label@, seed_bytes(extra_seeds@)) ==> !genuine,
{
    let mut seeds = stem(label, extra_seeds);
    let ghost before = seeds@;
    let last: Vec<u8> = vec![bump];
    seeds.push(last);
    proof {
        lemma_seed_bytes_push(before, last);
        assert(last@ =~= seq![bump]);
        if too_long(label@, seed_bytes(extra_seeds@)) {
            lemma_too_long_is_oversized(label@, seed_bytes(extra_seeds@), bump);
        }
    }
    match create_program_address(&seeds, program) {
        Some(address) => {
            proof {
                address.lemma_of_view();
            }
            address == *claimed
        },
        None => false,
    }
}

} // verus!
