//! Derived addresses: a campaign's address follows from its owner and name,
//! and a vault's address from its campaign, so neither is ever chosen by a
//! caller.

use vstd::prelude::*;
use vstd::utf8::encode_utf8;
use crate::address::Address;
use anchor_lang::prelude::Pubkey;

verus! {

/// The address and bump that the program `program_id` derives from `seeds`,
/// or `None` where the seeds admit no derived address.
pub uninterp spec fn program_address(seeds: Seq<Seq<u8>>, program_id: Seq<u8>) -> Option<
    (Seq<u8>, u8),
>;

/// The seed label of campaign addresses, the ASCII bytes of `campaign`.
pub open spec fn campaign_label() -> Seq<u8> {
    seq![99u8, 97u8, 109u8, 112u8, 97u8, 105u8, 103u8, 110u8]
}

/// The seed label of vault addresses, the ASCII bytes of `vault`.
pub open spec fn vault_label() -> Seq<u8> {
    seq![118u8, 97u8, 117u8, 108u8, 116u8]
}

/// The seeds of the campaign that `owner` creates under `name`.
pub open spec fn campaign_seeds(owner: Seq<u8>, name: Seq<char>) -> Seq<Seq<u8>> {
    seq![campaign_label(), owner, encode_utf8(name)]
}

/// The seeds of the vault of the campaign at `campaign`.
pub open spec fn vault_seeds(campaign: Seq<u8>) -> Seq<Seq<u8>> {
    seq![vault_label(), campaign]
}

/// A derived address as contracts speak of it: the address by its bytes.
pub open spec fn derived_view(d: Option<(Address, u8)>) -> Option<(Seq<u8>, u8)> {
    match d {
        Some((address, bump)) => Some((address@, bump)),
        None => None,
    }
}

/// The address of a derivation; the empty sequence where there is none.
pub open spec fn derived_address(d: Option<(Seq<u8>, u8)>) -> Seq<u8> {
    match d {
        Some((address, _)) => address,
        None => Seq::empty(),
    }
}

/// The bump of a derivation; zero where there is none.
pub open spec fn derived_bump(d: Option<(Seq<u8>, u8)>) -> u8 {
    match d {
        Some((_, bump)) => bump,
        None => 0,
    }
}

/// Calls `Pubkey::try_find_program_address`, which hashes the seeds, a bump
/// byte and the program's address, lowering the bump from 255 until the hash
/// is no point of the curve. The contract claims only that the outcome is a
/// function of the seeds and the program's address.
#[verifier::external_body]
fn find_program_address(seeds: &Vec<Vec<u8>>, program_id: &Address) -> (r: Option<(Address, u8)>)
    ensures
        derived_view(r) == program_address(seeds.deep_view(), program_id@),
{
    let parts: Vec<&[u8]> = seeds.iter().map(|s| s.as_slice()).collect();
    let id = Pubkey::new_from_array(program_id.bytes);
    match Pubkey::try_find_program_address(&parts, &id) {
        Some((key, bump)) => Some((Address { bytes: key.to_bytes() }, bump)),
        None => None,
    }
}

/// The bytes of an address, as a seed.
fn address_seed(address: &Address) -> (r: Vec<u8>)
    ensures
        r@ == address@,
{
    let mut r: Vec<u8> = Vec::new();
    let mut i: usize = 0;
    while i < 32
        invariant
            i <= 32,
            r@ == address@.subrange(0, i as int),
        decreases 32 - i,
    {
        r.push(address.bytes[i]);
        assert(r@ == address@.subrange(0, i + 1));
        i += 1;
    }
    assert(r@ == address@);
    r
}

/// Derives the address of the campaign that `owner` creates under `name`.
pub fn campaign_address(program_id: &Address, owner: &Address, name: &str) -> (r: Option<
    (Address, u8),
>)
    ensures
        derived_view(r) == program_address(campaign_seeds(owner@, name@), program_id@),
{
    let label: Vec<u8> = vec![99u8, 97u8, 109u8, 112u8, 97u8, 105u8, 103u8, 110u8];
    let seeds: Vec<Vec<u8>> = vec![label, address_seed(owner), name.as_bytes_vec()];
    assert(seeds.deep_view() =~~= campaign_seeds(owner@, name@));
    find_program_address(&seeds, program_id)
}

/// Derives the address of the vault of the campaign at `campaign`.
pub fn vault_address(program_id: &Address, campaign: &Address) -> (r: Option<(Address, u8)>)
    ensures
        derived_view(r) == program_address(vault_seeds(campaign@), program_id@),
{
    let label: Vec<u8> = vec![118u8, 97u8, 117u8, 108u8, 116u8];
    let seeds: Vec<Vec<u8>> = vec![label, address_seed(campaign)];
    assert(seeds.deep_view() =~~= vault_seeds(campaign@));
    find_program_address(&seeds, program_id)
}

} // verus!
