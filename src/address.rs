use anchor_lang::prelude::Pubkey;
use vstd::prelude::*;
use vstd::utf8::encode_utf8;

verus! {

/// The most bytes that one seed of a program address may take.
pub const MAX_SEED_LEN: usize = 32;

/// The domain tag in front of the seeds of every record's address.
pub open spec fn memory_tag() -> Seq<u8> {
    encode_utf8("memory"@)
}

/// Bytes cut into seeds of at most `MAX_SEED_LEN` bytes, in order; bytes
/// that fit one seed stay whole, the empty sequence included.
pub open spec fn seed_chunks(bytes: Seq<u8>) -> Seq<Seq<u8>>
    decreases bytes.len(),
{
    if bytes.len() <= MAX_SEED_LEN {
        seq![bytes]
    } else {
        seq![bytes.take(MAX_SEED_LEN as int)] + seed_chunks(bytes.skip(MAX_SEED_LEN as int))
    }
}

/// The seeds of the address of a record: the domain tag, the submitter's
/// key, then the content identifier's bytes.
pub open spec fn memory_seeds(authority: Seq<u8>, cid: Seq<u8>) -> Seq<Seq<u8>> {
    seq![memory_tag(), authority] + seed_chunks(cid)
}

/// The seeds as byte sequences.
pub open spec fn seeds_view(seeds: Seq<Vec<u8>>) -> Seq<Seq<u8>> {
    seeds.map_values(|s: Vec<u8>| s@)
}

/// The program address, with its bump seed, that the seeds derive under a
/// program id, or `None` where no bump seed gives one.
pub uninterp spec fn program_address_of(seeds: Seq<Seq<u8>>, program_id: Seq<u8>) -> Option<(Seq<u8>, u8)>;

/// Relies on `Pubkey::try_find_program_address`: the program address and bump
/// seed that the seeds give under the program id, or `None` where none is found.
#[verifier::external_body]
fn try_find_program_address(seeds: &Vec<Vec<u8>>, program_id: &[u8; 32]) -> (r: Option<([u8; 32], u8)>)
    ensures
        match r {
            Some((address, bump)) => program_address_of(seeds_view(seeds@), program_id@) == Some((address@, bump)),
            None => program_address_of(seeds_view(seeds@), program_id@) is None,
        },
{
    let refs: Vec<&[u8]> = seeds.iter().map(|s| s.as_slice()).collect();
    Pubkey::try_find_program_address(&refs, &Pubkey::new_from_array(*program_id)).map(
        |(key, bump)| (key.to_bytes(), bump),
    )
}

fn copy_range(bytes: &[u8], lo: usize, hi: usize) -> (r: Vec<u8>)
    requires
        lo <= hi <= bytes@.len(),
    ensures
        r@ == bytes@.subrange(lo as int, hi as int),
{
    let mut r: Vec<u8> = Vec::new();
    let mut i: usize = lo;
    while i < hi
        invariant
            lo <= i <= hi <= bytes@.len(),
            r@ == bytes@.subrange(lo as int, i as int),
        decreases hi - i,
    {
        r.push(bytes[i]);
        i = i + 1;
        assert(r@ =~= bytes@.subrange(lo as int, i as int));
    }
    r
}

/// The seeds of the address of a record, each within `MAX_SEED_LEN` bytes.
pub fn memory_seeds_of(authority: &[u8; 32], cid: &str) -> (r: Vec<Vec<u8>>)
    ensures
        seeds_view(r@) == memory_seeds(authority@, encode_utf8(cid@)),
{
    let mut seeds: Vec<Vec<u8>> = Vec::new();
    let tag = "memory".as_bytes();
    seeds.push(copy_range(tag, 0, tag.len()));
    assert(tag@.subrange(0, tag@.len() as int) =~= tag@);
    seeds.push(copy_range(authority.as_slice(), 0, 32));
    assert(authority@.subrange(0, 32) =~= authority@);
    let bytes = cid.as_bytes();
    let ghost all = bytes@;
    let mut start: usize = 0;
    assert(all.skip(0) =~= all);
    assert(seeds_view(seeds@) =~= seq![memory_tag(), authority@]);
    while bytes.len() - start > MAX_SEED_LEN
        invariant
            start <= bytes@.len(),
            bytes@ == all,
            seeds_view(seeds@) + seed_chunks(all.skip(start as int)) == memory_seeds(
                authority@,
                all,
            ),
        decreases bytes@.len() - start,
    {
        let ghost rest = all.skip(start as int);
        let chunk = copy_range(bytes, start, start + MAX_SEED_LEN);
        assert(chunk@ =~= rest.take(MAX_SEED_LEN as int));
        assert(rest.skip(MAX_SEED_LEN as int) =~= all.skip(start + MAX_SEED_LEN));
        let ghost before = seeds_view(seeds@);
        seeds.push(chunk);
        assert(seeds_view(seeds@) =~= before.push(chunk@));
        assert(seed_chunks(rest) == seq![chunk@] + seed_chunks(all.skip(start + MAX_SEED_LEN)));
        assert(before + seed_chunks(rest) =~= before.push(chunk@) + seed_chunks(
            all.skip(start + MAX_SEED_LEN),
        ));
        start = start + MAX_SEED_LEN;
    }
    let ghost before = seeds_view(seeds@);
    let chunk = copy_range(bytes, start, bytes.len());
    assert(chunk@ =~= all.skip(start as int));
    seeds.push(chunk);
    assert(seeds_view(seeds@) =~= before + seed_chunks(all.skip(start as int)));
    seeds
}

/// The address of the record that `authority` stores under `cid`, derived
/// under `program_id`.
pub fn derive_address(program_id: &[u8; 32], authority: &[u8; 32], cid: &str) -> (r: Option<[u8; 32]>)
    ensures
        match program_address_of(memory_seeds(authority@, encode_utf8(cid@)), program_id@) {
            Some((address, _)) => r is Some && r->0@ == address,
            None => r is None,
        },
{
    let seeds = memory_seeds_of(authority, cid);
    match try_find_program_address(&seeds, program_id) {
        Some((address, _)) => Some(address),
        None => None,
    }
}

} // verus!
