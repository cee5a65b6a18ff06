use crate::address::{derive_address, memory_seeds, program_address_of};
use crate::error::ErrorCode;
use crate::record::{
    byte_len, str_byte_len, tags_view, within_bounds, MemoryIndex, MemoryRecord, MAX_CID_LEN, MAX_TAGS,
    MAX_TAG_LEN,
};
use vstd::prelude::*;
use vstd::utf8::encode_utf8;

verus! {

/// The first bound that the content identifier and the tags break, checked
/// in the order content identifier, tag count, then each tag.
pub open spec fn validation_error(cid: Seq<char>, tags: Seq<Seq<char>>) -> Option<ErrorCode> {
    if byte_len(cid) > MAX_CID_LEN {
        Some(ErrorCode::CidTooLong)
    } else if tags.len() > MAX_TAGS {
        Some(ErrorCode::TooManyTags)
    } else if exists|i: int| 0 <= i < tags.len() && byte_len(#[trigger] tags[i]) > MAX_TAG_LEN {
        Some(ErrorCode::TagTooLong)
    } else {
        None
    }
}

/// What storing a record at `address` gives: the result, and the records
/// after the call.
pub open spec fn store_at_outcome(
    records: Map<Seq<u8>, MemoryRecord>,
    address: Seq<u8>,
    authority: Seq<u8>,
    cid: Seq<char>,
    tags: Seq<Seq<char>>,
    timestamp: int,
) -> (Result<(), ErrorCode>, Map<Seq<u8>, MemoryRecord>) {
    match validation_error(cid, tags) {
        Some(e) => (Err(e), records),
        None => if records.contains_key(address) {
            (Err(ErrorCode::AddressAlreadyOccupied), records)
        } else {
            (
                Ok(()),
                records.insert(
                    address,
                    MemoryRecord { cid, tags, timestamp, authority },
                ),
            )
        },
    }
}

/// The records held at their addresses, later entries over earlier ones.
pub open spec fn entries_map(entries: Seq<([u8; 32], MemoryIndex)>) -> Map<
    Seq<u8>,
    MemoryRecord,
>
    decreases entries.len(),
{
    if entries.len() == 0 {
        Map::empty()
    } else {
        entries_map(entries.drop_last()).insert(entries.last().0@, entries.last().1@)
    }
}

/// The records stored so far, each at its address. A record is created once
/// and never changed.
pub struct RecordStore {
    entries: Vec<([u8; 32], MemoryIndex)>,
}

impl View for RecordStore {
    type V = Map<Seq<u8>, MemoryRecord>;

    closed spec fn view(&self) -> Map<Seq<u8>, MemoryRecord> {
        entries_map(self.entries@)
    }
}

proof fn lemma_entries_map_keys(entries: Seq<([u8; 32], MemoryIndex)>, k: Seq<u8>)
    ensures
        entries_map(entries).contains_key(k) <==> exists|i: int|
            0 <= i < entries.len() && (#[trigger] entries[i]).0@ == k,
    decreases entries.len(),
{
    if entries.len() > 0 {
        let rest = entries.drop_last();
        lemma_entries_map_keys(rest, k);
        if exists|i: int| 0 <= i < rest.len() && (#[trigger] rest[i]).0@ == k {
            let i = choose|i: int| 0 <= i < rest.len() && (#[trigger] rest[i]).0@ == k;
            assert(entries[i] == rest[i]);
        }
        if exists|i: int| 0 <= i < entries.len() && (#[trigger] entries[i]).0@ == k {
            let i = choose|i: int| 0 <= i < entries.len() && (#[trigger] entries[i]).0@ == k;
            if i < rest.len() {
                assert(rest[i] == entries[i]);
            }
        }
    }
}

proof fn lemma_entries_map_value(entries: Seq<([u8; 32], MemoryIndex)>, i: int)
    requires
        0 <= i < entries.len(),
        forall|j: int| 0 <= j < entries.len() && j != i ==> (#[trigger] entries[j]).0@ != entries[i].0@,
    ensures
        entries_map(entries).contains_key(entries[i].0@),
        entries_map(entries)[entries[i].0@] == entries[i].1@,
    decreases entries.len(),
{
    let rest = entries.drop_last();
    if i < rest.len() {
        assert forall|j: int| 0 <= j < rest.len() && j != i implies (#[trigger] rest[j]).0@
            != rest[i].0@ by {
            assert(rest[j] == entries[j]);
        }
        lemma_entries_map_value(rest, i);
        assert(entries[entries.len() - 1].0@ != entries[i].0@);
    }
}

fn same_key(a: &[u8; 32], b: &[u8; 32]) -> (r: bool)
    ensures
        r == (a@ == b@),
{
    let mut i: usize = 0;
    while i < 32
        invariant
            i <= 32,
            a@.len() == 32,
            b@.len() == 32,
            forall|j: int| 0 <= j < i ==> a@[j] == b@[j],
        decreases 32 - i,
    {
        if a[i] != b[i] {
            return false;
        }
        i = i + 1;
    }
    assert(a@ =~= b@);
    true
}

impl RecordStore {
    /// Addresses are unique among the entries.
    pub closed spec fn wf(&self) -> bool {
        forall|i: int, j: int|
            0 <= i < self.entries@.len() && 0 <= j < self.entries@.len() && i != j
                ==> (#[trigger] self.entries@[i]).0@ != (#[trigger] self.entries@[j]).0@
    }

    /// An empty store.
    pub fn new() -> (r: RecordStore)
        ensures
            r.wf(),
            r@ == Map::<Seq<u8>, MemoryRecord>::empty(),
    {
        RecordStore { entries: Vec::new() }
    }

    fn find(&self, address: &[u8; 32]) -> (r: Option<usize>)
        ensures
            match r {
                Some(i) => i < self.entries@.len() && self.entries@[i as int].0@ == address@,
                None => forall|i: int|
                    0 <= i < self.entries@.len() ==> (#[trigger] self.entries@[i]).0@ != address@,
            },
    {
        let mut i: usize = 0;
        while i < self.entries.len()
            invariant
                i <= self.entries@.len(),
                forall|j: int| 0 <= j < i ==> (#[trigger] self.entries@[j]).0@ != address@,
            decreases self.entries@.len() - i,
        {
            if same_key(&self.entries[i].0, address) {
                return Some(i);
            }
            i = i + 1;
        }
        None
    }

    /// Whether a record occupies `address`.
    pub fn contains(&self, address: &[u8; 32]) -> (r: bool)
        ensures
            r == self@.contains_key(address@),
    {
        proof {
            lemma_entries_map_keys(self.entries@, address@);
        }
        self.find(address).is_some()
    }

    /// The record at `address`, if one is there.
    pub fn get(&self, address: &[u8; 32]) -> (r: Option<&MemoryIndex>)
        requires
            self.wf(),
        ensures
            r is Some <==> self@.contains_key(address@),
            r is Some ==> self@[address@] == r->0@,
    {
        proof {
            lemma_entries_map_keys(self.entries@, address@);
        }
        match self.find(address) {
            Some(i) => {
                proof {
                    lemma_entries_map_value(self.entries@, i as int);
                }
                Some(&self.entries[i].1)
            },
            None => None,
        }
    }

    /// Creates `record` at `address` if no record is there, and fails with
    /// `AddressAlreadyOccupied` otherwise, leaving the store as it was.
    pub fn create(&mut self, address: [u8; 32], record: MemoryIndex) -> (r: Result<(), ErrorCode>)
        requires
            old(self).wf(),
        ensures
            final(self).wf(),
            old(self)@.contains_key(address@) ==> r == Err::<(), ErrorCode>(
                ErrorCode::AddressAlreadyOccupied,
            ) && final(self)@ == old(self)@,
            !old(self)@.contains_key(address@) ==> r == Ok::<(), ErrorCode>(()) && final(self)@ == old(self)@.insert(
                address@,
                record@,
            ),
    {
        proof {
            lemma_entries_map_keys(self.entries@, address@);
        }
        if self.find(&address).is_some() {
            return Err(ErrorCode::AddressAlreadyOccupied);
        }
        let ghost before = self.entries@;
        self.entries.push((address, record));
        proof {
            assert(self.entries@.drop_last() == before);
            assert forall|i: int, j: int|
                0 <= i < self.entries@.len() && 0 <= j < self.entries@.len() && i != j
                    implies (#[trigger] self.entries@[i]).0@ != (#[trigger] self.entries@[j]).0@ by {
                if i < before.len() && j < before.len() {
                    assert(self.entries@[i] == before[i]);
                    assert(self.entries@[j] == before[j]);
                } else if i < before.len() {
                    assert(self.entries@[i] == before[i]);
                } else {
                    assert(self.entries@[j] == before[j]);
                }
            }
        }
        Ok(())
    }
}

/// Checks the content identifier and the tags against their bounds: the
/// content identifier first, then the number of tags, then each tag in order.
pub fn validate(cid: &String, tags: &Vec<String>) -> (r: Result<(), ErrorCode>)
    ensures
        match validation_error(cid@, tags_view(tags@)) {
            Some(e) => r == Err::<(), ErrorCode>(e),
            None => r is Ok,
        },
{
    let ghost tv = tags_view(tags@);
    assert(tv.len() == tags@.len());
    if str_byte_len(cid.as_str()) > MAX_CID_LEN {
        return Err(ErrorCode::CidTooLong);
    }
    if tags.len() > MAX_TAGS {
        return Err(ErrorCode::TooManyTags);
    }
    let mut i: usize = 0;
    while i < tags.len()
        invariant
            i <= tags@.len(),
            tv == tags_view(tags@),
            tv.len() == tags@.len(),
            byte_len(cid@) <= MAX_CID_LEN,
            tags@.len() <= MAX_TAGS,
            forall|j: int| 0 <= j < i ==> byte_len(#[trigger] tv[j]) <= MAX_TAG_LEN,
        decreases tags@.len() - i,
    {
        assert(tv[i as int] == tags@[i as int]@);
        if str_byte_len(tags[i].as_str()) > MAX_TAG_LEN {
            assert(byte_len(tv[i as int]) > MAX_TAG_LEN);
            return Err(ErrorCode::TagTooLong);
        }
        i = i + 1;
    }
    Ok(())
}

/// Stores a memory record at a given address: the bounds are checked first,
/// then the record is created there, stamped with `timestamp` and bound to
/// `authority`, unless a record occupies the address already. A failed call
/// leaves the store as it was.
pub fn store_memory_at(
    store: &mut RecordStore,
    address: [u8; 32],
    authority: [u8; 32],
    cid: String,
    tags: Vec<String>,
    timestamp: i64,
) -> (r: Result<(), ErrorCode>)
    requires
        old(store).wf(),
    ensures
        final(store).wf(),
        (r, final(store)@) == store_at_outcome(
            old(store)@,
            address@,
            authority@,
            cid@,
            tags_view(tags@),
            timestamp as int,
        ),
{
    if let Err(e) = validate(&cid, &tags) {
        return Err(e);
    }
    let ghost expected = MemoryRecord {
        cid: cid@,
        tags: tags_view(tags@),
        timestamp: timestamp as int,
        authority: authority@,
    };
    let record = MemoryIndex { cid, tags, timestamp, authority };
    assert(record@ == expected);
    store.create(address, record)
}

/// What storing a record does at the address that `authority` and the bytes
/// of `cid` derive under `program_id`: the result, and the records after the
/// call.
pub open spec fn store_outcome(
    records: Map<Seq<u8>, MemoryRecord>,
    program_id: Seq<u8>,
    authority: Seq<u8>,
    cid: Seq<char>,
    tags: Seq<Seq<char>>,
    timestamp: int,
) -> (Result<Seq<u8>, ErrorCode>, Map<Seq<u8>, MemoryRecord>) {
    match validation_error(cid, tags) {
        Some(e) => (Err(e), records),
        None => match program_address_of(memory_seeds(authority, encode_utf8(cid)), program_id) {
            None => (Err(ErrorCode::AddressNotDerivable), records),
            Some((address, _)) => {
                let (r, after) = store_at_outcome(records, address, authority, cid, tags, timestamp);
                match r {
                    Ok(_) => (Ok(address), after),
                    Err(e) => (Err(e), after),
                }
            },
        },
    }
}

/// Stores a memory record at the address derived from `authority` and `cid`
/// under `program_id`, and returns that address. The bounds are checked
/// before the address is derived.
pub fn store_memory(
    store: &mut RecordStore,
    program_id: &[u8; 32],
    authority: [u8; 32],
    cid: String,
    tags: Vec<String>,
    timestamp: i64,
) -> (r: Result<[u8; 32], ErrorCode>)
    requires
        old(store).wf(),
    ensures
        final(store).wf(),
        ({
            let (res, after) = store_outcome(
                old(store)@,
                program_id@,
                authority@,
                cid@,
                tags_view(tags@),
                timestamp as int,
            );
            &&& final(store)@ == after
            &&& match res {
                Ok(address) => r is Ok && r->Ok_0@ == address,
                Err(e) => r == Err::<[u8; 32], ErrorCode>(e),
            }
        }),
{
    if let Err(e) = validate(&cid, &tags) {
        return Err(e);
    }
    let address = match derive_address(program_id, &authority, cid.as_str()) {
        Some(address) => address,
        None => {
            return Err(ErrorCode::AddressNotDerivable);
        },
    };
    match store_memory_at(store, address, authority, cid, tags, timestamp) {
        Ok(()) => Ok(address),
        Err(e) => Err(e),
    }
}


/// Storing a content identifier and tags within their bounds at a free
/// address succeeds, and the record there then holds exactly the inputs, the
/// timestamp and the submitter; nothing else changes.
pub proof fn lemma_store_at_valid_creates(
    records: Map<Seq<u8>, MemoryRecord>,
    address: Seq<u8>,
    authority: Seq<u8>,
    cid: Seq<char>,
    tags: Seq<Seq<char>>,
    timestamp: int,
)
    requires
        within_bounds(cid, tags),
        !records.contains_key(address),
    ensures
        store_at_outcome(records, address, authority, cid, tags, timestamp) == (
        Ok::<(), ErrorCode>(()),
        records.insert(address, MemoryRecord { cid, tags, timestamp, authority }),
        ),
{
}

/// Storing inputs within their bounds succeeds at the derived address when
/// it is free, and the record there then holds exactly the inputs, the
/// timestamp and the submitter.
pub proof fn lemma_store_valid_creates(
    records: Map<Seq<u8>, MemoryRecord>,
    program_id: Seq<u8>,
    authority: Seq<u8>,
    cid: Seq<char>,
    tags: Seq<Seq<char>>,
    timestamp: int,
    address: Seq<u8>,
    bump: u8,
)
    requires
        within_bounds(cid, tags),
        program_address_of(memory_seeds(authority, encode_utf8(cid)), program_id) == Some(
            (address, bump),
        ),
        !records.contains_key(address),
    ensures
        store_outcome(records, program_id, authority, cid, tags, timestamp) == (
        Ok::<Seq<u8>, ErrorCode>(address),
        records.insert(address, MemoryRecord { cid, tags, timestamp, authority }),
        ),
{
}

/// Inputs that break a bound are refused with the error of the first bound
/// they break, and the store is left as it was, at every address.
pub proof fn lemma_store_at_invalid_refused(
    records: Map<Seq<u8>, MemoryRecord>,
    address: Seq<u8>,
    authority: Seq<u8>,
    cid: Seq<char>,
    tags: Seq<Seq<char>>,
    timestamp: int,
)
    requires
        !within_bounds(cid, tags),
    ensures
        store_at_outcome(records, address, authority, cid, tags, timestamp).1 == records,
        byte_len(cid) > MAX_CID_LEN ==> store_at_outcome(
            records,
            address,
            authority,
            cid,
            tags,
            timestamp,
        ).0 == Err::<(), ErrorCode>(ErrorCode::CidTooLong),
        byte_len(cid) <= MAX_CID_LEN && tags.len() > MAX_TAGS ==> store_at_outcome(
            records,
            address,
            authority,
            cid,
            tags,
            timestamp,
        ).0 == Err::<(), ErrorCode>(ErrorCode::TooManyTags),
        byte_len(cid) <= MAX_CID_LEN && tags.len() <= MAX_TAGS ==> store_at_outcome(
            records,
            address,
            authority,
            cid,
            tags,
            timestamp,
        ).0 == Err::<(), ErrorCode>(ErrorCode::TagTooLong),
{
}

/// Inputs that break a bound are refused, with the error of the first bound
/// they break, before any address is derived, and the store is left as it was.
pub proof fn lemma_store_invalid_refused(
    records: Map<Seq<u8>, MemoryRecord>,
    program_id: Seq<u8>,
    authority: Seq<u8>,
    cid: Seq<char>,
    tags: Seq<Seq<char>>,
    timestamp: int,
)
    requires
        !within_bounds(cid, tags),
    ensures
        store_outcome(records, program_id, authority, cid, tags, timestamp).1 == records,
        byte_len(cid) > MAX_CID_LEN ==> store_outcome(
            records,
            program_id,
            authority,
            cid,
            tags,
            timestamp,
        ).0 == Err::<Seq<u8>, ErrorCode>(ErrorCode::CidTooLong),
        byte_len(cid) <= MAX_CID_LEN && tags.len() > MAX_TAGS ==> store_outcome(
            records,
            program_id,
            authority,
            cid,
            tags,
            timestamp,
        ).0 == Err::<Seq<u8>, ErrorCode>(ErrorCode::TooManyTags),
        byte_len(cid) <= MAX_CID_LEN && tags.len() <= MAX_TAGS ==> store_outcome(
            records,
            program_id,
            authority,
            cid,
            tags,
            timestamp,
        ).0 == Err::<Seq<u8>, ErrorCode>(ErrorCode::TagTooLong),
{
}

/// Two stores at one address: the first, within bounds at a free address,
/// succeeds; the second, with any inputs within bounds, fails with
/// `AddressAlreadyOccupied`, and the records after both are those after the
/// first alone.
pub proof fn lemma_store_at_twice(
    records: Map<Seq<u8>, MemoryRecord>,
    address: Seq<u8>,
    authority: Seq<u8>,
    cid: Seq<char>,
    tags: Seq<Seq<char>>,
    timestamp: int,
    authority2: Seq<u8>,
    cid2: Seq<char>,
    tags2: Seq<Seq<char>>,
    timestamp2: int,
)
    requires
        within_bounds(cid, tags),
        within_bounds(cid2, tags2),
        !records.contains_key(address),
    ensures
        ({
            let (r1, after1) = store_at_outcome(records, address, authority, cid, tags, timestamp);
            let (r2, after2) = store_at_outcome(
                after1,
                address,
                authority2,
                cid2,
                tags2,
                timestamp2,
            );
            &&& r1 is Ok
            &&& r2 == Err::<(), ErrorCode>(ErrorCode::AddressAlreadyOccupied)
            &&& after2 == after1
        }),
{
}

/// Storing twice with the same submitter and content identifier: where the
/// first call succeeds, the second, with any tags within bounds and any
/// timestamp, fails with `AddressAlreadyOccupied` and changes nothing.
pub proof fn lemma_store_twice(
    records: Map<Seq<u8>, MemoryRecord>,
    program_id: Seq<u8>,
    authority: Seq<u8>,
    cid: Seq<char>,
    tags: Seq<Seq<char>>,
    timestamp: int,
    tags2: Seq<Seq<char>>,
    timestamp2: int,
)
    requires
        within_bounds(cid, tags2),
        store_outcome(records, program_id, authority, cid, tags, timestamp).0 is Ok,
    ensures
        ({
            let (r1, after1) = store_outcome(records, program_id, authority, cid, tags, timestamp);
            let (r2, after2) = store_outcome(
                after1,
                program_id,
                authority,
                cid,
                tags2,
                timestamp2,
            );
            &&& r2 == Err::<Seq<u8>, ErrorCode>(ErrorCode::AddressAlreadyOccupied)
            &&& after2 == after1
        }),
{
}

} // verus!
