use vstd::prelude::*;
use vstd::utf8::encode_utf8;

verus! {

/// The most bytes a content identifier may take.
pub const MAX_CID_LEN: usize = 100;

/// The most tags a record may carry.
pub const MAX_TAGS: usize = 20;

/// The most bytes a single tag may take.
pub const MAX_TAG_LEN: usize = 50;

/// The bytes that name the kind of account in front of its data.
pub const DISCRIMINATOR_LEN: usize = 8;

/// The bytes of the length in front of a string or a sequence.
pub const LEN_PREFIX: usize = 4;

/// The bytes of a timestamp.
pub const TIMESTAMP_LEN: usize = 8;

/// The bytes of a public key.
pub const KEY_LEN: usize = 32;

/// The length of a string in bytes, as UTF-8 encodes it.
pub open spec fn byte_len(s: Seq<char>) -> nat {
    encode_utf8(s).len()
}

/// The length of `s` in bytes.
pub fn str_byte_len(s: &str) -> (r: usize)
    ensures
        r == byte_len(s@),
{
    s.as_bytes().len()
}

/// The tags as sequences of characters.
pub open spec fn tags_view(tags: Seq<String>) -> Seq<Seq<char>> {
    tags.map_values(|t: String| t@)
}

/// What a stored memory record holds.
pub struct MemoryRecord {
    pub cid: Seq<char>,
    pub tags: Seq<Seq<char>>,
    pub timestamp: int,
    pub authority: Seq<u8>,
}

/// Whether the content identifier and the tags keep within their bounds.
pub open spec fn within_bounds(cid: Seq<char>, tags: Seq<Seq<char>>) -> bool {
    &&& byte_len(cid) <= MAX_CID_LEN
    &&& tags.len() <= MAX_TAGS
    &&& forall|i: int| 0 <= i < tags.len() ==> byte_len(#[trigger] tags[i]) <= MAX_TAG_LEN
}

/// The bytes that a sequence of tags takes when serialized, length prefixes
/// included, without the prefix of the sequence itself.
pub open spec fn tags_size(tags: Seq<Seq<char>>) -> int
    decreases tags.len(),
{
    if tags.len() == 0 {
        0
    } else {
        tags_size(tags.drop_last()) + LEN_PREFIX + byte_len(tags.last())
    }
}

/// The bytes that a record takes when serialized into its account.
pub open spec fn serialized_size(r: MemoryRecord) -> int {
    DISCRIMINATOR_LEN + LEN_PREFIX + byte_len(r.cid) + LEN_PREFIX + tags_size(r.tags)
        + TIMESTAMP_LEN + KEY_LEN
}

/// A memory record: a reference to content held elsewhere, its tags, when it
/// was stored, and who stored it.
pub struct MemoryIndex {
    pub cid: String,
    pub tags: Vec<String>,
    pub timestamp: i64,
    pub authority: [u8; 32],
}

impl View for MemoryIndex {
    type V = MemoryRecord;

    open spec fn view(&self) -> MemoryRecord {
        MemoryRecord {
            cid: self.cid@,
            tags: tags_view(self.tags@),
            timestamp: self.timestamp as int,
            authority: self.authority@,
        }
    }
}

impl MemoryIndex {
    /// The space reserved for a record: the account discriminator, the
    /// content identifier and every tag at their largest with their length
    /// prefixes, the timestamp and the authority.
    pub const SPACE: usize = DISCRIMINATOR_LEN + LEN_PREFIX + MAX_CID_LEN + LEN_PREFIX + (
    LEN_PREFIX + MAX_TAG_LEN) * MAX_TAGS + TIMESTAMP_LEN + KEY_LEN;

    /// Whether the record keeps within the bounds of its fields.
    pub open spec fn is_valid(&self) -> bool {
        within_bounds(self.cid@, tags_view(self.tags@))
    }

    /// The bytes that this record takes when serialized.
    pub fn serialized_len(&self) -> (r: usize)
        requires
            self.is_valid(),
        ensures
            r == serialized_size(self@),
    {
        let ghost tags = tags_view(self.tags@);
        let mut total: usize = 0;
        let mut i: usize = 0;
        while i < self.tags.len()
            invariant
                i <= self.tags@.len(),
                tags == tags_view(self.tags@),
                within_bounds(self.cid@, tags),
                tags.len() == self.tags@.len(),
                total == tags_size(tags.take(i as int)),
                total <= i * (LEN_PREFIX + MAX_TAG_LEN),
            decreases self.tags@.len() - i,
        {
            assert(tags.take(i as int + 1).drop_last() == tags.take(i as int));
            assert(tags[i as int] == self.tags@[i as int]@);
            assert(byte_len(tags[i as int]) <= MAX_TAG_LEN);
            let n = str_byte_len(self.tags[i].as_str());
            assert(n <= MAX_TAG_LEN);
            assert(i < MAX_TAGS);
            assert(total + LEN_PREFIX + n <= (i + 1) * (LEN_PREFIX + MAX_TAG_LEN)) by (nonlinear_arith)
                requires
                    total <= i * (LEN_PREFIX + MAX_TAG_LEN),
                    n <= MAX_TAG_LEN,
            ;
            assert((i + 1) * (LEN_PREFIX + MAX_TAG_LEN) <= MAX_TAGS * (LEN_PREFIX + MAX_TAG_LEN))
                by (nonlinear_arith)
                requires
                    i < MAX_TAGS,
            ;
            total = total + LEN_PREFIX + n;
            i = i + 1;
        }
        assert(tags.take(i as int) == tags);
        DISCRIMINATOR_LEN + LEN_PREFIX + str_byte_len(self.cid.as_str()) + LEN_PREFIX + total
            + TIMESTAMP_LEN + KEY_LEN
    }
}

/// The space that storage reserves for a record before its contents are
/// known.
pub fn max_record_size() -> (r: usize)
    ensures
        r == MemoryIndex::SPACE,
        r == DISCRIMINATOR_LEN + LEN_PREFIX + MAX_CID_LEN + LEN_PREFIX + MAX_TAGS * (LEN_PREFIX
            + MAX_TAG_LEN) + TIMESTAMP_LEN + KEY_LEN,
{
    MemoryIndex::SPACE
}

proof fn lemma_tags_size_bound(tags: Seq<Seq<char>>)
    requires
        forall|i: int| 0 <= i < tags.len() ==> byte_len(#[trigger] tags[i]) <= MAX_TAG_LEN,
    ensures
        0 <= tags_size(tags) <= tags.len() * (LEN_PREFIX + MAX_TAG_LEN),
    decreases tags.len(),
{
    if tags.len() > 0 {
        let rest = tags.drop_last();
        assert forall|i: int| 0 <= i < rest.len() implies byte_len(#[trigger] rest[i])
            <= MAX_TAG_LEN by {
            assert(rest[i] == tags[i]);
        }
        lemma_tags_size_bound(rest);
        assert(byte_len(tags.last()) <= MAX_TAG_LEN);
    }
}

/// No record within the bounds of its fields takes more bytes than the
/// space reserved for one.
pub proof fn lemma_space_covers_valid_records(r: MemoryRecord)
    requires
        within_bounds(r.cid, r.tags),
    ensures
        serialized_size(r) <= MemoryIndex::SPACE,
{
    lemma_tags_size_bound(r.tags);
    assert(r.tags.len() * (LEN_PREFIX + MAX_TAG_LEN) <= MAX_TAGS * (LEN_PREFIX + MAX_TAG_LEN))
        by (nonlinear_arith)
        requires
            r.tags.len() <= MAX_TAGS,
    ;
}

} // verus!
