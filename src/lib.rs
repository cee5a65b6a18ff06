//! A content-addressed store of memory records: a content identifier and a
//! few tags, bound to the key of the party that submitted them and stamped
//! with the time of creation.
use vstd::prelude::*;

pub mod address;
pub mod error;
pub mod record;
pub mod store;

pub use address::derive_address;
pub use error::ErrorCode;
pub use record::{max_record_size, MemoryIndex};
pub use store::{store_memory, store_memory_at, RecordStore};

verus! {

/// The bootstrap entry point: it confirms that the program is reachable and
/// changes nothing.
pub fn initialize() -> (r: Result<(), error::ErrorCode>)
    ensures
        r is Ok,
{
    Ok(())
}

} // verus!
