use vstd::prelude::*;

verus! {

/// The ways in which storing a memory record can fail.
#[derive(Clone, Copy, Debug, PartialEq, Eq, Structural)]
pub enum ErrorCode {
    /// The content identifier is longer than `MAX_CID_LEN` bytes.
    CidTooLong,
    /// There are more than `MAX_TAGS` tags.
    TooManyTags,
    /// Some tag is longer than `MAX_TAG_LEN` bytes.
    TagTooLong,
    /// A record already occupies the target address.
    AddressAlreadyOccupied,
    /// No program address could be derived from the seeds.
    AddressNotDerivable,
}

impl ErrorCode {
    pub open spec fn spec_message(self) -> Seq<char> {
        match self {
            ErrorCode::CidTooLong => "CID is too long, maximum 100 characters"@,
            ErrorCode::TooManyTags => "Too many tags, maximum 20 tags"@,
            ErrorCode::TagTooLong => "Tag is too long, maximum 50 characters"@,
            ErrorCode::AddressAlreadyOccupied => "The target address already holds a record"@,
            ErrorCode::AddressNotDerivable => "Unable to find a viable program address"@,
        }
    }

    /// The message shown to the caller for this error.
    pub fn message(&self) -> (r: String)
        ensures
            r@ == self.spec_message(),
    {
        match self {
            ErrorCode::CidTooLong => String::from_str("CID is too long, maximum 100 characters"),
            ErrorCode::TooManyTags => String::from_str("Too many tags, maximum 20 tags"),
            ErrorCode::TagTooLong => String::from_str("Tag is too long, maximum 50 characters"),
            ErrorCode::AddressAlreadyOccupied => String::from_str(
                "The target address already holds a record",
            ),
            ErrorCode::AddressNotDerivable => String::from_str(
                "Unable to find a viable program address",
            ),
        }
    }
}

} // verus!
