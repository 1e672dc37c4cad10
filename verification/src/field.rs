//! The field codec: fixed-width fields, each a one-byte header tag followed
//! by a fixed-size body.

use vstd::prelude::*;

verus! {

/// Bytes taken by the header tag at the start of every field.
pub const HEADER_SIZE: usize = 1;

/// Classification of a field's role within the buffer.
#[derive(Clone, Copy, Debug, PartialEq, Eq, Structural)]
pub enum Header {
    /// The slot was never written; the field is free.
    Uninitialized,
    /// The field starts a logical record.
    Inserted,
    /// The field continues the record started by the nearest preceding
    /// `Inserted` field.
    Continued,
    /// The slot held a record that was removed; the field is free.
    Deleted,
}

/// The header tag a byte decodes to, or `None` when the byte is not a tag.
pub open spec fn spec_header_of(b: u8) -> Option<Header> {
    if b == 0 {
        Some(Header::Uninitialized)
    } else if b == 1 {
        Some(Header::Inserted)
    } else if b == 2 {
        Some(Header::Continued)
    } else if b == 3 {
        Some(Header::Deleted)
    } else {
        None
    }
}

/// A free tag marks a slot that holds no live data.
pub open spec fn is_free(h: Header) -> bool {
    h is Uninitialized || h is Deleted
}

/// A live tag marks a slot folded into some record's run.
pub open spec fn is_live(h: Header) -> bool {
    h is Inserted || h is Continued
}

/// The byte at `pos` decodes to a live header tag.
pub open spec fn live_at(data: Seq<u8>, pos: int) -> bool {
    spec_header_of(data[pos]) matches Some(t) && is_live(t)
}

/// Decodes one header byte.
pub fn decode_header(b: u8) -> (r: Option<Header>)
    ensures
        r == spec_header_of(b),
{
    match b {
        0 => Some(Header::Uninitialized),
        1 => Some(Header::Inserted),
        2 => Some(Header::Continued),
        3 => Some(Header::Deleted),
        _ => None,
    }
}

/// Total bytes per field: the header tag followed by the body.
pub fn field_size(body_size: usize) -> (r: usize)
    requires
        body_size < usize::MAX,
    ensures
        r == body_size + 1,
{
    HEADER_SIZE + body_size
}

} // verus!
