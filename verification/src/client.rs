//! The checking half of the stream client. The three stream operations —
//! describe the stream, obtain an initial cursor, fetch the next batch —
//! are single network round trips made by the surrounding program; their
//! responses come here as plain values and are validated by these verified
//! functions.

use vstd::prelude::*;

verus! {

/// Why a stream operation failed. Any of these is fatal to the affected
/// shard reader; retry policy belongs to a wrapping layer.
#[derive(Debug, PartialEq, Eq)]
pub enum StreamError {
    /// The service call itself failed; the text says which call and why.
    ServiceError(String),
    /// A describe-stream response carried no shard list.
    MissingShardList,
    /// A get-iterator response carried no cursor: the shard has no
    /// retrievable start.
    MissingCursor,
}

/// A record handed back by a fetch call: produced by one fetch, consumed
/// immediately by decode, never retained.
#[derive(Debug, PartialEq, Eq)]
pub struct RawRecord {
    pub sequence_number: String,
    pub partition_key: String,
    pub payload: Vec<u8>,
}

/// The model of a [`RawRecord`].
#[verifier::ext_equal]
pub struct RawRecordView {
    pub sequence_number: Seq<char>,
    pub partition_key: Seq<char>,
    pub payload: Seq<u8>,
}

impl View for RawRecord {
    type V = RawRecordView;

    open spec fn view(&self) -> RawRecordView {
        RawRecordView {
            sequence_number: self.sequence_number@,
            partition_key: self.partition_key@,
            payload: self.payload@,
        }
    }
}

/// The models of a batch of records, in arrival order.
pub open spec fn record_views(s: Seq<RawRecord>) -> Seq<RawRecordView> {
    s.map_values(|r: RawRecord| r@)
}

/// What a fetch call yields on success: the records in shard order, and
/// the cursor for the next read — absent exactly when the shard is
/// permanently closed, which is the normal terminal condition, not an
/// error.
#[derive(Debug, PartialEq, Eq)]
pub struct FetchResponse {
    pub records: Vec<RawRecord>,
    pub next_cursor: Option<String>,
}

/// Check a describe-stream response: succeeds with the shard list exactly
/// when the response carried one.
pub fn shard_ids_from_description(shard_ids: Option<Vec<String>>) -> (r: Result<
    Vec<String>,
    StreamError,
>)
    ensures
        match shard_ids {
            Some(ids) => r matches Ok(out) && out == ids,
            None => r matches Err(e) && e is MissingShardList,
        },
{
    match shard_ids {
        Some(ids) => Ok(ids),
        None => Err(StreamError::MissingShardList),
    }
}

/// Check a get-iterator response: succeeds with the cursor exactly when the
/// response carried one.
pub fn cursor_from_response(shard_iterator: Option<String>) -> (r: Result<String, StreamError>)
    ensures
        match shard_iterator {
            Some(c) => r matches Ok(out) && out == c,
            None => r matches Err(e) && e is MissingCursor,
        },
{
    match shard_iterator {
        Some(c) => Ok(c),
        None => Err(StreamError::MissingCursor),
    }
}

} // verus!
