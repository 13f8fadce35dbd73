//! One shard's consumption loop as an explicit state machine. The reader
//! owns the iterator lifecycle and every decision: which cursor the next
//! fetch uses, how each record of a batch is decoded and dispatched, when
//! to pace, and when the shard is done. The driver around it performs the
//! network round trips and the pacing sleep, and hands each outcome in.
//!
//! A reader moves `Starting -> Polling -> Polling -> ... -> Closed`; a
//! fatal error from any call moves it to `Failed` instead. Malformed
//! records are never fatal: they are reported and skipped, and later
//! records of the batch are kept.

use vstd::prelude::*;

use crate::client::{record_views, FetchResponse, RawRecord, RawRecordView, StreamError};
use crate::event::{decode, decode_spec, event_result_view, DecodeError, Event, EventView};

verus! {

/// Why a shard reader stopped for good. Each is fatal for this reader
/// only: sibling readers are unaffected.
#[derive(Debug, PartialEq, Eq)]
pub enum ReaderError {
    /// The initial cursor could not be obtained: an unknown or expired
    /// shard is a permanent problem, so the reader fails before any fetch.
    CursorUnavailable(StreamError),
    /// A fetch call failed.
    FetchFailed(StreamError),
    /// The fan-in channel's consumer is gone, so no progress is possible.
    ChannelClosed,
}

/// Where a shard reader stands.
#[derive(Debug, PartialEq, Eq)]
pub enum ReaderState {
    /// Waiting for the initial trim-horizon cursor.
    Starting,
    /// Holding the cursor the next fetch must use. A cursor is used exactly
    /// once, then replaced by the response's cursor.
    Polling { cursor: String },
    /// The shard is exhausted: the normal end, not an error.
    Closed,
    /// A fatal error stopped this reader.
    Failed,
}

/// What the reader asks its driver to do after a batch.
#[derive(Debug, Clone, Copy, PartialEq, Eq, Structural)]
pub enum NextPoll {
    /// Fetch again with the reader's cursor after this many milliseconds:
    /// the pacing delay that respects the stream's per-shard read-rate
    /// ceiling.
    ContinueAfterDelay { delay_ms: u64 },
    /// The shard is closed; the reader is done, successfully.
    ShardClosed,
}

/// What one successful fetch produced: the events to publish, in record
/// order; the records that failed to decode, each with its payload and
/// error, in order; and what to do next.
#[derive(Debug, PartialEq, Eq)]
pub struct BatchOutcome {
    pub events: Vec<Event>,
    pub rejected: Vec<(Vec<u8>, DecodeError)>,
    pub next: NextPoll,
}

/// The events a batch's records decode to, in arrival order: a record that
/// fails to decode is skipped, and the others keep their order.
pub open spec fn decoded_events(rs: Seq<RawRecordView>) -> Seq<EventView>
    decreases rs.len(),
{
    if rs.len() == 0 {
        Seq::empty()
    } else {
        match decode_spec(rs[0].payload) {
            Ok(e) => seq![e] + decoded_events(rs.drop_first()),
            Err(_) => decoded_events(rs.drop_first()),
        }
    }
}

/// The records of a batch that fail to decode, with their errors, in
/// arrival order.
pub open spec fn rejected_records(rs: Seq<RawRecordView>) -> Seq<
    (Seq<u8>, DecodeError),
>
    decreases rs.len(),
{
    if rs.len() == 0 {
        Seq::empty()
    } else {
        match decode_spec(rs[0].payload) {
            Ok(_) => rejected_records(rs.drop_first()),
            Err(er) => seq![(rs[0].payload, er)] + rejected_records(rs.drop_first()),
        }
    }
}

/// The models of a sequence of events.
pub open spec fn event_views(s: Seq<Event>) -> Seq<EventView> {
    s.map_values(|e: Event| e@)
}

/// The models of a sequence of rejected records.
pub open spec fn rejected_views(s: Seq<(Vec<u8>, DecodeError)>) -> Seq<(Seq<u8>, DecodeError)> {
    s.map_values(|p: (Vec<u8>, DecodeError)| (p.0@, p.1))
}

/// One shard's reader: the shard identity, the configurable pacing delay,
/// and the state of the consumption loop.
pub struct KinesisShardReader {
    pub shard_id: String,
    pub poll_delay_ms: u64,
    pub state: ReaderState,
}

impl KinesisShardReader {
    /// A reader for one shard, yet to obtain its initial cursor.
    pub fn new(shard_id: String, poll_delay_ms: u64) -> (r: KinesisShardReader)
        ensures
            r.shard_id == shard_id,
            r.poll_delay_ms == poll_delay_ms,
            r.state is Starting,
    {
        KinesisShardReader { shard_id, poll_delay_ms, state: ReaderState::Starting }
    }

    /// The cursor the next fetch must use.
    pub fn cursor(&self) -> (r: &String)
        requires
            self.state is Polling,
        ensures
            self.state matches ReaderState::Polling { cursor } && *r == cursor,
    {
        match &self.state {
            ReaderState::Polling { cursor } => cursor,
            _ => unreached(),
        }
    }

    /// Outcome of the initial trim-horizon cursor request. On success the
    /// reader polls from it; on failure the reader fails fatally, with
    /// zero events published — it never retries.
    pub fn on_initial_cursor(&mut self, outcome: Result<String, StreamError>) -> (r: Result<
        (),
        ReaderError,
    >)
        requires
            old(self).state is Starting,
        ensures
            final(self).shard_id == old(self).shard_id,
            final(self).poll_delay_ms == old(self).poll_delay_ms,
            match outcome {
                Ok(cursor) => (final(self).state matches ReaderState::Polling { cursor: c }
                    && c == cursor) && r is Ok,
                Err(e) => final(self).state is Failed && (r matches Err(re) && re
                    == ReaderError::CursorUnavailable(e)),
            },
    {
        match outcome {
            Ok(cursor) => {
                self.state = ReaderState::Polling { cursor };
                Ok(())
            },
            Err(e) => {
                self.state = ReaderState::Failed;
                Err(ReaderError::CursorUnavailable(e))
            },
        }
    }

    /// Outcome of one fetch with the current cursor. A service error is
    /// fatal. Otherwise every record of the batch is decoded, in arrival
    /// order: the events to publish keep that order, and a record that
    /// fails to decode is reported and skipped, never aborting the loop
    /// nor dropping later records. The response's cursor replaces the
    /// spent one, to be used after the pacing delay; a response without
    /// one closes the shard — the normal end.
    pub fn on_fetch_result(&mut self, outcome: Result<FetchResponse, StreamError>) -> (r: Result<
        BatchOutcome,
        ReaderError,
    >)
        requires
            old(self).state is Polling,
        ensures
            final(self).shard_id == old(self).shard_id,
            final(self).poll_delay_ms == old(self).poll_delay_ms,
            match outcome {
                Ok(resp) => r matches Ok(b) && {
                    &&& event_views(b.events@) == decoded_events(record_views(resp.records@))
                    &&& rejected_views(b.rejected@) == rejected_records(
                        record_views(resp.records@),
                    )
                    &&& match resp.next_cursor {
                        Some(c) => (final(self).state matches ReaderState::Polling { cursor }
                            && cursor == c) && b.next == (NextPoll::ContinueAfterDelay {
                            delay_ms: old(self).poll_delay_ms,
                        }),
                        None => final(self).state is Closed && b.next == NextPoll::ShardClosed,
                    }
                },
                Err(e) => final(self).state is Failed && (r matches Err(re) && re
                    == ReaderError::FetchFailed(e)),
            },
    {
        match outcome {
            Ok(resp) => {
                let FetchResponse { records, next_cursor } = resp;
                let ghost rv = record_views(records@);
                let mut rem = records;
                let mut events: Vec<Event> = Vec::new();
                let mut rejected: Vec<(Vec<u8>, DecodeError)> = Vec::new();
                while rem.len() > 0
                    invariant
                        decoded_events(rv) == event_views(events@) + decoded_events(
                            record_views(rem@),
                        ),
                        rejected_records(rv) == rejected_views(rejected@) + rejected_records(
                            record_views(rem@),
                        ),
                    decreases rem.len(),
                {
                    let ghost rem_old = rem@;
                    let ghost events_old = events@;
                    let ghost rejected_old = rejected@;
                    let rec = rem.remove(0);
                    proof {
                        assert(record_views(rem@) =~= record_views(rem_old).drop_first());
                        assert(record_views(rem_old)[0] == rec@);
                    }
                    let RawRecord { sequence_number: _, partition_key: _, payload } = rec;
                    match decode(payload.as_slice()) {
                        Ok(event) => {
                            events.push(event);
                            proof {
                                assert(event_views(events@) =~= event_views(events_old).push(
                                    event@,
                                ));
                                assert(decoded_events(record_views(rem_old)) =~= seq![event@]
                                    + decoded_events(record_views(rem@)));
                                assert(event_views(events@) + decoded_events(record_views(rem@))
                                    =~= event_views(events_old) + decoded_events(
                                    record_views(rem_old),
                                ));
                            }
                        },
                        Err(er) => {
                            rejected.push((payload, er));
                            proof {
                                assert(rejected_views(rejected@) =~= rejected_views(
                                    rejected_old,
                                ).push((rejected@[rejected@.len() - 1].0@, er)));
                                assert(rejected_records(record_views(rem_old)) =~= seq![
                                    (rec@.payload, er),
                                ] + rejected_records(record_views(rem@)));
                                assert(rejected_views(rejected@) + rejected_records(
                                    record_views(rem@),
                                ) =~= rejected_views(rejected_old) + rejected_records(
                                    record_views(rem_old),
                                ));
                            }
                        },
                    }
                }
                proof {
                    assert(record_views(rem@) =~= Seq::<crate::client::RawRecordView>::empty());
                    assert(event_views(events@) =~= decoded_events(rv));
                    assert(rejected_views(rejected@) =~= rejected_records(rv));
                }
                let next = match next_cursor {
                    Some(c) => {
                        self.state = ReaderState::Polling { cursor: c };
                        NextPoll::ContinueAfterDelay { delay_ms: self.poll_delay_ms }
                    },
                    None => {
                        self.state = ReaderState::Closed;
                        NextPoll::ShardClosed
                    },
                };
                Ok(BatchOutcome { events, rejected, next })
            },
            Err(e) => {
                self.state = ReaderState::Failed;
                Err(ReaderError::FetchFailed(e))
            },
        }
    }

    /// The fan-in channel refused an event: the consumer is gone, and this
    /// reader can make no further progress.
    pub fn on_send_failure(&mut self) -> (r: ReaderError)
        ensures
            final(self).shard_id == old(self).shard_id,
            final(self).poll_delay_ms == old(self).poll_delay_ms,
            final(self).state is Failed,
            r == ReaderError::ChannelClosed,
    {
        self.state = ReaderState::Failed;
        ReaderError::ChannelClosed
    }
}

} // verus!
