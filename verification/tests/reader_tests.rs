use stream_bridge::client::{
    cursor_from_response, shard_ids_from_description, FetchResponse, RawRecord, StreamError,
};
use stream_bridge::dispatcher::Dispatcher;
use stream_bridge::event::{AccountEvent, DecodeError, Event};
use stream_bridge::reader::{KinesisShardReader, NextPoll, ReaderError, ReaderState};

fn account_record(seq: &str, account_id: u64) -> RawRecord {
    RawRecord {
        sequence_number: seq.to_string(),
        partition_key: "pk".to_string(),
        payload: format!(r#"{{"AccountId":{}}}"#, account_id).into_bytes(),
    }
}

fn malformed_record(seq: &str) -> RawRecord {
    RawRecord {
        sequence_number: seq.to_string(),
        partition_key: "pk".to_string(),
        payload: b"not json".to_vec(),
    }
}

fn account_event(account_id: u64) -> Event {
    Event::Account(AccountEvent {
        account_id,
        event_data: Vec::new(),
    })
}

#[test]
fn shard_reader_drains_a_shard_in_order_then_closes() {
    // A batch of three valid records, then an empty batch with no next
    // cursor: exactly three events, in order, two fetches, a pacing delay
    // between them, and a successful close.
    let mut reader = KinesisShardReader::new("shard-000".to_string(), 200);
    reader
        .on_initial_cursor(Ok("cursor-0".to_string()))
        .expect("initial cursor accepted");
    assert_eq!(reader.cursor(), "cursor-0");

    let first = reader
        .on_fetch_result(Ok(FetchResponse {
            records: vec![
                account_record("1", 11),
                account_record("2", 12),
                account_record("3", 13),
            ],
            next_cursor: Some("cursor-1".to_string()),
        }))
        .expect("first fetch succeeds");
    assert_eq!(
        first.events,
        vec![account_event(11), account_event(12), account_event(13)]
    );
    assert!(first.rejected.is_empty());
    // The reader asks for the pacing delay before the second fetch.
    assert_eq!(first.next, NextPoll::ContinueAfterDelay { delay_ms: 200 });
    assert_eq!(reader.cursor(), "cursor-1");

    let second = reader
        .on_fetch_result(Ok(FetchResponse {
            records: Vec::new(),
            next_cursor: None,
        }))
        .expect("second fetch succeeds");
    assert!(second.events.is_empty());
    assert!(second.rejected.is_empty());
    assert_eq!(second.next, NextPoll::ShardClosed);
    assert_eq!(reader.state, ReaderState::Closed);
}

#[test]
fn shard_reader_skips_a_malformed_record_and_keeps_going() {
    // One valid, one malformed, one valid, in a single batch: two events,
    // in order, one reported decode failure, and the loop goes on.
    let mut reader = KinesisShardReader::new("shard-000".to_string(), 200);
    reader
        .on_initial_cursor(Ok("cursor-0".to_string()))
        .expect("initial cursor accepted");

    let batch = reader
        .on_fetch_result(Ok(FetchResponse {
            records: vec![
                account_record("1", 21),
                malformed_record("2"),
                account_record("3", 23),
            ],
            next_cursor: Some("cursor-1".to_string()),
        }))
        .expect("fetch succeeds");
    assert_eq!(batch.events, vec![account_event(21), account_event(23)]);
    assert_eq!(
        batch.rejected,
        vec![(b"not json".to_vec(), DecodeError::MalformedPayload)]
    );
    assert_eq!(batch.next, NextPoll::ContinueAfterDelay { delay_ms: 200 });
    assert!(matches!(reader.state, ReaderState::Polling { .. }));
}

#[test]
fn shard_reader_fails_fatally_without_an_initial_cursor() {
    let mut reader = KinesisShardReader::new("shard-000".to_string(), 200);
    let result = reader.on_initial_cursor(Err(StreamError::ServiceError(
        "Failed to call `GetShardIterator`".to_string(),
    )));
    assert_eq!(
        result,
        Err(ReaderError::CursorUnavailable(StreamError::ServiceError(
            "Failed to call `GetShardIterator`".to_string()
        )))
    );
    assert_eq!(reader.state, ReaderState::Failed);
}

#[test]
fn shard_reader_fails_fatally_on_a_fetch_error() {
    let mut reader = KinesisShardReader::new("shard-000".to_string(), 200);
    reader
        .on_initial_cursor(Ok("cursor-0".to_string()))
        .expect("initial cursor accepted");
    let result = reader.on_fetch_result(Err(StreamError::ServiceError(
        "Failed to call `GetRecords`".to_string(),
    )));
    assert_eq!(
        result,
        Err(ReaderError::FetchFailed(StreamError::ServiceError(
            "Failed to call `GetRecords`".to_string()
        )))
    );
    assert_eq!(reader.state, ReaderState::Failed);
}

#[test]
fn shard_reader_treats_a_refused_send_as_fatal() {
    let mut reader = KinesisShardReader::new("shard-000".to_string(), 200);
    reader
        .on_initial_cursor(Ok("cursor-0".to_string()))
        .expect("initial cursor accepted");
    assert_eq!(reader.on_send_failure(), ReaderError::ChannelClosed);
    assert_eq!(reader.state, ReaderState::Failed);
}

#[test]
fn two_readers_interleave_but_keep_per_shard_order() {
    // Two shard readers publish two events each into the fan-in channel,
    // interleaved. The consumer receives all four, and each shard's pair
    // keeps its relative order.
    let mut first = KinesisShardReader::new("shard-001".to_string(), 200);
    let mut second = KinesisShardReader::new("shard-002".to_string(), 200);
    first.on_initial_cursor(Ok("a0".to_string())).unwrap();
    second.on_initial_cursor(Ok("b0".to_string())).unwrap();

    let first_batch = first
        .on_fetch_result(Ok(FetchResponse {
            records: vec![account_record("1", 101), account_record("2", 102)],
            next_cursor: None,
        }))
        .unwrap();
    let second_batch = second
        .on_fetch_result(Ok(FetchResponse {
            records: vec![account_record("1", 201), account_record("2", 202)],
            next_cursor: None,
        }))
        .unwrap();

    let mut channel = Dispatcher::new();
    let mut first_events = first_batch.events.into_iter();
    let mut second_events = second_batch.events.into_iter();
    // One of the many possible interleavings.
    channel.send(first_events.next().unwrap()).unwrap();
    channel.send(second_events.next().unwrap()).unwrap();
    channel.send(second_events.next().unwrap()).unwrap();
    channel.send(first_events.next().unwrap()).unwrap();

    let mut received = Vec::new();
    while let Some(event) = channel.recv() {
        received.push(event);
    }
    assert_eq!(received.len(), 4);
    let ids: Vec<u64> = received
        .iter()
        .map(|e| match e {
            Event::Account(a) => a.account_id,
            Event::Project(_) => panic!("unexpected project event"),
        })
        .collect();
    let first_order: Vec<u64> = ids.iter().copied().filter(|i| *i < 200).collect();
    let second_order: Vec<u64> = ids.iter().copied().filter(|i| *i >= 200).collect();
    assert_eq!(first_order, vec![101, 102]);
    assert_eq!(second_order, vec![201, 202]);
}

#[test]
fn dispatcher_refuses_sends_after_close_but_still_drains() {
    let mut channel = Dispatcher::new();
    channel.send(account_event(1)).unwrap();
    channel.close();
    // The severed sink hands the event back.
    assert_eq!(channel.send(account_event(2)), Err(account_event(2)));
    assert_eq!(channel.recv(), Some(account_event(1)));
    assert_eq!(channel.recv(), None);
}

#[test]
fn stream_responses_are_checked_for_presence() {
    assert_eq!(
        cursor_from_response(Some("cursor-7".to_string())),
        Ok("cursor-7".to_string())
    );
    assert_eq!(cursor_from_response(None), Err(StreamError::MissingCursor));
    assert_eq!(
        shard_ids_from_description(Some(vec!["shard-000".to_string()])),
        Ok(vec!["shard-000".to_string()])
    );
    assert_eq!(
        shard_ids_from_description(None),
        Err(StreamError::MissingShardList)
    );
}
