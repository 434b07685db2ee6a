use nakadion::nakadi::batch::lineparsing::{
    find, members, nested_end, object, parse_line, scalar_end, skip_ws, span_is, string_end,
    value_end, ParseError,
};
use nakadion::nakadi::batch::{same_bytes, Batch, BatchLine};

fn line(text: &str) -> Vec<u8> {
    text.as_bytes().to_vec()
}

const FULL: &str = r#"{"cursor":{"partition":"5","offset":"543","event_type":"order.ORDER_RECEIVED","cursor_token":"b75c3102-98a4-4385-a5fd-b96f1d7872f2"},"events":[{"metadata":{"occurred_at":"1996-10-15T16:39:57+07:00","eid":"1f5a76d8-db49-4144-ace7-e683e8ff4ba4","event_type":"aruha-test-hila","partition":"5"},"data_op":"C","data":{"order_number":"abc","id":"111"},"data_type":"blah"}],"info":{"debug":"Stream started"}}"#;

#[test]
fn parses_a_full_batch_line() {
    let parsed = BatchLine::new(line(FULL)).unwrap();
    assert_eq!(parsed.bytes(), FULL.as_bytes());
    assert_eq!(
        parsed.cursor(),
        &br#"{"partition":"5","offset":"543","event_type":"order.ORDER_RECEIVED","cursor_token":"b75c3102-98a4-4385-a5fd-b96f1d7872f2"}"#[..]
    );
    assert_eq!(parsed.partition(), &b"5"[..]);
    assert_eq!(parsed.event_type(), &b"order.ORDER_RECEIVED"[..]);
    assert_eq!(
        parsed.events().unwrap(),
        &br#"[{"metadata":{"occurred_at":"1996-10-15T16:39:57+07:00","eid":"1f5a76d8-db49-4144-ace7-e683e8ff4ba4","event_type":"aruha-test-hila","partition":"5"},"data_op":"C","data":{"order_number":"abc","id":"111"},"data_type":"blah"}]"#[..]
    );
    assert_eq!(parsed.info().unwrap(), &br#"{"debug":"Stream started"}"#[..]);
    assert!(!parsed.is_keep_alive_line());
}

#[test]
fn a_line_without_events_is_a_keep_alive() {
    let text = r#"{"cursor":{"partition":"0","offset":"7","event_type":"A","cursor_token":"x"}}"#;
    let parsed = BatchLine::new(line(text)).unwrap();
    assert!(parsed.is_keep_alive_line());
    assert!(parsed.events().is_none());
    assert!(parsed.info().is_none());
    assert_eq!(parsed.partition(), &b"0"[..]);
    assert_eq!(parsed.event_type(), &b"A"[..]);
}

#[test]
fn a_keep_alive_may_carry_info() {
    let text = r#"{"cursor":{"partition":"0","offset":"7","event_type":"A"},"info":"hello"}"#;
    let parsed = BatchLine::new(line(text)).unwrap();
    assert!(parsed.is_keep_alive_line());
    assert_eq!(parsed.info().unwrap(), &br#""hello""#[..]);
}

#[test]
fn whitespace_between_tokens_is_skipped() {
    let text = " {\t\"events\" : [ 1 , 2 ] ,\r\n \"cursor\" : { \"event_type\" : \"A\" , \"partition\" : \"12\" } } \n";
    let parsed = BatchLine::new(line(text)).unwrap();
    assert_eq!(parsed.cursor(), &b"{ \"event_type\" : \"A\" , \"partition\" : \"12\" }"[..]);
    assert_eq!(parsed.partition(), &b"12"[..]);
    assert_eq!(parsed.event_type(), &b"A"[..]);
    assert_eq!(parsed.events().unwrap(), &b"[ 1 , 2 ]"[..]);
}

#[test]
fn brackets_and_quotes_inside_strings_do_not_count() {
    let text = r#"{"cursor":{"partition":"0","event_type":"A","note":"}]\"{["},"events":["a]b","c\\"]}"#;
    let parsed = BatchLine::new(line(text)).unwrap();
    assert_eq!(
        parsed.cursor(),
        &br#"{"partition":"0","event_type":"A","note":"}]\"{["}"#[..]
    );
    assert_eq!(parsed.events().unwrap(), &br#"["a]b","c\\"]"#[..]);
}

#[test]
fn the_first_of_two_equal_keys_counts() {
    let text = r#"{"cursor":{"partition":"1","partition":"2","event_type":"A"},"events":[1],"events":[2]}"#;
    let parsed = BatchLine::new(line(text)).unwrap();
    assert_eq!(parsed.partition(), &b"1"[..]);
    assert_eq!(parsed.events().unwrap(), &b"[1]"[..]);
}

#[test]
fn an_empty_events_array_is_no_keep_alive() {
    let text = r#"{"cursor":{"partition":"1","event_type":"A"},"events":[]}"#;
    let parsed = BatchLine::new(line(text)).unwrap();
    assert!(!parsed.is_keep_alive_line());
    assert_eq!(parsed.events().unwrap(), &b"[]"[..]);
}

#[test]
fn rejects_what_is_not_an_object() {
    assert_eq!(BatchLine::new(line("")).unwrap_err(), ParseError::NotAnObject);
    assert_eq!(BatchLine::new(line("   ")).unwrap_err(), ParseError::NotAnObject);
    assert_eq!(BatchLine::new(line("[1,2]")).unwrap_err(), ParseError::NotAnObject);
    assert_eq!(BatchLine::new(line(r#"{"cursor":{}"#)).unwrap_err(), ParseError::NotAnObject);
    assert_eq!(BatchLine::new(line(r#"{"cursor" {}}"#)).unwrap_err(), ParseError::NotAnObject);
    assert_eq!(BatchLine::new(line(r#"{"cursor":{},}"#)).unwrap_err(), ParseError::NotAnObject);
    assert_eq!(BatchLine::new(line(r#"{"a":"unterminated}"#)).unwrap_err(), ParseError::NotAnObject);
    assert_eq!(BatchLine::new(line(r#"{"a":1} x"#)).unwrap_err(), ParseError::NotAnObject);
    assert_eq!(BatchLine::new(line(r#"{cursor:1}"#)).unwrap_err(), ParseError::NotAnObject);
}

#[test]
fn rejects_a_line_without_cursor() {
    assert_eq!(BatchLine::new(line("{}")).unwrap_err(), ParseError::NoCursor);
    assert_eq!(BatchLine::new(line(r#"{"events":[]}"#)).unwrap_err(), ParseError::NoCursor);
    assert_eq!(
        BatchLine::new(line(r#"{"Cursor":{"partition":"1","event_type":"A"}}"#)).unwrap_err(),
        ParseError::NoCursor
    );
}

#[test]
fn rejects_a_cursor_that_is_no_object() {
    assert_eq!(
        BatchLine::new(line(r#"{"cursor":"c1"}"#)).unwrap_err(),
        ParseError::CursorNotAnObject
    );
    assert_eq!(BatchLine::new(line(r#"{"cursor":[1]}"#)).unwrap_err(), ParseError::CursorNotAnObject);
    assert_eq!(BatchLine::new(line(r#"{"cursor":17}"#)).unwrap_err(), ParseError::CursorNotAnObject);
    assert_eq!(
        BatchLine::new(line(r#"{"cursor":{"partition" "1"}}"#)).unwrap_err(),
        ParseError::CursorNotAnObject
    );
}

#[test]
fn rejects_a_cursor_without_partition_or_event_type() {
    assert_eq!(BatchLine::new(line(r#"{"cursor":{}}"#)).unwrap_err(), ParseError::NoPartition);
    assert_eq!(
        BatchLine::new(line(r#"{"cursor":{"event_type":"A"}}"#)).unwrap_err(),
        ParseError::NoPartition
    );
    assert_eq!(
        BatchLine::new(line(r#"{"cursor":{"partition":1,"event_type":"A"}}"#)).unwrap_err(),
        ParseError::NoPartition
    );
    assert_eq!(
        BatchLine::new(line(r#"{"cursor":{"partition":"1"}}"#)).unwrap_err(),
        ParseError::NoEventType
    );
    assert_eq!(
        BatchLine::new(line(r#"{"cursor":{"partition":"1","event_type":{}}}"#)).unwrap_err(),
        ParseError::NoEventType
    );
}

#[test]
fn rejects_events_that_are_no_array() {
    assert_eq!(
        BatchLine::new(line(r#"{"cursor":{"partition":"1","event_type":"A"},"events":{}}"#))
            .unwrap_err(),
        ParseError::EventsNotAnArray
    );
    assert_eq!(
        BatchLine::new(line(r#"{"cursor":{"partition":"1","event_type":"A"},"events":"x"}"#))
            .unwrap_err(),
        ParseError::EventsNotAnArray
    );
}

#[test]
fn parse_line_gives_the_places_of_the_parts() {
    let text = br#"{"cursor":{"partition":"0","event_type":"A"},"events":[1],"info":7}"#;
    let items = parse_line(text).unwrap();
    assert_eq!(items.cursor, (10, 44));
    assert_eq!(&text[items.partition.0..items.partition.1], &b"0"[..]);
    assert_eq!(items.partition, (24, 25));
    assert_eq!(items.event_type, (41, 42));
    assert_eq!(items.events, Some((54, 57)));
    assert_eq!(items.info, Some((65, 66)));
}

#[test]
fn scanning_steps() {
    let text = b"  \t\n x";
    assert_eq!(skip_ws(text, 0), 5);
    assert_eq!(skip_ws(text, 5), 5);
    assert_eq!(skip_ws(text, 6), 6);
    let s = br#""a\"b" tail"#;
    assert_eq!(string_end(s, 1), Some(6));
    assert_eq!(string_end(br#""open"#, 1), None);
    assert_eq!(string_end(br#""x\"#, 1), None);
    let n = br#"{"a":[1,{"b":"}"}],"c":2} rest"#;
    assert_eq!(nested_end(n, 1, 1), Some(25));
    assert_eq!(nested_end(b"{[}", 1, 1), None);
    assert_eq!(nested_end(b"{}", 1, 0), None);
    assert_eq!(scalar_end(b"12345,6", 0), 5);
    assert_eq!(scalar_end(b"true}", 0), 4);
    assert_eq!(scalar_end(b"null", 0), 4);
    assert_eq!(value_end(b"12 ", 0), Some(2));
    assert_eq!(value_end(br#""s""#, 0), Some(3));
    assert_eq!(value_end(b"[[]]x", 0), Some(4));
    assert_eq!(value_end(b",", 0), None);
    assert_eq!(value_end(b":", 0), None);
    assert_eq!(value_end(b"", 0), None);
}

#[test]
fn members_and_lookup() {
    let text = br#"{"a":1,"bb":"x"}"#;
    let (list, end) = object(text, 0).unwrap();
    assert_eq!(end, text.len());
    assert_eq!(list.len(), 2);
    assert_eq!((list[0].key_start, list[0].key_end), (2, 3));
    assert_eq!((list[0].value_start, list[0].value_end), (5, 6));
    assert_eq!((list[1].key_start, list[1].key_end), (8, 10));
    assert_eq!((list[1].value_start, list[1].value_end), (12, 15));
    let found = find(text, &list, b"bb").unwrap();
    assert_eq!(found.value_start, 12);
    assert!(find(text, &list, b"b").is_none());
    assert!(span_is(text, 8, 10, b"bb"));
    assert!(!span_is(text, 8, 10, b"bc"));
    assert!(!span_is(text, 8, 10, b"b"));
    let (direct, direct_end) = members(text, 1).unwrap();
    assert_eq!(direct.len(), 2);
    assert_eq!(direct_end, text.len());
    let (empty, empty_end) = object(b"{ }", 0).unwrap();
    assert!(empty.is_empty());
    assert_eq!(empty_end, 3);
    assert!(object(b"[]", 0).is_none());
    assert!(members(b"\"a\":1", 0).is_none());
}

#[test]
fn batches_know_their_deadline_and_key() {
    let a0 = r#"{"cursor":{"partition":"0","event_type":"A","offset":"1"},"events":[]}"#;
    let a0_later = r#"{"cursor":{"partition":"0","event_type":"A","offset":"2"},"events":[]}"#;
    let a1 = r#"{"cursor":{"partition":"1","event_type":"A","offset":"1"},"events":[]}"#;
    let b0 = r#"{"cursor":{"partition":"0","event_type":"B","offset":"1"},"events":[]}"#;
    let first = Batch::new(BatchLine::new(line(a0)).unwrap(), 1_000, 60_000);
    assert_eq!(first.received_at, 1_000);
    assert_eq!(first.commit_deadline, 61_000);
    let second = Batch::new(BatchLine::new(line(a0_later)).unwrap(), 2_000, 60_000);
    let third = Batch::new(BatchLine::new(line(a1)).unwrap(), 2_000, 60_000);
    let fourth = Batch::new(BatchLine::new(line(b0)).unwrap(), 2_000, 60_000);
    assert!(first.same_key(&second));
    assert!(!first.same_key(&third));
    assert!(!first.same_key(&fourth));
    let copy = first.clone();
    assert_eq!(copy.batch_line.bytes(), first.batch_line.bytes());
    assert_eq!(copy.commit_deadline, 61_000);
    assert!(same_bytes(b"abc", b"abc"));
    assert!(!same_bytes(b"abc", b"abd"));
    assert!(!same_bytes(b"abc", b"ab"));
}
