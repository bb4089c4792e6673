use mcp_manager::framing::{outgoing_frame, BlockReader};

#[test]
fn single_json_line_returned_trimmed() {
    let mut r = BlockReader::new();
    let out = r.push_line(Some("{\"ok\":true}\n"));
    assert_eq!(out, Some(Ok(String::from("{\"ok\":true}"))));
}

#[test]
fn single_json_line_with_surrounding_whitespace() {
    let mut r = BlockReader::new();
    let out = r.push_line(Some("  {\"a\":1}  \n"));
    assert_eq!(out, Some(Ok(String::from("{\"a\":1}"))));
}

#[test]
fn event_stream_block_yields_data_payload() {
    let mut r = BlockReader::new();
    assert_eq!(r.push_line(Some("event: message\n")), None);
    assert_eq!(r.push_line(Some("data: {\"ok\":true}\n")), None);
    let out = r.push_line(Some("\n"));
    assert_eq!(out, Some(Ok(String::from("{\"ok\":true}"))));
}

#[test]
fn unrecognized_block_joins_lines_trimmed() {
    let mut r = BlockReader::new();
    assert_eq!(r.push_line(Some("foo\n")), None);
    assert_eq!(r.push_line(Some("bar\n")), None);
    let out = r.push_line(Some("\n"));
    assert_eq!(out, Some(Ok(String::from("foo\nbar"))));
}

#[test]
fn unrecognized_block_with_carriage_returns() {
    let mut r = BlockReader::new();
    assert_eq!(r.push_line(Some("foo\r\n")), None);
    assert_eq!(r.push_line(Some("bar\r\n")), None);
    let out = r.push_line(Some("\r\n"));
    assert_eq!(out, Some(Ok(String::from("foo\nbar"))));
}

#[test]
fn json_line_after_other_lines_is_accumulated() {
    let mut r = BlockReader::new();
    assert_eq!(r.push_line(Some("event: x\n")), None);
    assert_eq!(r.push_line(Some("{\"ok\":1}\n")), None);
    let out = r.push_line(Some("\n"));
    assert_eq!(out, Some(Ok(String::from("event: x\n{\"ok\":1}"))));
}

#[test]
fn first_data_line_wins() {
    let mut r = BlockReader::new();
    assert_eq!(r.push_line(Some("data: first\n")), None);
    assert_eq!(r.push_line(Some("data: second\n")), None);
    let out = r.push_line(Some("\n"));
    assert_eq!(out, Some(Ok(String::from("first"))));
}

#[test]
fn data_line_is_trimmed_before_prefix_check() {
    let mut r = BlockReader::new();
    assert_eq!(r.push_line(Some("   data: x  \n")), None);
    let out = r.push_line(Some("\n"));
    assert_eq!(out, Some(Ok(String::from("x"))));
}

#[test]
fn empty_block_yields_empty_response() {
    let mut r = BlockReader::new();
    let out = r.push_line(Some("\n"));
    assert_eq!(out, Some(Ok(String::from(""))));
}

#[test]
fn stream_close_is_an_error() {
    let mut r = BlockReader::new();
    let out = r.push_line(None);
    assert_eq!(out, Some(Err(String::from("stream closed"))));
}

#[test]
fn stream_close_mid_block_is_an_error() {
    let mut r = BlockReader::new();
    assert_eq!(r.push_line(Some("data: x\n")), None);
    let out = r.push_line(None);
    assert_eq!(out, Some(Err(String::from("stream closed"))));
}

#[test]
fn outgoing_frame_appends_one_line_feed() {
    assert_eq!(outgoing_frame("hello"), "hello\n");
    assert_eq!(outgoing_frame(""), "\n");
}
