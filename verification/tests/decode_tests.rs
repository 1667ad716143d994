use fix_engine::decode::decode;
use fix_engine::fields::FixError;

#[test]
fn decode_new_order_single_soh() {
    let r = decode("8=FIX.4.4\x0135=D\x0149=ALICE\x01").unwrap();
    assert_eq!(r.msg_type, "NewOrderSingle");
    assert_eq!(r.field_count, 3);
    assert_eq!(r.fields.len(), 3);
    let tags: Vec<u32> = r.fields.iter().map(|f| f.tag).collect();
    assert_eq!(tags, vec![8, 35, 49]);
    assert_eq!(r.fields[0].name, "BeginString");
    assert_eq!(r.fields[0].value, "FIX.4.4");
    assert_eq!(r.fields[1].name, "MsgType");
    assert_eq!(r.fields[1].value, "D");
    assert_eq!(r.fields[2].name, "SenderCompID");
    assert_eq!(r.fields[2].value, "ALICE");
    assert_eq!(r.raw_length, "8=FIX.4.4\x0135=D\x0149=ALICE\x01".len());
}

#[test]
fn decode_pipe_delimited() {
    let r = decode("8=FIX.4.2|35=0|").unwrap();
    assert_eq!(r.msg_type, "Heartbeat");
    assert_eq!(r.field_count, 2);
    assert_eq!(r.fields[0].tag, 8);
    assert_eq!(r.fields[0].value, "FIX.4.2");
    assert_eq!(r.fields[1].tag, 35);
}

#[test]
fn decode_prefers_control_delimiter_over_pipe() {
    // The control character is present, so it is the delimiter even
    // though pipes occur inside a value.
    let r = decode("35=D\x0158=a|b|c\x01").unwrap();
    assert_eq!(r.field_count, 2);
    assert_eq!(r.fields[1].tag, 58);
    assert_eq!(r.fields[1].value, "a|b|c");
}

#[test]
fn decode_empty_input_rejected() {
    assert_eq!(decode("").unwrap_err(), FixError::EmptyInput);
    assert_eq!(decode("   \t\n").unwrap_err(), FixError::EmptyInput);
}

#[test]
fn decode_skips_malformed_segments_silently() {
    // No '=', non-numeric tag, and empty segments are dropped without
    // error; well-formed segments all survive.
    let r = decode("8=FIX.4.4|junk|x=1|35=D||49=ALICE").unwrap();
    let tags: Vec<u32> = r.fields.iter().map(|f| f.tag).collect();
    assert_eq!(tags, vec![8, 35, 49]);
    assert_eq!(r.field_count, 3);
}

#[test]
fn decode_trims_tag_whitespace() {
    let r = decode(" 8 =FIX.4.4| 35=D").unwrap();
    assert_eq!(r.field_count, 2);
    assert_eq!(r.fields[0].tag, 8);
    assert_eq!(r.fields[1].tag, 35);
    assert_eq!(r.msg_type, "NewOrderSingle");
}

#[test]
fn decode_value_kept_verbatim() {
    // The value is not trimmed and may be empty.
    let r = decode("58= padded |11=").unwrap();
    assert_eq!(r.fields[0].value, " padded ");
    assert_eq!(r.fields[1].value, "");
}

#[test]
fn decode_tag_overflow_skipped() {
    let r = decode("4294967295=ok|4294967296=too big|8=x").unwrap();
    let tags: Vec<u32> = r.fields.iter().map(|f| f.tag).collect();
    assert_eq!(tags, vec![4294967295, 8]);
}

#[test]
fn decode_unknown_tag_name() {
    let r = decode("999=hello").unwrap();
    assert_eq!(r.fields[0].name, "Unknown");
    assert_eq!(r.msg_type, "Unknown");
}

#[test]
fn decode_last_msg_type_wins() {
    let r = decode("35=D|35=F").unwrap();
    assert_eq!(r.msg_type, "OrderCancelRequest");
}

#[test]
fn decode_value_with_second_equals() {
    // Only the first '=' splits tag from value.
    let r = decode("58=a=b").unwrap();
    assert_eq!(r.fields[0].tag, 58);
    assert_eq!(r.fields[0].value, "a=b");
}

#[test]
fn decode_tag_with_leading_plus() {
    // A leading plus sign on the tag is accepted, as ordinary integer
    // parsing allows.
    let r = decode("+8=FIX.4.4|35=D").unwrap();
    let tags: Vec<u32> = r.fields.iter().map(|f| f.tag).collect();
    assert_eq!(tags, vec![8, 35]);
}

#[test]
fn decode_unicode_whitespace() {
    // Blankness and tag trimming follow the Unicode whitespace set.
    assert_eq!(decode("\u{a0}\u{2003}\u{3000}").unwrap_err(), FixError::EmptyInput);
    let r = decode("\u{a0}8\u{a0}=x|35=D").unwrap();
    assert_eq!(r.fields[0].tag, 8);
    assert_eq!(r.field_count, 2);
}
