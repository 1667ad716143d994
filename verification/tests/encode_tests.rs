use fix_engine::encode::{build_fix_message, encode, SeqCounter};
use fix_engine::fields::{FieldMap, FixError};

fn map_of(pairs: &[(&str, &str)]) -> FieldMap {
    let mut m = FieldMap::new();
    for (k, v) in pairs {
        m.insert(k.to_string(), v.to_string());
    }
    m
}

#[test]
fn encode_new_order_single() {
    let fields = map_of(&[("Symbol", "IBM"), ("Side", "1"), ("OrderQty", "100"), ("ClOrdID", "X1")]);
    let mut counter = SeqCounter::new();
    let r = encode("NewOrderSingle", &fields, &mut counter, 42).unwrap();
    assert_eq!(r.sequence_number, 1);
    assert!(r.fix_message.starts_with("8=FIX.4.4\x019="));
    assert!(r.fix_message.contains("35=D\x01"));
    assert_eq!(r.session_id, "ALICE->BROKER");
    assert_eq!(r.msg_type, "NewOrderSingle");
    assert_eq!(r.sent_at_ms, 42);
    assert!(r.fix_message.contains("52=19700101-00:00:00.042\x01"));
    assert_eq!(r.fields.len(), 4);
}

#[test]
fn encode_blank_msg_type_rejected() {
    let fields = FieldMap::new();
    let mut counter = SeqCounter::new();
    assert_eq!(encode("", &fields, &mut counter, 0).unwrap_err(), FixError::EmptyMessageType);
    assert_eq!(encode("  \t", &fields, &mut counter, 0).unwrap_err(), FixError::EmptyMessageType);
    // A rejected encode does not consume a sequence number.
    let ok = encode("Heartbeat", &fields, &mut counter, 0).unwrap();
    assert_eq!(ok.sequence_number, 1);
}

#[test]
fn encode_sequence_numbers_increase() {
    let fields = FieldMap::new();
    let mut counter = SeqCounter::new();
    let a = encode("Heartbeat", &fields, &mut counter, 0).unwrap();
    let b = encode("Heartbeat", &fields, &mut counter, 0).unwrap();
    let c = encode("Logon", &fields, &mut counter, 0).unwrap();
    assert_eq!(a.sequence_number, 1);
    assert_eq!(b.sequence_number, 2);
    assert_eq!(c.sequence_number, 3);
    assert!(c.fix_message.contains("34=3\x01"));
}

#[test]
fn encode_exact_wire_message() {
    let fields = FieldMap::new();
    let mut counter = SeqCounter::new();
    let r = encode("Heartbeat", &fields, &mut counter, 0).unwrap();
    // Body: 35=0|49=ALICE|56=BROKER|34=1|52=19700101-00:00:00.000|
    // with the control delimiter; its byte length is 54.
    assert_eq!(
        r.fix_message,
        "8=FIX.4.4\x019=54\x0135=0\x0149=ALICE\x0156=BROKER\x0134=1\x0152=19700101-00:00:00.000\x0110=000\x01"
    );
}

#[test]
fn encode_header_duplicates_suppressed() {
    // Caller-supplied occurrences of header fields, by name or by
    // numeric-tag string, are dropped from the body; only the
    // synthesized occurrence appears.
    let fields = map_of(&[("SenderCompID", "XYZ"), ("49", "OTHER"), ("Symbol", "IBM")]);
    let mut counter = SeqCounter::new();
    let r = encode("NewOrderSingle", &fields, &mut counter, 0).unwrap();
    let occurrences = r.fix_message.matches("49=").count();
    assert_eq!(occurrences, 1);
    assert!(r.fix_message.contains("49=XYZ\x01"));
    assert!(!r.fix_message.contains("OTHER"));
    assert!(r.fix_message.contains("Symbol=IBM\x01"));
    assert_eq!(r.session_id, "XYZ->BROKER");
}

#[test]
fn encode_version_and_target_from_fields() {
    let fields = map_of(&[("BeginString", "FIX.4.2"), ("TargetCompID", "VENUE")]);
    let mut counter = SeqCounter::new();
    let r = encode("Logon", &fields, &mut counter, 7).unwrap();
    assert!(r.fix_message.starts_with("8=FIX.4.2\x01"));
    assert!(r.fix_message.contains("56=VENUE\x01"));
    assert!(r.fix_message.contains("35=A\x01"));
    assert_eq!(r.session_id, "ALICE->VENUE");
}

#[test]
fn encode_unrecognised_type_passes_through() {
    let fields = FieldMap::new();
    let mut counter = SeqCounter::new();
    let r = encode("UserDefined", &fields, &mut counter, 0).unwrap();
    assert!(r.fix_message.contains("35=UserDefined\x01"));
}

#[test]
fn build_fix_message_exact() {
    let fields = map_of(&[("Symbol", "IBM")]);
    let m = build_fix_message("FIX.4.4", "D", "A", "B", 5, "20231114-22:13:20.000", &fields);
    // Body: 35=D|49=A|56=B|34=5|52=20231114-22:13:20.000|Symbol=IBM|
    // -> 56 bytes.
    assert_eq!(
        m,
        "8=FIX.4.4\x019=56\x0135=D\x0149=A\x0156=B\x0134=5\x0152=20231114-22:13:20.000\x01Symbol=IBM\x0110=000\x01"
    );
}

#[test]
fn build_fix_message_body_length_counts_bytes() {
    let fields = FieldMap::new();
    let m = build_fix_message("FIX.4.4", "0", "S", "T", 1, "19700101-00:00:00.000", &fields);
    // Everything between "9=<n>\x01" and "10=000\x01" must be exactly
    // n bytes long.
    let after_version = m.splitn(3, '\x01').nth(1).unwrap();
    assert!(after_version.starts_with("9="));
    let n: usize = after_version[2..].parse().unwrap();
    let start = m.find("\x0135=").unwrap() + 1;
    let end = m.find("\x0110=000\x01").unwrap() + 1;
    assert_eq!(end - start, n);
}

#[test]
fn encode_suppresses_all_header_keys() {
    // Every header field name and numeric-tag string is suppressed
    // from the body, including the ones the encoder writes outside the
    // body (BeginString, BodyLength) or resolves itself (MsgType).
    let fields = map_of(&[
        ("MsgType", "X"),
        ("BodyLength", "99"),
        ("8", "FIX.9.9"),
        ("9", "77"),
        ("35", "Y"),
        ("Symbol", "IBM"),
    ]);
    let mut counter = SeqCounter::new();
    let r = encode("Heartbeat", &fields, &mut counter, 0).unwrap();
    assert!(!r.fix_message.contains("MsgType="));
    assert!(!r.fix_message.contains("BodyLength="));
    assert!(!r.fix_message.contains("FIX.9.9"));
    assert!(!r.fix_message.contains("=99"));
    assert!(!r.fix_message.contains("=77"));
    assert!(!r.fix_message.contains("=Y"));
    assert_eq!(r.fix_message.matches("\x019=").count(), 1);
    assert_eq!(r.fix_message.matches("35=").count(), 1);
    assert!(r.fix_message.contains("35=0\x01"));
    assert!(r.fix_message.contains("Symbol=IBM\x01"));
}
