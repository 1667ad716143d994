use fix_engine::dict::{fix_msg_type_name, msg_type_to_num, tag_to_name};

#[test]
fn tag_names_known() {
    assert_eq!(tag_to_name(8), "BeginString");
    assert_eq!(tag_to_name(9), "BodyLength");
    assert_eq!(tag_to_name(10), "CheckSum");
    assert_eq!(tag_to_name(11), "ClOrdID");
    assert_eq!(tag_to_name(17), "ExecID");
    assert_eq!(tag_to_name(20), "ExecTransType");
    assert_eq!(tag_to_name(21), "HandlInst");
    assert_eq!(tag_to_name(22), "SecurityIDSource");
    assert_eq!(tag_to_name(34), "MsgSeqNum");
    assert_eq!(tag_to_name(35), "MsgType");
    assert_eq!(tag_to_name(37), "OrderID");
    assert_eq!(tag_to_name(38), "OrderQty");
    assert_eq!(tag_to_name(39), "OrdStatus");
    assert_eq!(tag_to_name(40), "OrdType");
    assert_eq!(tag_to_name(44), "Price");
    assert_eq!(tag_to_name(49), "SenderCompID");
    assert_eq!(tag_to_name(52), "SendingTime");
    assert_eq!(tag_to_name(54), "Side");
    assert_eq!(tag_to_name(55), "Symbol");
    assert_eq!(tag_to_name(56), "TargetCompID");
    assert_eq!(tag_to_name(58), "Text");
    assert_eq!(tag_to_name(60), "TransactTime");
    assert_eq!(tag_to_name(146), "NoRelatedSym");
}

#[test]
fn tag_names_unknown() {
    assert_eq!(tag_to_name(0), "Unknown");
    assert_eq!(tag_to_name(12), "Unknown");
    assert_eq!(tag_to_name(4294967295), "Unknown");
}

#[test]
fn type_name_to_code() {
    assert_eq!(msg_type_to_num("NewOrderSingle"), "D");
    assert_eq!(msg_type_to_num("ExecutionReport"), "8");
    assert_eq!(msg_type_to_num("OrderCancelRequest"), "F");
    assert_eq!(msg_type_to_num("MarketDataRequest"), "V");
    assert_eq!(msg_type_to_num("Heartbeat"), "0");
    assert_eq!(msg_type_to_num("Logon"), "A");
    assert_eq!(msg_type_to_num("Logout"), "5");
    assert_eq!(msg_type_to_num("TestRequest"), "1");
    assert_eq!(msg_type_to_num("ResendRequest"), "2");
    assert_eq!(msg_type_to_num("SessionLevelReject"), "3");
}

#[test]
fn type_name_pass_through() {
    // A short code or an unrecognised name passes through unchanged.
    assert_eq!(msg_type_to_num("D"), "D");
    assert_eq!(msg_type_to_num("Custom"), "Custom");
    assert_eq!(msg_type_to_num(""), "");
}

#[test]
fn code_to_type_name() {
    assert_eq!(fix_msg_type_name("D"), "NewOrderSingle");
    assert_eq!(fix_msg_type_name("8"), "ExecutionReport");
    assert_eq!(fix_msg_type_name("F"), "OrderCancelRequest");
    assert_eq!(fix_msg_type_name("V"), "MarketDataRequest");
    assert_eq!(fix_msg_type_name("0"), "Heartbeat");
    assert_eq!(fix_msg_type_name("A"), "Logon");
    assert_eq!(fix_msg_type_name("5"), "Logout");
    assert_eq!(fix_msg_type_name("1"), "TestRequest");
    assert_eq!(fix_msg_type_name("2"), "ResendRequest");
    assert_eq!(fix_msg_type_name("3"), "SessionLevelReject");
}

#[test]
fn code_to_type_name_unknown() {
    assert_eq!(fix_msg_type_name("Z"), "Unknown");
    assert_eq!(fix_msg_type_name("NewOrderSingle"), "Unknown");
    assert_eq!(fix_msg_type_name(""), "Unknown");
}
