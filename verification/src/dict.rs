//! The field and message-type dictionaries: fixed bidirectional tables
//! between numeric tags and canonical field names, and between short
//! message-type codes and canonical message-type names.
use vstd::prelude::*;
use vstd::string::*;
use crate::text::str_eq;

verus! {

/// The canonical name of a numeric tag, or `Unknown` for a tag outside
/// the table.
pub open spec fn tag_name(tag: u32) -> Seq<char> {
    if tag == 8 {
        "BeginString"@
    } else if tag == 9 {
        "BodyLength"@
    } else if tag == 10 {
        "CheckSum"@
    } else if tag == 11 {
        "ClOrdID"@
    } else if tag == 17 {
        "ExecID"@
    } else if tag == 20 {
        "ExecTransType"@
    } else if tag == 21 {
        "HandlInst"@
    } else if tag == 22 {
        "SecurityIDSource"@
    } else if tag == 34 {
        "MsgSeqNum"@
    } else if tag == 35 {
        "MsgType"@
    } else if tag == 37 {
        "OrderID"@
    } else if tag == 38 {
        "OrderQty"@
    } else if tag == 39 {
        "OrdStatus"@
    } else if tag == 40 {
        "OrdType"@
    } else if tag == 44 {
        "Price"@
    } else if tag == 49 {
        "SenderCompID"@
    } else if tag == 52 {
        "SendingTime"@
    } else if tag == 54 {
        "Side"@
    } else if tag == 55 {
        "Symbol"@
    } else if tag == 56 {
        "TargetCompID"@
    } else if tag == 58 {
        "Text"@
    } else if tag == 60 {
        "TransactTime"@
    } else if tag == 146 {
        "NoRelatedSym"@
    } else {
        "Unknown"@
    }
}

/// Returns the canonical name of `tag`, `Unknown` when the tag is not
/// in the table.
pub fn tag_to_name(tag: u32) -> (r: String)
    ensures
        r@ == tag_name(tag),
{
    let name: &str = if tag == 8 {
        "BeginString"
    } else if tag == 9 {
        "BodyLength"
    } else if tag == 10 {
        "CheckSum"
    } else if tag == 11 {
        "ClOrdID"
    } else if tag == 17 {
        "ExecID"
    } else if tag == 20 {
        "ExecTransType"
    } else if tag == 21 {
        "HandlInst"
    } else if tag == 22 {
        "SecurityIDSource"
    } else if tag == 34 {
        "MsgSeqNum"
    } else if tag == 35 {
        "MsgType"
    } else if tag == 37 {
        "OrderID"
    } else if tag == 38 {
        "OrderQty"
    } else if tag == 39 {
        "OrdStatus"
    } else if tag == 40 {
        "OrdType"
    } else if tag == 44 {
        "Price"
    } else if tag == 49 {
        "SenderCompID"
    } else if tag == 52 {
        "SendingTime"
    } else if tag == 54 {
        "Side"
    } else if tag == 55 {
        "Symbol"
    } else if tag == 56 {
        "TargetCompID"
    } else if tag == 58 {
        "Text"
    } else if tag == 60 {
        "TransactTime"
    } else if tag == 146 {
        "NoRelatedSym"
    } else {
        "Unknown"
    };
    name.to_owned()
}

/// The short code for a canonical message-type name; a string that is
/// not a recognised canonical name passes through unchanged (it may
/// already be a short code, or match nothing at all).
pub open spec fn code_for_type_name(name: Seq<char>) -> Seq<char> {
    if name == "NewOrderSingle"@ {
        "D"@
    } else if name == "ExecutionReport"@ {
        "8"@
    } else if name == "OrderCancelRequest"@ {
        "F"@
    } else if name == "MarketDataRequest"@ {
        "V"@
    } else if name == "Heartbeat"@ {
        "0"@
    } else if name == "Logon"@ {
        "A"@
    } else if name == "Logout"@ {
        "5"@
    } else if name == "TestRequest"@ {
        "1"@
    } else if name == "ResendRequest"@ {
        "2"@
    } else if name == "SessionLevelReject"@ {
        "3"@
    } else {
        name
    }
}

/// Returns the short message-type code for `name`, passing `name`
/// through unchanged when it is not a recognised canonical name.
pub fn msg_type_to_num(name: &str) -> (r: String)
    ensures
        r@ == code_for_type_name(name@),
{
    let code: &str = if str_eq(name, "NewOrderSingle") {
        "D"
    } else if str_eq(name, "ExecutionReport") {
        "8"
    } else if str_eq(name, "OrderCancelRequest") {
        "F"
    } else if str_eq(name, "MarketDataRequest") {
        "V"
    } else if str_eq(name, "Heartbeat") {
        "0"
    } else if str_eq(name, "Logon") {
        "A"
    } else if str_eq(name, "Logout") {
        "5"
    } else if str_eq(name, "TestRequest") {
        "1"
    } else if str_eq(name, "ResendRequest") {
        "2"
    } else if str_eq(name, "SessionLevelReject") {
        "3"
    } else {
        name
    };
    code.to_owned()
}

/// The canonical message-type name for a short code, or `Unknown` for
/// a code outside the table.
pub open spec fn type_name_for_code(code: Seq<char>) -> Seq<char> {
    if code == "D"@ {
        "NewOrderSingle"@
    } else if code == "8"@ {
        "ExecutionReport"@
    } else if code == "F"@ {
        "OrderCancelRequest"@
    } else if code == "V"@ {
        "MarketDataRequest"@
    } else if code == "0"@ {
        "Heartbeat"@
    } else if code == "A"@ {
        "Logon"@
    } else if code == "5"@ {
        "Logout"@
    } else if code == "1"@ {
        "TestRequest"@
    } else if code == "2"@ {
        "ResendRequest"@
    } else if code == "3"@ {
        "SessionLevelReject"@
    } else {
        "Unknown"@
    }
}

/// Returns the canonical message-type name for `code`, `Unknown` when
/// the code is not in the table.
pub fn fix_msg_type_name(code: &str) -> (r: String)
    ensures
        r@ == type_name_for_code(code@),
{
    let name: &str = if str_eq(code, "D") {
        "NewOrderSingle"
    } else if str_eq(code, "8") {
        "ExecutionReport"
    } else if str_eq(code, "F") {
        "OrderCancelRequest"
    } else if str_eq(code, "V") {
        "MarketDataRequest"
    } else if str_eq(code, "0") {
        "Heartbeat"
    } else if str_eq(code, "A") {
        "Logon"
    } else if str_eq(code, "5") {
        "Logout"
    } else if str_eq(code, "1") {
        "TestRequest"
    } else if str_eq(code, "2") {
        "ResendRequest"
    } else if str_eq(code, "3") {
        "SessionLevelReject"
    } else {
        "Unknown"
    };
    name.to_owned()
}

} // verus!
