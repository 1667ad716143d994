//! The validator: checks a field set against the mandatory header
//! fields and, for specific message types, their mandatory business
//! fields, producing an ordered list of violations.
use vstd::prelude::*;
use vstd::string::*;
use crate::fields::{
    err_views, has_key, map_get, ErrModel, FieldMap, FixError, ValidateResult, ValidationError,
};
use crate::text::str_eq;

verus! {

/// The version text with every leading `FIX.` removed.
pub open spec fn strip_fix(v: Seq<char>) -> Seq<char>
    decreases v.len(),
{
    if v.len() >= 4 && v.take(4) == "FIX."@ {
        strip_fix(v.skip(4))
    } else {
        v
    }
}

/// Whether a version is supported: its `FIX.`-stripped form is one of
/// the three recognised protocol revisions.
pub open spec fn supported_version(v: Seq<char>) -> bool {
    strip_fix(v) == "4.2"@ || strip_fix(v) == "4.4"@ || strip_fix(v) == "5.0"@
}

/// Returns `v` with every leading `FIX.` removed.
fn strip_fix_prefix<'a>(v: &'a str) -> (r: &'a str)
    ensures
        r@ == strip_fix(v@),
{
    let mut cur = v;
    let mut n: usize = cur.unicode_len();
    loop
        invariant
            n == cur@.len(),
            strip_fix(v@) == strip_fix(cur@),
        ensures
            n == cur@.len(),
            strip_fix(cur@) == cur@,
        decreases n,
    {
        if n < 4 {
            break;
        }
        let head = cur.substring_char(0, 4);
        proof {
            assert(head@ =~= cur@.take(4));
        }
        if str_eq(head, "FIX.") {
            let next = cur.substring_char(4, n);
            proof {
                assert(next@ =~= cur@.skip(4));
            }
            cur = next;
            n = n - 4;
        } else {
            break;
        }
    }
    cur
}

/// Whether the field set carries a field under its canonical name or
/// under its numeric-tag string.
pub open spec fn has_field(
    m: Seq<(Seq<char>, Seq<char>)>,
    name: Seq<char>,
    tagstr: Seq<char>,
) -> bool {
    has_key(m, name) || has_key(m, tagstr)
}

/// The error a missing mandatory field contributes: one entry when the
/// field is absent under both keys, nothing when it is present.
pub open spec fn missing_err(
    m: Seq<(Seq<char>, Seq<char>)>,
    name: Seq<char>,
    tagstr: Seq<char>,
    tag: u32,
    msg: Seq<char>,
) -> Seq<ErrModel> {
    if has_field(m, name, tagstr) {
        Seq::empty()
    } else {
        seq![ErrModel { field: name, tag, message: msg }]
    }
}

/// The violations of the seven mandatory header fields, in fixed check
/// order.
pub open spec fn header_errors(m: Seq<(Seq<char>, Seq<char>)>) -> Seq<ErrModel> {
    missing_err(m, "BeginString"@, "8"@, 8, "Required header field missing."@) + missing_err(
        m,
        "BodyLength"@,
        "9"@,
        9,
        "Required header field missing."@,
    ) + missing_err(m, "MsgType"@, "35"@, 35, "Required header field missing."@) + missing_err(
        m,
        "SenderCompID"@,
        "49"@,
        49,
        "Required header field missing."@,
    ) + missing_err(m, "TargetCompID"@, "56"@, 56, "Required header field missing."@)
        + missing_err(m, "MsgSeqNum"@, "34"@, 34, "Required header field missing."@)
        + missing_err(m, "SendingTime"@, "52"@, 52, "Required header field missing."@)
}

/// The violations of the message-type specific mandatory fields, in
/// fixed check order; a message type outside the rule table incurs
/// none.
pub open spec fn business_errors(
    msg_type: Seq<char>,
    m: Seq<(Seq<char>, Seq<char>)>,
) -> Seq<ErrModel> {
    if msg_type == "NewOrderSingle"@ || msg_type == "D"@ {
        missing_err(m, "ClOrdID"@, "11"@, 11, "NewOrderSingle requires ClOrdID (tag 11)."@)
            + missing_err(m, "Symbol"@, "55"@, 55, "NewOrderSingle requires Symbol (tag 55)."@)
            + missing_err(m, "Side"@, "54"@, 54, "NewOrderSingle requires Side (tag 54)."@)
            + missing_err(
            m,
            "OrderQty"@,
            "38"@,
            38,
            "NewOrderSingle requires OrderQty (tag 38)."@,
        )
    } else if msg_type == "OrderCancelRequest"@ || msg_type == "F"@ {
        missing_err(m, "ClOrdID"@, "11"@, 11, "OrderCancelRequest requires ClOrdID (tag 11)."@)
            + missing_err(
            m,
            "Symbol"@,
            "55"@,
            55,
            "OrderCancelRequest requires Symbol (tag 55)."@,
        )
    } else {
        Seq::empty()
    }
}

/// The message type a field set declares: the value under `MsgType`,
/// else under `35`, else `Unknown`.
pub open spec fn resolved_msg_type(m: Seq<(Seq<char>, Seq<char>)>) -> Seq<char> {
    match map_get(m, "MsgType"@) {
        Some(v) => v,
        None => match map_get(m, "35"@) {
            Some(v) => v,
            None => "Unknown"@,
        },
    }
}

/// All violations of a field set under a resolved message type: the
/// header checks, then the business-rule checks.
pub open spec fn all_errors(
    msg_type: Seq<char>,
    m: Seq<(Seq<char>, Seq<char>)>,
) -> Seq<ErrModel> {
    header_errors(m) + business_errors(msg_type, m)
}

/// Appends the error for one mandatory field when the field set holds
/// it under neither its name nor its numeric-tag string.
fn require_field(
    message: &FieldMap,
    name: &str,
    tagstr: &str,
    tag: u32,
    msg: &str,
    errors: &mut Vec<ValidationError>,
)
    ensures
        err_views(final(errors)@) =~= err_views(old(errors)@) + missing_err(
            message@,
            name@,
            tagstr@,
            tag,
            msg@,
        ),
{
    if !(message.contains_key(name) || message.contains_key(tagstr)) {
        let e = ValidationError { field: name.to_owned(), tag, message: msg.to_owned() };
        let ghost before = errors@;
        errors.push(e);
        proof {
            assert(err_views(errors@) =~= err_views(before) + seq![e@]);
        }
    } else {
        proof {
            assert(err_views(errors@) + Seq::<ErrModel>::empty() =~= err_views(errors@));
        }
    }
}

/// Appends the violations of the message-type specific mandatory
/// fields, in fixed check order.
pub fn validate_msg_type_fields(
    msg_type: &str,
    message: &FieldMap,
    errors: &mut Vec<ValidationError>,
)
    ensures
        err_views(final(errors)@) =~= err_views(old(errors)@) + business_errors(
            msg_type@,
            message@,
        ),
{
    if str_eq(msg_type, "NewOrderSingle") || str_eq(msg_type, "D") {
        require_field(
            message,
            "ClOrdID",
            "11",
            11,
            "NewOrderSingle requires ClOrdID (tag 11).",
            errors,
        );
        require_field(
            message,
            "Symbol",
            "55",
            55,
            "NewOrderSingle requires Symbol (tag 55).",
            errors,
        );
        require_field(message, "Side", "54", 54, "NewOrderSingle requires Side (tag 54).", errors);
        require_field(
            message,
            "OrderQty",
            "38",
            38,
            "NewOrderSingle requires OrderQty (tag 38).",
            errors,
        );
    } else if str_eq(msg_type, "OrderCancelRequest") || str_eq(msg_type, "F") {
        require_field(
            message,
            "ClOrdID",
            "11",
            11,
            "OrderCancelRequest requires ClOrdID (tag 11).",
            errors,
        );
        require_field(
            message,
            "Symbol",
            "55",
            55,
            "OrderCancelRequest requires Symbol (tag 55).",
            errors,
        );
    } else {
        proof {
            assert(err_views(errors@) + Seq::<ErrModel>::empty() =~= err_views(errors@));
        }
    }
}

/// Validates a field set against a protocol version.
///
/// Fails exactly when the `FIX.`-stripped version is unsupported. On
/// success the error list holds the seven header checks in order, then
/// the business-rule checks for the resolved message type, and the
/// validity flag is set exactly when that list is empty.
pub fn validate(message: &FieldMap, version: &str) -> (r: Result<ValidateResult, FixError>)
    ensures
        r is Err <==> !supported_version(version@),
        r is Err ==> r->Err_0 == FixError::UnsupportedVersion,
        r is Ok ==> ({
            let errs = all_errors(resolved_msg_type(message@), message@);
            &&& err_views(r->Ok_0.errors@) == errs
            &&& r->Ok_0.valid == (errs.len() == 0)
            &&& r->Ok_0.version@ == version@
            &&& r->Ok_0.msg_type@ == resolved_msg_type(message@)
        }),
{
    let stripped = strip_fix_prefix(version);
    if !(str_eq(stripped, "4.2") || str_eq(stripped, "4.4") || str_eq(stripped, "5.0")) {
        return Err(FixError::UnsupportedVersion);
    }
    let msg_type: String = match message.get("MsgType") {
        Some(v) => v,
        None => match message.get("35") {
            Some(v) => v,
            None => String::from_str("Unknown"),
        },
    };
    assert(msg_type@ == resolved_msg_type(message@));
    let mut errors: Vec<ValidationError> = Vec::new();
    proof {
        assert(err_views(errors@) =~= Seq::<ErrModel>::empty());
    }
    require_field(message, "BeginString", "8", 8, "Required header field missing.", &mut errors);
    require_field(message, "BodyLength", "9", 9, "Required header field missing.", &mut errors);
    require_field(message, "MsgType", "35", 35, "Required header field missing.", &mut errors);
    require_field(
        message,
        "SenderCompID",
        "49",
        49,
        "Required header field missing.",
        &mut errors,
    );
    require_field(
        message,
        "TargetCompID",
        "56",
        56,
        "Required header field missing.",
        &mut errors,
    );
    require_field(message, "MsgSeqNum", "34", 34, "Required header field missing.", &mut errors);
    require_field(message, "SendingTime", "52", 52, "Required header field missing.", &mut errors);
    proof {
        assert(err_views(errors@) =~= header_errors(message@));
    }
    validate_msg_type_fields(msg_type.as_str(), message, &mut errors);
    proof {
        assert(err_views(errors@) =~= all_errors(resolved_msg_type(message@), message@));
    }
    let valid = errors.len() == 0;
    proof {
        assert(err_views(errors@).len() == errors@.len());
    }
    Ok(ValidateResult { valid, version: version.to_owned(), msg_type, errors })
}

/// Law: validation is deterministic — one field set and one version
/// always yield the same verdict and the same error list in the same
/// order.
pub proof fn lemma_validate_deterministic(
    m1: Seq<(Seq<char>, Seq<char>)>,
    v1: Seq<char>,
    m2: Seq<(Seq<char>, Seq<char>)>,
    v2: Seq<char>,
)
    requires
        m1 == m2,
        v1 == v2,
    ensures
        supported_version(v1) == supported_version(v2),
        all_errors(resolved_msg_type(m1), m1) == all_errors(resolved_msg_type(m2), m2),
{
}

/// Law: the verdict on a version depends only on its `FIX.`-stripped
/// form — prepending the prefix changes nothing, so versions outside
/// the supported set are rejected with or without it.
pub proof fn lemma_version_prefix_irrelevant(v: Seq<char>)
    ensures
        strip_fix("FIX."@ + v) == strip_fix(v),
        supported_version("FIX."@ + v) == supported_version(v),
{
    reveal_strlit("FIX.");
    assert(("FIX."@ + v).len() >= 4);
    assert(("FIX."@ + v).take(4) =~= "FIX."@);
    assert(("FIX."@ + v).skip(4) =~= v);
}

} // verus!
