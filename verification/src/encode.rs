//! The encoder: synthesizes a complete wire message from a message
//! type, counterparty identifiers, a sequence number and caller fields,
//! with the body length computed from the encoded body and a trailer
//! checksum field appended.
use vstd::prelude::*;
use vstd::string::*;
use crate::dict::{code_for_type_name, msg_type_to_num};
use crate::fields::{map_get_or, FieldMap, FixError, SentMessage};
use crate::soh;
use crate::text::{blank, byte_len, digits_of, is_blank, str_eq, u64_to_string};
use crate::timefmt::{format_sending_time, sending_time_of};

verus! {

/// The synthesized header portion of a message body: MsgType,
/// SenderCompID, TargetCompID, MsgSeqNum and SendingTime in fixed
/// order, each segment closed by the delimiter.
pub open spec fn header_part(
    msg_type: Seq<char>,
    sender: Seq<char>,
    target: Seq<char>,
    seq_num: nat,
    stime: Seq<char>,
) -> Seq<char> {
    "35="@ + msg_type + seq![soh()] + "49="@ + sender + seq![soh()] + "56="@ + target
        + seq![soh()] + "34="@ + digits_of(seq_num) + seq![soh()] + "52="@ + stime
        + seq![soh()]
}

/// Whether a caller-supplied key duplicates a header field the encoder
/// synthesizes itself, by name or by numeric-tag string.
pub open spec fn is_header_key(k: Seq<char>) -> bool {
    k == "BeginString"@ || k == "BodyLength"@ || k == "MsgType"@ || k == "SenderCompID"@ || k
        == "TargetCompID"@ || k == "MsgSeqNum"@ || k == "SendingTime"@ || k == "8"@ || k == "9"@
        || k == "35"@ || k == "49"@ || k == "56"@ || k == "34"@ || k == "52"@
}

/// The caller-supplied portion of a message body: every entry whose key
/// is not a synthesized header key, in map order, as `key=value`
/// segments each closed by the delimiter.
pub open spec fn extra_part(pairs: Seq<(Seq<char>, Seq<char>)>) -> Seq<char>
    decreases pairs.len(),
{
    if pairs.len() == 0 {
        Seq::empty()
    } else {
        extra_part(pairs.drop_last()) + (if is_header_key(pairs.last().0) {
            Seq::<char>::empty()
        } else {
            pairs.last().0 + "="@ + pairs.last().1 + seq![soh()]
        })
    }
}

/// The full message body: synthesized header fields, then the
/// caller-supplied fields that survive duplicate suppression.
pub open spec fn body_of(
    msg_type: Seq<char>,
    sender: Seq<char>,
    target: Seq<char>,
    seq_num: nat,
    stime: Seq<char>,
    pairs: Seq<(Seq<char>, Seq<char>)>,
) -> Seq<char> {
    header_part(msg_type, sender, target, seq_num, stime) + extra_part(pairs)
}

/// The complete wire message: BeginString, BodyLength computed as the
/// byte length of the body, the body itself, and the placeholder
/// CheckSum trailer.
pub open spec fn wire_of(
    version: Seq<char>,
    msg_type: Seq<char>,
    sender: Seq<char>,
    target: Seq<char>,
    seq_num: nat,
    stime: Seq<char>,
    pairs: Seq<(Seq<char>, Seq<char>)>,
) -> Seq<char> {
    let body = body_of(msg_type, sender, target, seq_num, stime, pairs);
    "8="@ + version + seq![soh()] + "9="@ + digits_of(byte_len(body)) + seq![soh()] + body
        + "10=000"@ + seq![soh()]
}

/// Returns the one-character delimiter string.
fn soh_str() -> (r: &'static str)
    ensures
        r@ =~= seq![soh()],
{
    proof {
        reveal_strlit("\u{1}");
    }
    "\u{1}"
}

/// Returns whether `k` duplicates a synthesized header key.
fn is_header_key_str(k: &str) -> (r: bool)
    ensures
        r == is_header_key(k@),
{
    str_eq(k, "BeginString") || str_eq(k, "BodyLength") || str_eq(k, "MsgType") || str_eq(
        k,
        "SenderCompID",
    ) || str_eq(k, "TargetCompID") || str_eq(k, "MsgSeqNum") || str_eq(k, "SendingTime")
        || str_eq(k, "8") || str_eq(k, "9") || str_eq(k, "35") || str_eq(k, "49") || str_eq(
        k,
        "56",
    ) || str_eq(k, "34") || str_eq(k, "52")
}

/// Assembles the wire message for an already-resolved message-type
/// code, sender, target and sequence number, suppressing caller fields
/// that duplicate a synthesized header field.
pub fn build_fix_message(
    version: &str,
    msg_type: &str,
    sender: &str,
    target: &str,
    seq_num: u64,
    sending_time: &str,
    extra_fields: &FieldMap,
) -> (r: String)
    ensures
        r@ == wire_of(
            version@,
            msg_type@,
            sender@,
            target@,
            seq_num as nat,
            sending_time@,
            extra_fields@,
        ),
{
    let mut body = String::from_str("35=");
    body.append(msg_type);
    body.append(soh_str());
    body.append("49=");
    body.append(sender);
    body.append(soh_str());
    body.append("56=");
    body.append(target);
    body.append(soh_str());
    body.append("34=");
    let seq_str = u64_to_string(seq_num);
    body.append(seq_str.as_str());
    body.append(soh_str());
    body.append("52=");
    body.append(sending_time);
    body.append(soh_str());
    proof {
        assert(body@ =~= header_part(msg_type@, sender@, target@, seq_num as nat, sending_time@));
    }
    let n: usize = extra_fields.len();
    let mut idx: usize = 0;
    proof {
        assert(extra_fields@.take(0) =~= Seq::<(Seq<char>, Seq<char>)>::empty());
        assert(body@ + Seq::<char>::empty() =~= body@);
    }
    while idx < n
        invariant
            n == extra_fields@.len(),
            0 <= idx <= n,
            body@ == header_part(msg_type@, sender@, target@, seq_num as nat, sending_time@)
                + extra_part(extra_fields@.take(idx as int)),
        decreases n - idx,
    {
        let ghost pre = body@;
        let e = extra_fields.entry_at(idx);
        if !is_header_key_str(e.0.as_str()) {
            body.append(e.0.as_str());
            body.append("=");
            body.append(e.1.as_str());
            body.append(soh_str());
        }
        proof {
            let t1 = extra_fields@.take(idx + 1);
            assert(t1.drop_last() =~= extra_fields@.take(idx as int));
            assert(t1.last() == extra_fields@[idx as int]);
            if is_header_key(extra_fields@[idx as int].0) {
                assert(extra_part(t1) =~= extra_part(extra_fields@.take(idx as int)));
                assert(body@ == pre);
            } else {
                assert(extra_part(t1) =~= extra_part(extra_fields@.take(idx as int)) + (
                extra_fields@[idx as int].0 + "="@ + extra_fields@[idx as int].1 + seq![soh()]));
            }
            assert(body@ =~= header_part(msg_type@, sender@, target@, seq_num as nat, sending_time@)
                + extra_part(t1));
        }
        idx = idx + 1;
    }
    proof {
        assert(extra_fields@.take(n as int) =~= extra_fields@);
    }
    let body_len: usize = body.as_str().len();
    let mut out = String::from_str("8=");
    out.append(version);
    out.append(soh_str());
    out.append("9=");
    let len_str = u64_to_string(body_len as u64);
    out.append(len_str.as_str());
    out.append(soh_str());
    out.append(body.as_str());
    out.append("10=000");
    out.append(soh_str());
    proof {
        assert(out@ =~= wire_of(
            version@,
            msg_type@,
            sender@,
            target@,
            seq_num as nat,
            sending_time@,
            extra_fields@,
        ));
    }
    out
}

/// The process-wide outbound sequence counter: incremented then read
/// as one exclusive-access step per encode, so no two encodes that
/// take it in turn can observe or emit the same value.
pub struct SeqCounter {
    pub val: u64,
}

impl SeqCounter {
    /// Returns a counter initialised to zero.
    pub fn new() -> (r: SeqCounter)
        ensures
            r.val == 0,
    {
        SeqCounter { val: 0 }
    }

    /// Increments the counter and returns the new value.
    pub fn next(&mut self) -> (n: u64)
        requires
            old(self).val < u64::MAX,
        ensures
            final(self).val == old(self).val + 1,
            n == final(self).val,
    {
        self.val = self.val + 1;
        self.val
    }
}

/// Encodes an outbound message.
///
/// Fails exactly on a blank message type, leaving the counter alone.
/// Otherwise it draws the next sequence number, resolves the protocol
/// version, sender and target from the caller's fields (with their
/// defaults), resolves the message-type code through the dictionary,
/// renders `now_ms` as the SendingTime header field, and assembles the
/// wire message, echoing the inputs back.
pub fn encode(msg_type: &str, fields: &FieldMap, counter: &mut SeqCounter, now_ms: u64) -> (r:
    Result<SentMessage, FixError>)
    requires
        old(counter).val < u64::MAX,
    ensures
        r is Err <==> blank(msg_type@),
        r is Err ==> r->Err_0 == FixError::EmptyMessageType && final(counter).val == old(
            counter,
        ).val,
        r is Ok ==> final(counter).val == old(counter).val + 1,
        r is Ok ==> ({
            let version = map_get_or(fields@, "BeginString"@, "FIX.4.4"@);
            let sender = map_get_or(fields@, "SenderCompID"@, "ALICE"@);
            let target = map_get_or(fields@, "TargetCompID"@, "BROKER"@);
            let seq: nat = (old(counter).val + 1) as nat;
            &&& r->Ok_0.sequence_number == old(counter).val + 1
            &&& r->Ok_0.fix_message@ == wire_of(
                version,
                code_for_type_name(msg_type@),
                sender,
                target,
                seq,
                sending_time_of(now_ms as nat),
                fields@,
            )
            &&& r->Ok_0.session_id@ == sender + "->"@ + target
            &&& r->Ok_0.msg_type@ == msg_type@
            &&& r->Ok_0.fields@ == fields@
            &&& r->Ok_0.sent_at_ms == now_ms
        }),
{
    if is_blank(msg_type) {
        return Err(FixError::EmptyMessageType);
    }
    let seq_num = counter.next();
    let fix_version = fields.get_or("BeginString", "FIX.4.4");
    let sender = fields.get_or("SenderCompID", "ALICE");
    let target = fields.get_or("TargetCompID", "BROKER");
    let msg_type_num = msg_type_to_num(msg_type);
    let stime = format_sending_time(now_ms);
    let fix_message = build_fix_message(
        fix_version.as_str(),
        msg_type_num.as_str(),
        sender.as_str(),
        target.as_str(),
        seq_num,
        stime.as_str(),
        fields,
    );
    let mut session_id = sender;
    session_id.append("->");
    session_id.append(target.as_str());
    Ok(
        SentMessage {
            session_id,
            msg_type: msg_type.to_owned(),
            sequence_number: seq_num,
            fix_message,
            fields: fields.duplicate(),
            sent_at_ms: now_ms,
        },
    )
}

/// The counter states along a chain of issues each increment the
/// previous state by one.
proof fn lemma_counter_chain(vals: Seq<u64>, k: int)
    requires
        forall|t: int| 0 <= t < vals.len() - 1 ==> #[trigger] vals[t + 1] == vals[t] + 1,
        0 <= k < vals.len(),
    ensures
        vals[k] == vals[0] + k,
    decreases k,
{
    if k > 0 {
        lemma_counter_chain(vals, k - 1);
        assert(vals[(k - 1) + 1] == vals[k - 1] + 1);
    }
}

/// Law: across any number of encode calls that take the counter in
/// turn, the issued sequence numbers are strictly increasing, hence
/// unique; the first number issued after initialisation at zero is one
/// more than the starting value. `vals` are the successive counter
/// states (one more state than issues) and `nums` the issued numbers,
/// exactly as the contracts of `SeqCounter::next` and `encode` fix
/// them.
pub proof fn lemma_seq_nums_strictly_increasing(vals: Seq<u64>, nums: Seq<u64>)
    requires
        vals.len() == nums.len() + 1,
        forall|t: int| 0 <= t < nums.len() ==> #[trigger] vals[t + 1] == vals[t] + 1,
        forall|t: int| 0 <= t < nums.len() ==> #[trigger] nums[t] == vals[t + 1],
    ensures
        forall|i: int, j: int| 0 <= i < j < nums.len() ==> nums[i] < nums[j],
        nums.len() > 0 ==> nums[0] == vals[0] + 1,
{
    assert forall|i: int, j: int| 0 <= i < j < nums.len() implies nums[i] < nums[j] by {
        lemma_counter_chain(vals, i + 1);
        lemma_counter_chain(vals, j + 1);
        assert(nums[i] == vals[i + 1]);
        assert(nums[j] == vals[j + 1]);
    }
    if nums.len() > 0 {
        let z: int = 0;
        assert(nums[z] == vals[z + 1]);
        assert(vals[z + 1] == vals[z] + 1);
    }
}

/// Law: a caller-supplied entry whose key duplicates a synthesized
/// header field contributes nothing to the encoded body — removing it
/// leaves the caller-supplied portion, and with it the whole wire
/// message, unchanged.
pub proof fn lemma_header_duplicates_suppressed(pairs: Seq<(Seq<char>, Seq<char>)>, i: int)
    requires
        0 <= i < pairs.len(),
        is_header_key(pairs[i].0),
    ensures
        extra_part(pairs.remove(i)) == extra_part(pairs),
    decreases pairs.len(),
{
    if i == pairs.len() - 1 {
        assert(pairs.remove(i) =~= pairs.drop_last());
        assert(extra_part(pairs.drop_last()) + Seq::<char>::empty() =~= extra_part(
            pairs.drop_last(),
        ));
    } else {
        lemma_header_duplicates_suppressed(pairs.drop_last(), i);
        assert(pairs.remove(i).drop_last() =~= pairs.drop_last().remove(i));
        assert(pairs.remove(i).last() == pairs.last());
    }
}

} // verus!
