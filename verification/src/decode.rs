//! The decoder: splits a raw wire string into tag=value fields on the
//! chosen delimiter, labels each tag through the field dictionary, and
//! reports the declared message type.
use vstd::prelude::*;
use vstd::string::*;
use crate::dict::{fix_msg_type_name, tag_name, tag_to_name, type_name_for_code};
use crate::fields::{field_views, DecodeResult, FieldModel, FixError, ParsedField};
use crate::soh;
use crate::text::{
    blank, byte_len, contains_char, has_char, is_blank, parse_u32, parse_u32_str, trim, trim_str,
};

verus! {

/// The delimiter a raw message is split on: the control character when
/// it occurs anywhere in the input, the pipe character otherwise.
pub open spec fn delim_of(s: Seq<char>) -> char {
    if has_char(s, soh()) {
        soh()
    } else {
        '|'
    }
}

/// The segments of `s` between occurrences of the delimiter `d`
/// (`n` delimiters give `n + 1` segments, empty ones included).
pub open spec fn split_on(s: Seq<char>, d: char) -> Seq<Seq<char>>
    decreases s.len(),
{
    if s.len() == 0 {
        seq![s]
    } else if s.last() == d {
        split_on(s.drop_last(), d).push(Seq::empty())
    } else {
        let rest = split_on(s.drop_last(), d);
        rest.drop_last().push(rest.last().push(s.last()))
    }
}

/// `i` is the position of the first `=` in `seg`.
pub open spec fn is_first_eq_at(seg: Seq<char>, i: int) -> bool {
    0 <= i < seg.len() && seg[i] == '=' && (forall|j: int| 0 <= j < i ==> seg[j] != '=')
}

/// At most one position is the first `=`.
proof fn lemma_first_eq_unique(seg: Seq<char>, i: int, j: int)
    requires
        is_first_eq_at(seg, i),
        is_first_eq_at(seg, j),
    ensures
        i == j,
{
    if i < j {
        assert(seg[i] != '=');
    }
    if j < i {
        assert(seg[j] != '=');
    }
}

/// The field a segment contributes: none when the segment has no `=`
/// or its tag portion (trimmed of whitespace) is not a decimal number
/// fitting 32 bits; otherwise the parsed tag, its dictionary name, and
/// the text after the first `=` kept verbatim.
pub open spec fn field_of_segment(seg: Seq<char>) -> Option<FieldModel> {
    if !has_char(seg, '=') {
        None
    } else {
        let i = choose|i: int| is_first_eq_at(seg, i);
        match parse_u32(trim(seg.take(i))) {
            Some(tag) => Some(
                FieldModel { tag, name: tag_name(tag), value: seg.skip(i + 1) },
            ),
            None => None,
        }
    }
}

/// The fields contributed by a sequence of segments, in order.
pub open spec fn fields_of(segs: Seq<Seq<char>>) -> Seq<FieldModel>
    decreases segs.len(),
{
    if segs.len() == 0 {
        Seq::empty()
    } else {
        fields_of(segs.drop_last()) + match field_of_segment(segs.last()) {
            Some(f) => seq![f],
            None => Seq::<FieldModel>::empty(),
        }
    }
}

/// The fields a raw message decodes to.
pub open spec fn decode_fields(s: Seq<char>) -> Seq<FieldModel> {
    fields_of(split_on(s, delim_of(s)))
}

/// The message type a decoded field sequence declares: the dictionary
/// name for the value of the last field with tag 35, `Unknown` when no
/// such field exists.
pub open spec fn msg_type_of(fs: Seq<FieldModel>) -> Seq<char>
    decreases fs.len(),
{
    if fs.len() == 0 {
        "Unknown"@
    } else if fs.last().tag == 35 {
        type_name_for_code(fs.last().value)
    } else {
        msg_type_of(fs.drop_last())
    }
}

/// Appends the field contributed by one segment, if any, and updates
/// the declared message type when that field carries tag 35.
fn process_segment(seg: &str, fs: &mut Vec<ParsedField>, msg_type: &mut String)
    ensures
        field_views(final(fs)@) =~= field_views(old(fs)@) + (match field_of_segment(seg@) {
            Some(f) => seq![f],
            None => Seq::<FieldModel>::empty(),
        }),
        final(msg_type)@ == (match field_of_segment(seg@) {
            Some(f) => if f.tag == 35 {
                type_name_for_code(f.value)
            } else {
                old(msg_type)@
            },
            None => old(msg_type)@,
        }),
{
    let n: usize = seg.unicode_len();
    let mut i: usize = 0;
    while i < n
        invariant
            n == seg@.len(),
            0 <= i <= n,
            forall|j: int| 0 <= j < i ==> seg@[j] != '=',
        ensures
            0 <= i <= n,
            forall|j: int| 0 <= j < i ==> seg@[j] != '=',
            i == n || seg@[i as int] == '=',
        decreases n - i,
    {
        if seg.get_char(i) == '=' {
            break;
        }
        i = i + 1;
    }
    if i == n {
        assert(!has_char(seg@, '='));
        return;
    }
    assert(is_first_eq_at(seg@, i as int));
    proof {
        let k = choose|k: int| is_first_eq_at(seg@, k);
        lemma_first_eq_unique(seg@, k, i as int);
    }
    let tag_part = seg.substring_char(0, i);
    proof {
        assert(tag_part@ =~= seg@.take(i as int));
    }
    let trimmed = trim_str(tag_part);
    match parse_u32_str(trimmed) {
        None => {},
        Some(tag) => {
            let value = seg.substring_char(i + 1, n).to_owned();
            proof {
                assert(value@ =~= seg@.skip(i + 1));
            }
            if tag == 35 {
                let resolved = fix_msg_type_name(value.as_str());
                *msg_type = resolved;
            }
            let name = tag_to_name(tag);
            let pf = ParsedField { tag, name, value };
            let ghost before = fs@;
            fs.push(pf);
            proof {
                assert(field_views(fs@) =~= field_views(before) + seq![pf@]);
            }
        },
    }
}

/// Decodes a raw wire string.
///
/// Fails exactly on blank input. On success the fields are those of
/// `decode_fields`, in order of appearance; the message type is the one
/// the last tag-35 field declares (`Unknown` without one); the count is
/// the number of fields kept; and the raw length is the input's byte
/// length.
pub fn decode(raw: &str) -> (r: Result<DecodeResult, FixError>)
    ensures
        r is Err <==> blank(raw@),
        r is Err ==> r->Err_0 == FixError::EmptyInput,
        r is Ok ==> field_views(r->Ok_0.fields@) == decode_fields(raw@),
        r is Ok ==> r->Ok_0.msg_type@ == msg_type_of(decode_fields(raw@)),
        r is Ok ==> r->Ok_0.field_count == decode_fields(raw@).len(),
        r is Ok ==> r->Ok_0.raw_length == byte_len(raw@),
{
    if is_blank(raw) {
        return Err(FixError::EmptyInput);
    }
    let raw_length: usize = raw.len();
    let delim: char = if contains_char(raw, crate::soh_char()) {
        crate::soh_char()
    } else {
        '|'
    };
    assert(delim == delim_of(raw@));
    let n: usize = raw.unicode_len();
    let mut fields: Vec<ParsedField> = Vec::new();
    let mut msg_type: String = String::from_str("Unknown");
    let mut start: usize = 0;
    let mut i: usize = 0;
    proof {
        assert(raw@.take(0) =~= Seq::<char>::empty());
        assert(split_on(raw@.take(0), delim) =~= seq![Seq::<char>::empty()]);
        assert(raw@.subrange(0, 0) =~= Seq::<char>::empty());
        assert(field_views(fields@) =~= Seq::<FieldModel>::empty());
    }
    while i < n
        invariant
            n == raw@.len(),
            0 <= start <= i <= n,
            delim == delim_of(raw@),
            split_on(raw@.take(i as int), delim).len() >= 1,
            split_on(raw@.take(i as int), delim).last() =~= raw@.subrange(
                start as int,
                i as int,
            ),
            field_views(fields@) =~= fields_of(
                split_on(raw@.take(i as int), delim).drop_last(),
            ),
            msg_type@ == msg_type_of(field_views(fields@)),
        decreases n - i,
    {
        let c = raw.get_char(i);
        let ghost pre = split_on(raw@.take(i as int), delim);
        proof {
            assert(raw@.take(i + 1).drop_last() =~= raw@.take(i as int));
            assert(raw@.take(i + 1).last() == raw@[i as int]);
        }
        if c == delim {
            let seg = raw.substring_char(start, i);
            proof {
                assert(seg@ =~= pre.last());
                assert(split_on(raw@.take(i + 1), delim) =~= pre.push(Seq::<char>::empty()));
                assert(pre.push(Seq::<char>::empty()).drop_last() =~= pre);
            }
            let ghost fs_before = field_views(fields@);
            process_segment(seg, &mut fields, &mut msg_type);
            proof {
                assert(fields_of(pre) =~= fields_of(pre.drop_last()) + match field_of_segment(
                    pre.last(),
                ) {
                    Some(f) => seq![f],
                    None => Seq::<FieldModel>::empty(),
                });
                lemma_msg_type_of_extend(fs_before, field_views(fields@));
                assert(raw@.subrange(i + 1, i + 1) =~= Seq::<char>::empty());
            }
            start = i + 1;
        } else {
            proof {
                let ext = split_on(raw@.take(i + 1), delim);
                assert(ext =~= pre.drop_last().push(pre.last().push(raw@[i as int])));
                assert(ext.drop_last() =~= pre.drop_last());
                assert(ext.last() =~= raw@.subrange(start as int, i + 1));
            }
        }
        i = i + 1;
    }
    proof {
        assert(raw@.take(n as int) =~= raw@);
    }
    let seg = raw.substring_char(start, n);
    let ghost pre = split_on(raw@, delim);
    proof {
        assert(seg@ =~= pre.last());
    }
    let ghost fs_before = field_views(fields@);
    process_segment(seg, &mut fields, &mut msg_type);
    proof {
        assert(fields_of(pre) =~= fields_of(pre.drop_last()) + match field_of_segment(
            pre.last(),
        ) {
            Some(f) => seq![f],
            None => Seq::<FieldModel>::empty(),
        });
        lemma_msg_type_of_extend(fs_before, field_views(fields@));
    }
    let field_count: usize = fields.len();
    proof {
        assert(field_views(fields@).len() == fields@.len());
    }
    Ok(DecodeResult { msg_type, fields, field_count, raw_length })
}

/// A field contributed by any one segment stays in the contribution of
/// the whole segment sequence.
proof fn lemma_fields_of_keeps_segment(segs: Seq<Seq<char>>, i: int)
    requires
        0 <= i < segs.len(),
        field_of_segment(segs[i]) is Some,
    ensures
        fields_of(segs).contains(field_of_segment(segs[i])->Some_0),
    decreases segs.len(),
{
    let f = field_of_segment(segs[i])->Some_0;
    if i == segs.len() - 1 {
        assert(fields_of(segs)[fields_of(segs.drop_last()).len() as int] == f);
    } else {
        lemma_fields_of_keeps_segment(segs.drop_last(), i);
        let k = choose|k: int|
            0 <= k < fields_of(segs.drop_last()).len() && fields_of(segs.drop_last())[k] == f;
        assert(fields_of(segs)[k] == f);
    }
}

/// Law: decode never drops a well-formed segment — every segment of
/// the delimiter split that contains `=` and whose tag portion is
/// numeric contributes its field to the decoded output.
pub proof fn lemma_decode_keeps_well_formed(s: Seq<char>, i: int)
    requires
        0 <= i < split_on(s, delim_of(s)).len(),
        field_of_segment(split_on(s, delim_of(s))[i]) is Some,
    ensures
        decode_fields(s).contains(field_of_segment(split_on(s, delim_of(s))[i])->Some_0),
{
    lemma_fields_of_keeps_segment(split_on(s, delim_of(s)), i);
}

/// Law: delimiter selection — an input in which the control character
/// occurs anywhere is split on it, even when pipe characters also
/// occur in values; an input without it is split on the pipe.
pub proof fn lemma_delimiter_selection(s: Seq<char>)
    ensures
        has_char(s, soh()) ==> delim_of(s) == soh(),
        !has_char(s, soh()) ==> delim_of(s) == '|',
{
}

/// Extending a field sequence by at most one field moves the declared
/// message type the way `process_segment` reports it.
proof fn lemma_msg_type_of_extend(fs: Seq<FieldModel>, ext: Seq<FieldModel>)
    requires
        ext.len() == fs.len() || ext.len() == fs.len() + 1,
        ext.take(fs.len() as int) =~= fs,
    ensures
        msg_type_of(ext) == if ext.len() == fs.len() {
            msg_type_of(fs)
        } else if ext.last().tag == 35 {
            type_name_for_code(ext.last().value)
        } else {
            msg_type_of(fs)
        },
{
    if ext.len() == fs.len() {
        assert(ext =~= fs);
    } else {
        assert(ext.drop_last() =~= fs);
    }
}

} // verus!
