//! The domain data: decoded fields, field maps keyed by name or by
//! numeric-tag string, validation errors, and the failure kinds of the
//! three entry points.
use vstd::prelude::*;
use vstd::string::*;
use crate::text::str_eq;

verus! {

/// The three caller-input failures: blank decode input, blank encode
/// message type, and a validation version outside the supported set.
#[derive(Clone, Copy, Debug, PartialEq, Eq, Structural)]
pub enum FixError {
    EmptyInput,
    EmptyMessageType,
    UnsupportedVersion,
}

/// One decoded tag=value field: the numeric tag, its canonical name
/// (`Unknown` when the tag is outside the dictionary), and the verbatim
/// value text.
#[derive(Debug)]
pub struct ParsedField {
    pub tag: u32,
    pub name: String,
    pub value: String,
}

/// The mathematical content of a `ParsedField`.
pub struct FieldModel {
    pub tag: u32,
    pub name: Seq<char>,
    pub value: Seq<char>,
}

impl View for ParsedField {
    type V = FieldModel;

    open spec fn view(&self) -> FieldModel {
        FieldModel { tag: self.tag, name: self.name@, value: self.value@ }
    }
}

/// The models of a sequence of decoded fields.
pub open spec fn field_views(s: Seq<ParsedField>) -> Seq<FieldModel> {
    s.map_values(|f: ParsedField| f@)
}

/// One validation finding: the canonical field name, its numeric tag,
/// and a description of the violation.
#[derive(Debug)]
pub struct ValidationError {
    pub field: String,
    pub tag: u32,
    pub message: String,
}

/// The mathematical content of a `ValidationError`.
pub struct ErrModel {
    pub field: Seq<char>,
    pub tag: u32,
    pub message: Seq<char>,
}

impl View for ValidationError {
    type V = ErrModel;

    open spec fn view(&self) -> ErrModel {
        ErrModel { field: self.field@, tag: self.tag, message: self.message@ }
    }
}

/// The models of a sequence of validation errors.
pub open spec fn err_views(s: Seq<ValidationError>) -> Seq<ErrModel> {
    s.map_values(|e: ValidationError| e@)
}

/// The first value stored under key `k`, if any.
pub open spec fn map_get(pairs: Seq<(Seq<char>, Seq<char>)>, k: Seq<char>) -> Option<Seq<char>>
    decreases pairs.len(),
{
    if pairs.len() == 0 {
        None
    } else if pairs[0].0 == k {
        Some(pairs[0].1)
    } else {
        map_get(pairs.drop_first(), k)
    }
}

/// Whether some pair carries key `k`.
pub open spec fn has_key(pairs: Seq<(Seq<char>, Seq<char>)>, k: Seq<char>) -> bool {
    map_get(pairs, k) is Some
}

/// A caller-supplied mapping of field names (or numeric-tag strings) to
/// values, kept in insertion order. Lookups return the first entry with
/// a matching key, so a map whose keys are unique behaves as an
/// ordinary dictionary.
#[derive(Debug)]
pub struct FieldMap {
    entries: Vec<(String, String)>,
}

impl View for FieldMap {
    type V = Seq<(Seq<char>, Seq<char>)>;

    closed spec fn view(&self) -> Seq<(Seq<char>, Seq<char>)> {
        Seq::new(self.entries@.len(), |i: int| (self.entries@[i].0@, self.entries@[i].1@))
    }
}

impl FieldMap {
    /// Returns an empty map.
    pub fn new() -> (r: FieldMap)
        ensures
            r@ =~= Seq::<(Seq<char>, Seq<char>)>::empty(),
    {
        FieldMap { entries: Vec::new() }
    }

    /// The number of entries.
    pub fn len(&self) -> (n: usize)
        ensures
            n == self@.len(),
    {
        self.entries.len()
    }

    /// Appends an entry.
    pub fn insert(&mut self, key: String, value: String)
        ensures
            final(self)@ =~= old(self)@.push((key@, value@)),
    {
        self.entries.push((key, value));
    }

    /// The entry at position `i`, as (key, value).
    pub fn entry_at(&self, i: usize) -> (r: (String, String))
        requires
            i < self@.len(),
        ensures
            r.0@ == self@[i as int].0,
            r.1@ == self@[i as int].1,
    {
        let e = &self.entries[i];
        (e.0.clone(), e.1.clone())
    }

    /// Returns whether some entry carries key `k`.
    pub fn contains_key(&self, k: &str) -> (r: bool)
        ensures
            r == has_key(self@, k@),
    {
        let n: usize = self.entries.len();
        let mut i: usize = 0;
        proof {
            assert(self@.skip(0) =~= self@);
        }
        while i < n
            invariant
                n == self@.len(),
                0 <= i <= n,
                map_get(self@, k@) == map_get(self@.skip(i as int), k@),
            decreases n - i,
        {
            proof {
                assert(self@.skip(i as int).drop_first() =~= self@.skip(i + 1));
            }
            if str_eq(self.entries[i].0.as_str(), k) {
                assert(map_get(self@.skip(i as int), k@) == Some(self@[i as int].1));
                return true;
            }
            i = i + 1;
        }
        proof {
            assert(self@.skip(n as int) =~= Seq::<(Seq<char>, Seq<char>)>::empty());
        }
        false
    }

    /// Returns the value of the first entry with key `k`, if any.
    pub fn get(&self, k: &str) -> (r: Option<String>)
        ensures
            match r {
                Some(v) => map_get(self@, k@) == Some(v@),
                None => map_get(self@, k@) is None,
            },
    {
        let n: usize = self.entries.len();
        let mut i: usize = 0;
        proof {
            assert(self@.skip(0) =~= self@);
        }
        while i < n
            invariant
                n == self@.len(),
                0 <= i <= n,
                map_get(self@, k@) == map_get(self@.skip(i as int), k@),
            decreases n - i,
        {
            proof {
                assert(self@.skip(i as int).drop_first() =~= self@.skip(i + 1));
            }
            if str_eq(self.entries[i].0.as_str(), k) {
                assert(map_get(self@.skip(i as int), k@) == Some(self@[i as int].1));
                return Some(self.entries[i].1.clone());
            }
            i = i + 1;
        }
        proof {
            assert(self@.skip(n as int) =~= Seq::<(Seq<char>, Seq<char>)>::empty());
        }
        None
    }

    /// Returns the value stored under `k`, or `fallback` when no entry
    /// carries that key.
    pub fn get_or(&self, k: &str, fallback: &str) -> (r: String)
        ensures
            r@ == map_get_or(self@, k@, fallback@),
    {
        match self.get(k) {
            Some(v) => v,
            None => fallback.to_owned(),
        }
    }

    /// Returns a map with the same entries.
    pub fn duplicate(&self) -> (r: FieldMap)
        ensures
            r@ =~= self@,
    {
        let n: usize = self.entries.len();
        let mut out = FieldMap::new();
        let mut i: usize = 0;
        while i < n
            invariant
                n == self@.len(),
                0 <= i <= n,
                out@ =~= self@.take(i as int),
            decreases n - i,
        {
            let e = self.entry_at(i);
            out.insert(e.0, e.1);
            proof {
                assert(self@.take(i as int).push(self@[i as int]) =~= self@.take(i + 1));
            }
            i = i + 1;
        }
        proof {
            assert(self@.take(n as int) =~= self@);
        }
        out
    }
}

/// What a successful decode reports: the declared message type, the
/// fields in order of appearance, their count, and the byte length of
/// the raw input.
#[derive(Debug)]
pub struct DecodeResult {
    pub msg_type: String,
    pub fields: Vec<ParsedField>,
    pub field_count: usize,
    pub raw_length: usize,
}

/// What a successful encode reports: the session identifier
/// (`sender->target`), the caller's message type echoed back, the
/// sequence number used, the assembled wire message, the caller's
/// field map echoed back, and the capture timestamp.
#[derive(Debug)]
pub struct SentMessage {
    pub session_id: String,
    pub msg_type: String,
    pub sequence_number: u64,
    pub fix_message: String,
    pub fields: FieldMap,
    pub sent_at_ms: u64,
}

/// What a successful validation reports: overall validity (true
/// exactly when the error list is empty), the echoed version, the
/// resolved message type, and the ordered error list.
#[derive(Debug)]
pub struct ValidateResult {
    pub valid: bool,
    pub version: String,
    pub msg_type: String,
    pub errors: Vec<ValidationError>,
}

/// The value stored under key `k`, or `fallback` when `k` is absent.
pub open spec fn map_get_or(
    pairs: Seq<(Seq<char>, Seq<char>)>,
    k: Seq<char>,
    fallback: Seq<char>,
) -> Seq<char> {
    match map_get(pairs, k) {
        Some(v) => v,
        None => fallback,
    }
}

} // verus!
