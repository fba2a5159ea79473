//! Language detection: the detected ranges, their ranked candidate
//! languages, and the parsing of the detection service's reply.
//!
//! The detection service answers with ranges of the input text, each
//! carrying a block of wide text: candidate language codes separated by a
//! terminator, the whole block ending in two terminators. Discovery of the
//! service itself and the call into it are the shell's; validating the
//! discovered services and parsing the reply happen here.

use vstd::prelude::*;

use crate::guid::guid_eq;
use crate::guid::Guid;
use crate::text::utf16_encode;
use crate::voice::priority_in;
use crate::voice::spec_priority;

verus! {

/// Why recognition failed, by failing stage.
#[derive(Clone, Copy, Debug, PartialEq, Eq, Structural)]
pub enum DetectionError {
    /// Service discovery itself failed, with its status code.
    ServiceDiscoveryFailed(i32),
    /// Discovery returned no service at all.
    NoServicesFound,
    /// The discovered service is not the language-detection service.
    InvalidServiceGuid,
    /// More than one language-detection service was found.
    MultipleServicesFound,
    /// The recognition call failed, with its status code.
    RecognitionFailed(i32),
    /// A detected language code was not valid wide text; carries the index
    /// of the offending code within its range's block.
    LanguageInvalidUtf16(usize),
    /// Releasing the reply's resources failed, with its status code.
    PropertyBagFreeFailed(i32),
    /// The service reported a range outside the submitted text.
    RangeOutOfBounds,
    /// No requested language was recognised by the in-process detector.
    NoKnownLanguages,
}

/// A contiguous span of the input text with its candidate languages, most
/// likely first.
#[derive(Debug, PartialEq, Eq)]
pub struct DetectedLanguage {
    /// Inclusive index of the first wide character the range covers.
    pub start: usize,
    /// Inclusive index of the last wide character the range covers.
    pub end: usize,
    /// The identified languages, most certain first; never empty for a range
    /// that exists.
    pub languages: Vec<String>,
}

impl DetectedLanguage {
    /// A range lies within a text of `text_len` wide characters and names at
    /// least one language.
    pub open spec fn wf(&self, text_len: int) -> bool {
        &&& self.start <= self.end < text_len
        &&& self.languages@.len() > 0
    }

    /// Position of the first candidate language that `lang_code` matches;
    /// lower is better, `None` means no candidate matches.
    pub fn get_priority(&self, lang_code: &str) -> (r: Option<usize>)
        ensures
            match r {
                Option::Some(i) => spec_priority(self.languages.deep_view(), lang_code@)
                    == Option::Some(i as int),
                Option::None => spec_priority(self.languages.deep_view(), lang_code@) is None,
            },
    {
        priority_in(&self.languages, lang_code)
    }
}

/// Validates service discovery: exactly one service, and it must be the
/// language-detection service. Zero matches, a wrong identifier and several
/// matches are distinct errors.
pub fn validate_services(service_guids: &Vec<Guid>, expected: &Guid) -> (r: Result<
    (),
    DetectionError,
>)
    ensures
        r == (if service_guids@.len() == 0 {
            Result::<(), DetectionError>::Err(DetectionError::NoServicesFound)
        } else if service_guids@[0] != *expected {
            Result::<(), DetectionError>::Err(DetectionError::InvalidServiceGuid)
        } else if service_guids@.len() != 1 {
            Result::<(), DetectionError>::Err(DetectionError::MultipleServicesFound)
        } else {
            Result::<(), DetectionError>::Ok(())
        }),
{
    if service_guids.len() == 0 {
        Err(DetectionError::NoServicesFound)
    } else if !guid_eq(&service_guids[0], expected) {
        Err(DetectionError::InvalidServiceGuid)
    } else if service_guids.len() != 1 {
        Err(DetectionError::MultipleServicesFound)
    } else {
        Ok(())
    }
}

/// The text submitted for recognition: the input without its single trailing
/// terminator, when it has one.
pub open spec fn spec_without_trailing_nul(units: Seq<u16>) -> Seq<u16> {
    if units.len() > 0 && units.last() == 0 {
        units.drop_last()
    } else {
        units
    }
}

/// Strips one trailing terminator before submission, when one is present.
pub fn strip_trailing_nul(units: &Vec<u16>) -> (r: Vec<u16>)
    ensures
        r@ == spec_without_trailing_nul(units@),
{
    let keep: usize = if units.len() > 0 && units[units.len() - 1] == 0 {
        units.len() - 1
    } else {
        units.len()
    };
    let mut out: Vec<u16> = Vec::new();
    let mut i: usize = 0;
    while i < keep
        invariant
            0 <= i <= keep <= units@.len(),
            out@ == units@.take(i as int),
        decreases keep - i,
    {
        out.push(units[i]);
        proof {
            assert(out@ =~= units@.take(i + 1));
        }
        i = i + 1;
    }
    proof {
        assert(units@.take(keep as int) =~= spec_without_trailing_nul(units@));
    }
    out
}

/// Index of the first terminator in `s`, or `s.len()` when there is none.
pub open spec fn first_nul(s: Seq<u16>) -> int
    decreases s.len(),
{
    if s.len() == 0 {
        0
    } else if s[0] == 0 {
        0
    } else {
        1 + first_nul(s.drop_first())
    }
}

pub proof fn lemma_first_nul_bounds(s: Seq<u16>)
    ensures
        0 <= first_nul(s) <= s.len(),
        forall|j: int| 0 <= j < first_nul(s) ==> s[j] != 0,
        first_nul(s) < s.len() ==> s[first_nul(s)] == 0,
    decreases s.len(),
{
    if s.len() == 0 {
    } else if s[0] == 0 {
    } else {
        lemma_first_nul_bounds(s.drop_first());
        assert forall|j: int| 0 <= j < first_nul(s) implies s[j] != 0 by {
            if j > 0 {
                assert(s[j] == s.drop_first()[j - 1]);
            }
        }
        if first_nul(s) < s.len() {
            assert(s[first_nul(s)] == s.drop_first()[first_nul(s.drop_first())]);
        }
    }
}

/// The first terminator is exactly the first index holding one.
pub proof fn lemma_first_nul_is(s: Seq<u16>, i: int)
    requires
        0 <= i <= s.len(),
        forall|j: int| 0 <= j < i ==> s[j] != 0,
        i < s.len() ==> s[i] == 0,
    ensures
        first_nul(s) == i,
{
    lemma_first_nul_bounds(s);
    if first_nul(s) < i {
        assert(s[first_nul(s)] != 0);
    } else if i < first_nul(s) {
        assert(s[i] != 0);
    }
}

/// The fields of `s` between its terminators: one more field than there are
/// terminators, so a trailing terminator yields a trailing empty field.
pub open spec fn split_nul(s: Seq<u16>) -> Seq<Seq<u16>>
    decreases s.len(),
    via split_nul_decreases
{
    if first_nul(s) == s.len() {
        seq![s]
    } else {
        seq![s.take(first_nul(s))] + split_nul(s.skip(first_nul(s) + 1))
    }
}

#[via_fn]
proof fn split_nul_decreases(s: Seq<u16>) {
    lemma_first_nul_bounds(s);
}

/// What decoding a wide-character sequence yields: its character sequence,
/// or nothing when the units are not valid wide text.
pub uninterp spec fn utf16_decoded(units: Seq<u16>) -> Option<Seq<char>>;

/// Relies on `String::from_utf16`: the outcome is a function of the units
/// alone, succeeding exactly on valid wide text; a decoded text re-encodes
/// to exactly the input units, and an empty input decodes to the empty
/// string.
#[verifier::external_body]
fn decode_utf16(units: &Vec<u16>) -> (r: Option<String>)
    ensures
        (r is Some) == (utf16_decoded(units@) is Some),
        r matches Option::Some(s) ==> utf16_decoded(units@) == Option::Some(s@) && utf16_encode(s@)
            == units@,
        units@.len() == 0 ==> r is Some,
{
    String::from_utf16(units).ok()
}

/// Splits a terminator-separated block into its fields, with the semantics
/// of `split_nul`.
fn split_on_nul(data: &Vec<u16>) -> (r: Vec<Vec<u16>>)
    ensures
        r.deep_view() == split_nul(data@),
{
    let ghost w = data@;
    let mut out: Vec<Vec<u16>> = Vec::new();
    let mut cur: Vec<u16> = Vec::new();
    let ghost mut start: int = 0;
    let mut i: usize = 0;
    proof {
        assert(out.deep_view() =~= Seq::<Seq<u16>>::empty());
        assert(w.skip(0) =~= w);
    }
    while i < data.len()
        invariant
            0 <= start <= i <= w.len(),
            w == data@,
            cur@ == w.subrange(start, i as int),
            forall|j: int| start <= j < i ==> w[j] != 0,
            split_nul(w) == out.deep_view() + split_nul(w.skip(start)),
        decreases w.len() - i,
    {
        let unit = data[i];
        if unit == 0 {
            proof {
                let rest = w.skip(start);
                assert forall|j: int| 0 <= j < i - start implies rest[j] != 0 by {
                    assert(rest[j] == w[start + j]);
                }
                assert(rest[i - start] == 0);
                lemma_first_nul_is(rest, i - start);
                assert(rest.take(i - start) =~= cur@);
                assert(rest.skip(i - start + 1) =~= w.skip(i + 1));
                assert(split_nul(rest) == seq![cur@] + split_nul(w.skip(i + 1)));
                assert(out.deep_view() + split_nul(w.skip(start)) == (out.deep_view() + seq![cur@])
                    + split_nul(w.skip(i + 1)));
            }
            let ghost prev = out.deep_view();
            let ghost cur_units = cur@;
            proof {
                assert(cur.deep_view() =~= cur_units);
            }
            out.push(cur);
            proof {
                assert(out.deep_view() =~~= prev + seq![cur_units]);
            }
            cur = Vec::new();
            proof {
                start = i + 1;
            }
        } else {
            cur.push(unit);
            proof {
                assert(cur@ =~= w.subrange(start, i + 1));
            }
        }
        i = i + 1;
    }
    proof {
        let rest = w.skip(start);
        assert forall|j: int| 0 <= j < rest.len() implies rest[j] != 0 by {
            assert(rest[j] == w[start + j]);
        }
        lemma_first_nul_is(rest, rest.len() as int);
        assert(rest =~= cur@);
        assert(split_nul(rest) == seq![cur@]);
    }
    let ghost prev = out.deep_view();
    let ghost cur_units = cur@;
    proof {
        assert(cur.deep_view() =~= cur_units);
    }
    out.push(cur);
    proof {
        assert(out.deep_view() =~~= prev + seq![cur_units]);
        assert(out.deep_view() =~~= split_nul(w));
    }
    out
}

/// That field `k` of a range's candidate-language block is not valid wide
/// text.
pub open spec fn field_undecodable(payload: Seq<u16>, k: int) -> bool {
    &&& 0 <= k < split_nul(payload.drop_last()).len()
    &&& utf16_decoded(split_nul(payload.drop_last())[k]) is None
}

/// That `languages` is exactly the decoding of the fields of `payload`
/// without its final terminator.
pub open spec fn parsed_languages(payload: Seq<u16>, languages: Seq<String>) -> bool {
    let fields = split_nul(payload.drop_last());
    &&& languages.len() == fields.len()
    &&& forall|k: int|
        0 <= k < fields.len() ==> utf16_decoded(#[trigger] fields[k]) == Option::Some(
            languages[k]@,
        )
}

/// Parses one range's candidate-language block: the block ends in a
/// terminator (its second, doubled one), the fields before it are decoded in
/// order, and a field of invalid wide text fails the whole block with the
/// decode error carrying the first offending field's index.
pub fn parse_language_payload(payload: &Vec<u16>) -> (r: Result<Vec<String>, DetectionError>)
    requires
        payload@.len() > 0,
        payload@.last() == 0,
    ensures
        match r {
            Result::Ok(languages) => parsed_languages(payload@, languages@),
            Result::Err(e) => {
                &&& e matches DetectionError::LanguageInvalidUtf16(k)
                &&& field_undecodable(payload@, k as int)
                &&& forall|j: int| 0 <= j < k ==> !field_undecodable(payload@, j)
            },
        },
{
    let stripped = strip_trailing_nul(payload);
    let fields = split_on_nul(&stripped);
    let ghost spec_fields = split_nul(payload@.drop_last());
    proof {
        assert(stripped@ == payload@.drop_last());
        assert(fields.deep_view() == spec_fields);
        assert forall|j: int| 0 <= j < fields@.len() implies #[trigger] fields@[j]@
            == spec_fields[j] by {
            assert(fields.deep_view()[j] == fields@[j].deep_view());
            assert(fields@[j].deep_view() =~= fields@[j]@);
        }
    }
    let mut languages: Vec<String> = Vec::new();
    let mut k: usize = 0;
    while k < fields.len()
        invariant
            0 <= k <= fields@.len(),
            spec_fields == split_nul(payload@.drop_last()),
            fields.deep_view() == spec_fields,
            languages@.len() == k,
            forall|j: int| 0 <= j < fields@.len() ==> #[trigger] fields@[j]@ == spec_fields[j],
            forall|j: int|
                0 <= j < k ==> utf16_decoded(#[trigger] spec_fields[j]) == Option::Some(
                    languages@[j]@,
                ),
        decreases fields@.len() - k,
    {
        match decode_utf16(&fields[k]) {
            Some(s) => {
                languages.push(s);
            },
            None => {
                proof {
                    assert(utf16_decoded(spec_fields[k as int]) is None);
                    assert(field_undecodable(payload@, k as int));
                    assert forall|j: int| 0 <= j < k implies !field_undecodable(payload@, j) by {
                        assert(utf16_decoded(spec_fields[j]) == Option::Some(languages@[j]@));
                    }
                }
                return Err(DetectionError::LanguageInvalidUtf16(k));
            },
        }
        k = k + 1;
    }
    Ok(languages)
}

/// One raw range of the detection service's reply: its inclusive bounds and
/// its candidate-language block.
pub struct RawDetectedRange {
    /// Inclusive index of the first wide character of the range.
    pub start: usize,
    /// Inclusive index of the last wide character of the range.
    pub end: usize,
    /// The range's candidate-language block, ending in its terminator.
    pub payload: Vec<u16>,
}

/// That `d` is the parse of the raw range `raw`.
pub open spec fn parsed_range(raw: RawDetectedRange, d: DetectedLanguage) -> bool {
    &&& d.start == raw.start
    &&& d.end == raw.end
    &&& parsed_languages(raw.payload@, d.languages@)
}

/// Every block holds at least one field: a terminator-free block is one field,
/// and a terminator splits off one more.
pub proof fn lemma_split_nul_nonempty(s: Seq<u16>)
    ensures
        split_nul(s).len() >= 1,
    decreases s.len(),
{
    lemma_first_nul_bounds(s);
    if first_nul(s) < s.len() {
        lemma_split_nul_nonempty(s.skip(first_nul(s) + 1));
    }
}

/// That a raw range lies within the submitted text: inclusive indices, never
/// inverted, the end strictly below the text's wide-character length.
pub open spec fn range_in_bounds(raw: RawDetectedRange, text_len: int) -> bool {
    raw.start <= raw.end < text_len
}

/// That some field of a range's candidate-language block is not valid wide
/// text.
pub open spec fn payload_undecodable(payload: Seq<u16>) -> bool {
    exists|k: int| #[trigger] field_undecodable(payload, k)
}

/// Assembles the detection service's reply to a text of `text_len` wide
/// characters. A range outside the text is the service breaking its bounds
/// contract and fails the reply with the out-of-bounds error; otherwise each
/// range is parsed in order, and a block with a field of invalid wide text
/// fails the reply with the decode error. On success every range lies within
/// the text and names at least one candidate.
pub fn assemble_detected(raw: Vec<RawDetectedRange>, text_len: usize) -> (r: Result<
    Vec<DetectedLanguage>,
    DetectionError,
>)
    requires
        forall|i: int|
            0 <= i < raw@.len() ==> (#[trigger] raw@[i].payload@).len() > 0 && raw@[i].payload@.last()
                == 0,
    ensures
        match r {
            Result::Ok(v) => {
                &&& v@.len() == raw@.len()
                &&& forall|i: int| 0 <= i < raw@.len() ==> parsed_range(raw@[i], #[trigger] v@[i])
                &&& forall|i: int| 0 <= i < v@.len() ==> (#[trigger] v@[i]).wf(text_len as int)
                &&& forall|i: int|
                    0 <= i < raw@.len() ==> range_in_bounds(#[trigger] raw@[i], text_len as int)
                &&& forall|i: int|
                    0 <= i < raw@.len() ==> !payload_undecodable((#[trigger] raw@[i]).payload@)
            },
            Result::Err(e) => (e == DetectionError::RangeOutOfBounds && exists|i: int|
                0 <= i < raw@.len() && !range_in_bounds(#[trigger] raw@[i], text_len as int)) || (e
                matches DetectionError::LanguageInvalidUtf16(k) && (forall|i: int|
                0 <= i < raw@.len() ==> range_in_bounds(#[trigger] raw@[i], text_len as int))
                && exists|i: int|
                0 <= i < raw@.len() && field_undecodable(
                    (#[trigger] raw@[i]).payload@,
                    k as int,
                )),
        },
{
    let n = raw.len();
    let mut b: usize = 0;
    while b < n
        invariant
            0 <= b <= n,
            n == raw@.len(),
            forall|j: int| 0 <= j < b ==> range_in_bounds(#[trigger] raw@[j], text_len as int),
        decreases n - b,
    {
        if !(raw[b].start <= raw[b].end && raw[b].end < text_len) {
            return Err(DetectionError::RangeOutOfBounds);
        }
        b = b + 1;
    }
    let mut out: Vec<DetectedLanguage> = Vec::new();
    let mut i: usize = 0;
    while i < n
        invariant
            0 <= i <= n,
            n == raw@.len(),
            out@.len() == i,
            forall|j: int|
                0 <= j < raw@.len() ==> (#[trigger] raw@[j].payload@).len() > 0
                    && raw@[j].payload@.last() == 0,
            forall|j: int| 0 <= j < raw@.len() ==> range_in_bounds(#[trigger] raw@[j], text_len as int),
            forall|j: int| 0 <= j < i ==> parsed_range(raw@[j], #[trigger] out@[j]),
            forall|j: int| 0 <= j < i ==> (#[trigger] out@[j]).wf(text_len as int),
            forall|j: int| 0 <= j < i ==> !payload_undecodable((#[trigger] raw@[j]).payload@),
        decreases n - i,
    {
        let languages = match parse_language_payload(&raw[i].payload) {
            Ok(v) => v,
            Err(e) => {
                return Err(e);
            },
        };
        proof {
            lemma_split_nul_nonempty(raw@[i as int].payload@.drop_last());
            assert forall|k: int| !(#[trigger] field_undecodable(
                raw@[i as int].payload@,
                k,
            )) by {
                if 0 <= k < split_nul(raw@[i as int].payload@.drop_last()).len() {
                    assert(utf16_decoded(split_nul(raw@[i as int].payload@.drop_last())[k])
                        == Option::Some(languages@[k]@));
                }
            }
        }
        out.push(DetectedLanguage { start: raw[i].start, end: raw[i].end, languages });
        i = i + 1;
    }
    Ok(out)
}

} // verus!
