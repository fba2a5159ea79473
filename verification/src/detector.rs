//! The in-process language detector.
//!
//! Recognition may be backed by an operating-system service (the shell drives
//! that one and hands its raw reply to [`crate::detect`]) or by the
//! in-process statistical detector of the `lingua` crate, adapted here. The
//! adapter parses the requested language codes, builds the detector, decodes
//! the wide input text, and converts the detector's byte-indexed spans into
//! wide-character ranges — everything but the calls into `lingua` and the
//! text decoding is verified, and the returned ranges always lie within the
//! input text.

use std::str::FromStr;
use vstd::prelude::*;

use crate::detect::spec_without_trailing_nul;
use crate::detect::strip_trailing_nul;
use crate::detect::utf16_decoded;
use crate::detect::DetectedLanguage;
use crate::detect::DetectionError;
use crate::lang::code_prefix;
use crate::lang::find_separator;
use crate::text::char_utf8_len;
use crate::text::chars_vec;
use crate::text::lemma_len_bounds;
use crate::text::lemma_len_push;
use crate::text::lemma_len_split;
use crate::text::utf16_len_of;
use crate::text::utf8_len_of;

verus! {

#[verifier::external_type_specification]
#[verifier::external_body]
pub struct ExLanguage(lingua::Language);

#[verifier::external_type_specification]
#[verifier::external_body]
pub struct ExIsoCode6391(lingua::IsoCode639_1);

#[verifier::external_type_specification]
#[verifier::external_body]
pub struct ExIsoCode6393(lingua::IsoCode639_3);

#[verifier::external_type_specification]
#[verifier::external_body]
pub struct ExLanguageDetectorBuilder(lingua::LanguageDetectorBuilder);

#[verifier::external_type_specification]
#[verifier::external_body]
pub struct ExLanguageDetector(lingua::LanguageDetector);

/// Whether a code names a known two-letter language code; what
/// `IsoCode639_1::from_str` accepts depends on its argument alone.
pub uninterp spec fn iso_639_1_known(code: Seq<char>) -> bool;

/// Whether a code names a known three-letter language code; what
/// `IsoCode639_3::from_str` accepts depends on its argument alone.
pub uninterp spec fn iso_639_3_known(code: Seq<char>) -> bool;

/// Relies on `IsoCode639_1::from_str`: parses a two-letter language code,
/// case-insensitively; unknown codes fail.
#[verifier::external_body]
fn parse_iso_code_639_1(code: &str) -> (r: Option<lingua::IsoCode639_1>)
    ensures
        (r is Some) == iso_639_1_known(code@),
{
    lingua::IsoCode639_1::from_str(code).ok()
}

/// Relies on `IsoCode639_3::from_str`: parses a three-letter language code,
/// case-insensitively; unknown codes fail.
#[verifier::external_body]
fn parse_iso_code_639_3(code: &str) -> (r: Option<lingua::IsoCode639_3>)
    ensures
        (r is Some) == iso_639_3_known(code@),
{
    lingua::IsoCode639_3::from_str(code).ok()
}

/// Whether a requested code names a language the detector can know: its
/// primary tag parses as a two- or three-letter code.
pub open spec fn code_is_known(code: Seq<char>) -> bool {
    iso_639_1_known(code_prefix(code)) || iso_639_3_known(code_prefix(code))
}

/// Relies on `Language::from_iso_code_639_1`: the language a parsed
/// two-letter code names.
#[verifier::external_body]
fn language_from_iso_639_1(code: &lingua::IsoCode639_1) -> (r: lingua::Language) {
    lingua::Language::from_iso_code_639_1(code)
}

/// Relies on `Language::from_iso_code_639_3`: the language a parsed
/// three-letter code names.
#[verifier::external_body]
fn language_from_iso_639_3(code: &lingua::IsoCode639_3) -> (r: lingua::Language) {
    lingua::Language::from_iso_code_639_3(code)
}

/// Relies on `LanguageDetectorBuilder::from_languages`, which panics on an
/// empty language list; callers must hand at least one language.
#[verifier::external_body]
fn builder_from_languages(languages: &Vec<lingua::Language>) -> (r: lingua::LanguageDetectorBuilder)
    requires
        languages@.len() > 0,
{
    lingua::LanguageDetectorBuilder::from_languages(languages)
}

/// Relies on `LanguageDetectorBuilder::build`: the configured detector.
#[verifier::external_body]
fn build_detector(builder: &mut lingua::LanguageDetectorBuilder) -> (r: lingua::LanguageDetector) {
    builder.build()
}

/// One detected single-language span: byte bounds into the text it was
/// detected in (start inclusive, end exclusive) and the language's two-letter
/// code.
pub struct LanguageSpan {
    /// Byte index of the span's first byte.
    pub start_byte: usize,
    /// Byte index one past the span's last byte.
    pub end_byte: usize,
    /// Two-letter code of the detected language.
    pub code: String,
}

/// Relies on `LanguageDetector::detect_multiple_languages_of`: each returned
/// span starts no later than it ends (span bounds are cut at token
/// boundaries, in order), and an empty text yields no spans.
#[verifier::external_body]
fn detect_language_spans(detector: &lingua::LanguageDetector, text: &str) -> (r: Vec<LanguageSpan>)
    ensures
        forall|i: int| 0 <= i < r@.len() ==> (#[trigger] r@[i]).start_byte <= r@[i].end_byte,
        text@.len() == 0 ==> r@.len() == 0,
{
    let results = detector.detect_multiple_languages_of(text);
    let mut spans = Vec::new();
    for item in results {
        spans.push(
            LanguageSpan {
                start_byte: item.start_index(),
                end_byte: item.end_index(),
                code: item.language().iso_code_639_1().to_string(),
            },
        );
    }
    spans
}

/// What decoding wide text with replacement yields: the character sequence,
/// invalid units replaced.
pub uninterp spec fn utf16_lossy(units: Seq<u16>) -> Seq<char>;

/// Relies on `String::from_utf16_lossy`: the result is a function of the
/// units alone. Each basic-plane unit decodes to one one-unit character, each
/// surrogate pair to one two-unit character, and each unpaired surrogate to
/// the one-unit replacement character, so the result re-encodes to exactly as
/// many wide characters as came in; on valid wide text it equals the strict
/// decode; and a text's byte length fits the machine's size type.
#[verifier::external_body]
fn decode_utf16_lossy(units: &Vec<u16>) -> (r: String)
    ensures
        r@ == utf16_lossy(units@),
        utf16_len_of(r@) == units@.len(),
        utf16_decoded(units@) matches Option::Some(s) ==> r@ == s,
        utf8_len_of(r@) <= usize::MAX,
{
    String::from_utf16_lossy(units)
}

/// The candidate languages named by a list of codes: each code's primary tag
/// (before any separator) read as a two- or three-letter code; codes naming
/// no known language are dropped, so the result is empty exactly when no
/// code is known.
fn languages_for_codes(codes: &Vec<String>) -> (r: Vec<lingua::Language>)
    ensures
        (r@.len() == 0) == (forall|i: int|
            0 <= i < codes@.len() ==> !code_is_known(#[trigger] codes@[i]@)),
{
    let mut out: Vec<lingua::Language> = Vec::new();
    let mut i: usize = 0;
    while i < codes.len()
        invariant
            0 <= i <= codes@.len(),
            (out@.len() == 0) == (forall|j: int|
                0 <= j < i ==> !code_is_known(#[trigger] codes@[j]@)),
        decreases codes@.len() - i,
    {
        let code = &codes[i];
        let sep = find_separator(code.as_str());
        proof {
            crate::lang::lemma_first_separator_bounds(code@);
        }
        let prefix = code.as_str().substring_char(0, sep);
        proof {
            assert(prefix@ =~= code_prefix(code@));
        }
        if let Some(iso) = parse_iso_code_639_1(prefix) {
            out.push(language_from_iso_639_1(&iso));
            proof {
                assert(code_is_known(codes@[i as int]@));
            }
        } else if let Some(iso) = parse_iso_code_639_3(prefix) {
            out.push(language_from_iso_639_3(&iso));
            proof {
                assert(code_is_known(codes@[i as int]@));
            }
        } else {
            proof {
                assert(!code_is_known(codes@[i as int]@));
            }
        }
        i = i + 1;
    }
    out
}

/// Language detection by the in-process statistical detector.
pub struct LinguaDetectionService {
    detector: lingua::LanguageDetector,
}

impl LinguaDetectionService {
    /// Builds a detector for the given language codes. Codes naming no known
    /// language are dropped; the build fails, with the one named error,
    /// exactly when no code's primary tag names a known language — silently
    /// detecting nothing is not acceptable.
    pub fn with_lingua(language_codes: &Vec<String>) -> (r: Result<
        LinguaDetectionService,
        DetectionError,
    >)
        ensures
            (r is Err) == (forall|i: int|
                0 <= i < language_codes@.len() ==> !code_is_known(
                    #[trigger] language_codes@[i]@,
                )),
            r matches Result::Err(e) ==> e == DetectionError::NoKnownLanguages,
    {
        let languages = languages_for_codes(language_codes);
        if languages.len() == 0 {
            return Err(DetectionError::NoKnownLanguages);
        }
        let mut builder = builder_from_languages(&languages);
        let detector = build_detector(&mut builder);
        Ok(LinguaDetectionService { detector })
    }

    /// Partitions wide text into language-tagged ranges. A single trailing
    /// terminator is stripped before submission. The call always succeeds,
    /// and every returned range lies within the submitted text — its `end` is
    /// strictly below the stripped input's length, and so below the raw
    /// input's too — and names exactly one language.
    pub fn recognize_text(&self, text_utf16: &Vec<u16>) -> (r: Result<
        Vec<DetectedLanguage>,
        DetectionError,
    >)
        ensures
            r is Ok,
            r matches Result::Ok(v) ==> forall|i: int|
                0 <= i < v@.len() ==> (#[trigger] v@[i]).wf(
                    spec_without_trailing_nul(text_utf16@).len() as int,
                ) && v@[i].wf(text_utf16@.len() as int) && v@[i].languages@.len() == 1,
    {
        let stripped = strip_trailing_nul(text_utf16);
        let text = decode_utf16_lossy(&stripped);
        let spans = detect_language_spans(&self.detector, text.as_str());
        let chars = chars_vec(text.as_str());
        let stripped_len = stripped.len();
        proof {
            assert(utf16_len_of(chars@) == stripped_len as int);
            assert(stripped@.len() <= text_utf16@.len());
        }
        let ranges = spans_to_ranges(&spans, &chars);
        proof {
            assert forall|i: int| 0 <= i < ranges@.len() implies (#[trigger] ranges@[i]).wf(
                spec_without_trailing_nul(text_utf16@).len() as int,
            ) && ranges@[i].wf(text_utf16@.len() as int) && ranges@[i].languages@.len() == 1 by {
                assert(ranges@[i].wf(utf16_len_of(chars@)));
                assert(stripped@ == spec_without_trailing_nul(text_utf16@));
                assert(ranges@[i].languages@.len() == 1);
            }
        }
        Ok(ranges)
    }
}

/// Cumulative byte and wide-character offsets of a character sequence: entry
/// `i` holds the lengths of the first `i` characters.
fn offset_tables(chars: &Vec<char>) -> (r: (Vec<usize>, Vec<usize>))
    requires
        utf8_len_of(chars@) <= usize::MAX,
        utf16_len_of(chars@) <= usize::MAX,
    ensures
        r.0@.len() == chars@.len() + 1,
        r.1@.len() == chars@.len() + 1,
        forall|i: int| 0 <= i <= chars@.len() ==> r.0@[i] == utf8_len_of(chars@.take(i)),
        forall|i: int| 0 <= i <= chars@.len() ==> r.1@[i] == utf16_len_of(chars@.take(i)),
{
    let mut bytes: Vec<usize> = Vec::new();
    let mut wides: Vec<usize> = Vec::new();
    bytes.push(0);
    wides.push(0);
    proof {
        assert(chars@.take(0) =~= Seq::<char>::empty());
    }
    let mut i: usize = 0;
    while i < chars.len()
        invariant
            0 <= i <= chars@.len(),
            utf8_len_of(chars@) <= usize::MAX,
            utf16_len_of(chars@) <= usize::MAX,
            bytes@.len() == i + 1,
            wides@.len() == i + 1,
            forall|j: int| 0 <= j <= i ==> bytes@[j] == utf8_len_of(chars@.take(j)),
            forall|j: int| 0 <= j <= i ==> wides@[j] == utf16_len_of(chars@.take(j)),
        decreases chars@.len() - i,
    {
        let c = chars[i];
        let cu = c as u32;
        let byte_step: usize = if cu < 0x80 {
            1
        } else if cu < 0x800 {
            2
        } else if cu < 0x10000 {
            3
        } else {
            4
        };
        let wide_step: usize = if cu < 0x10000 {
            1
        } else {
            2
        };
        proof {
            assert(chars@.take(i + 1) =~= chars@.take(i as int).push(chars@[i as int]));
            lemma_len_push(chars@.take(i as int), chars@[i as int]);
            lemma_len_split(chars@, i + 1);
            lemma_len_bounds(chars@.take(i + 1));
            lemma_len_bounds(chars@.skip(i + 1));
            assert(utf8_len_of(chars@.take(i + 1)) <= utf8_len_of(chars@));
            assert(utf16_len_of(chars@.take(i + 1)) <= utf16_len_of(chars@));
        }
        let b = bytes[i] + byte_step;
        let w = wides[i] + wide_step;
        bytes.push(b);
        wides.push(w);
        i = i + 1;
    }
    proof {
        assert(bytes@.len() == chars@.len() + 1);
    }
    (bytes, wides)
}

/// Index of the first table entry at or past `target`, or the last entry's
/// index when every entry is below it.
fn first_at_or_past(table: &Vec<usize>, target: usize) -> (r: usize)
    requires
        table@.len() > 0,
        forall|i: int, j: int| 0 <= i <= j < table@.len() ==> table@[i] <= table@[j],
    ensures
        0 <= r < table@.len(),
        table@[r as int] >= target || r == table@.len() - 1,
        forall|j: int| 0 <= j < r ==> table@[j] < target,
{
    let mut i: usize = 0;
    while i < table.len() - 1
        invariant
            0 <= i <= table@.len() - 1,
            table@.len() > 0,
            forall|j: int| 0 <= j < i ==> table@[j] < target,
        decreases table@.len() - 1 - i,
    {
        if table[i] >= target {
            return i;
        }
        i = i + 1;
    }
    i
}

/// Index of the first character at or past byte offset `b`: characters are
/// consumed until their cumulative byte length reaches `b`, and a `b` past
/// the text is cut at the character count.
pub open spec fn char_cut(chars: Seq<char>, b: int) -> int
    decreases chars.len(),
{
    if b <= 0 {
        0
    } else if chars.len() == 0 {
        0
    } else {
        1 + char_cut(chars.drop_first(), b - char_utf8_len(chars[0]))
    }
}

pub proof fn lemma_char_cut_bounds(chars: Seq<char>, b: int)
    ensures
        0 <= char_cut(chars, b) <= chars.len(),
        forall|j: int| 0 <= j < char_cut(chars, b) ==> utf8_len_of(chars.take(j)) < b,
        utf8_len_of(chars.take(char_cut(chars, b))) >= b || char_cut(chars, b) == chars.len(),
    decreases chars.len(),
{
    if b <= 0 {
        assert(chars.take(0) =~= Seq::<char>::empty());
    } else if chars.len() == 0 {
    } else {
        let rest = chars.drop_first();
        lemma_char_cut_bounds(rest, b - char_utf8_len(chars[0]));
        let c = char_cut(chars, b);
        assert forall|j: int| 0 <= j < c implies utf8_len_of(chars.take(j)) < b by {
            if j == 0 {
                assert(chars.take(0) =~= Seq::<char>::empty());
            } else {
                assert(chars.take(j).drop_first() =~= rest.take(j - 1));
                assert(chars.take(j)[0] == chars[0]);
                assert(utf8_len_of(chars.take(j)) == char_utf8_len(chars[0]) + utf8_len_of(
                    rest.take(j - 1),
                ));
            }
        }
        if c < chars.len() {
            assert(chars.take(c).drop_first() =~= rest.take(c - 1));
            assert(chars.take(c)[0] == chars[0]);
            assert(utf8_len_of(chars.take(c)) == char_utf8_len(chars[0]) + utf8_len_of(
                rest.take(c - 1),
            ));
        }
    }
}

/// The first index whose byte prefix reaches `b` (cut at the count) is
/// exactly `char_cut`.
pub proof fn lemma_char_cut_is(chars: Seq<char>, b: int, i: int)
    requires
        0 <= i <= chars.len(),
        forall|j: int| 0 <= j < i ==> utf8_len_of(chars.take(j)) < b,
        utf8_len_of(chars.take(i)) >= b || i == chars.len(),
    ensures
        char_cut(chars, b) == i,
{
    lemma_char_cut_bounds(chars, b);
    let c = char_cut(chars, b);
    if c < i {
        assert(utf8_len_of(chars.take(c)) < b);
        assert(utf8_len_of(chars.take(c)) >= b || c == chars.len());
    } else if i < c {
        assert(utf8_len_of(chars.take(i)) < b);
        assert(utf8_len_of(chars.take(i)) >= b || i == chars.len());
    }
}

/// The wide offset a span's first byte maps to: the wide length of the
/// characters before the first character at or past it.
pub open spec fn span_wide_start(chars: Seq<char>, sp: LanguageSpan) -> int {
    utf16_len_of(chars.take(char_cut(chars, sp.start_byte as int)))
}

/// The wide offset one past a span's last byte maps to.
pub open spec fn span_wide_end(chars: Seq<char>, sp: LanguageSpan) -> int {
    utf16_len_of(chars.take(char_cut(chars, sp.end_byte as int)))
}

/// Whether a span covers at least one whole character; only those become
/// ranges.
pub open spec fn span_kept(chars: Seq<char>, sp: LanguageSpan) -> bool {
    span_wide_start(chars, sp) < span_wide_end(chars, sp)
}

/// That `d` is the range a kept span becomes: its wide bounds, end made
/// inclusive, and the span's one language code.
pub open spec fn range_of_span(chars: Seq<char>, sp: LanguageSpan, d: DetectedLanguage) -> bool {
    &&& d.start == span_wide_start(chars, sp)
    &&& d.end == span_wide_end(chars, sp) - 1
    &&& d.languages@.len() == 1
    &&& d.languages@[0]@ == sp.code@
}

/// That `out` is exactly the conversion of `spans`, in order: one range per
/// kept span, dropped spans leaving no trace.
pub open spec fn ranges_of_spans(
    chars: Seq<char>,
    spans: Seq<LanguageSpan>,
    out: Seq<DetectedLanguage>,
) -> bool
    decreases spans.len(),
{
    if spans.len() == 0 {
        out.len() == 0
    } else if span_kept(chars, spans[0]) {
        &&& out.len() > 0
        &&& range_of_span(chars, spans[0], out[0])
        &&& ranges_of_spans(chars, spans.drop_first(), out.drop_first())
    } else {
        ranges_of_spans(chars, spans.drop_first(), out)
    }
}

/// Extending a converted span list by one kept span extends the output by
/// the span's range.
pub proof fn lemma_ranges_of_spans_push_kept(
    chars: Seq<char>,
    spans: Seq<LanguageSpan>,
    out: Seq<DetectedLanguage>,
    sp: LanguageSpan,
    d: DetectedLanguage,
)
    requires
        ranges_of_spans(chars, spans, out),
        span_kept(chars, sp),
        range_of_span(chars, sp, d),
    ensures
        ranges_of_spans(chars, spans.push(sp), out.push(d)),
    decreases spans.len(),
{
    if spans.len() == 0 {
        assert(spans.push(sp)[0] == sp);
        assert(spans.push(sp).drop_first() =~= Seq::<LanguageSpan>::empty());
        assert(out.push(d)[0] == d);
        assert(out.push(d).drop_first() =~= Seq::<DetectedLanguage>::empty());
        assert(ranges_of_spans(
            chars,
            Seq::<LanguageSpan>::empty(),
            Seq::<DetectedLanguage>::empty(),
        ));
    } else {
        assert(spans.push(sp)[0] == spans[0]);
        assert(spans.push(sp).drop_first() =~= spans.drop_first().push(sp));
        if span_kept(chars, spans[0]) {
            lemma_ranges_of_spans_push_kept(chars, spans.drop_first(), out.drop_first(), sp, d);
            assert(out.push(d)[0] == out[0]);
            assert(out.push(d).drop_first() =~= out.drop_first().push(d));
        } else {
            lemma_ranges_of_spans_push_kept(chars, spans.drop_first(), out, sp, d);
        }
    }
}

/// Extending a converted span list by one dropped span leaves the output as
/// it is.
pub proof fn lemma_ranges_of_spans_push_dropped(
    chars: Seq<char>,
    spans: Seq<LanguageSpan>,
    out: Seq<DetectedLanguage>,
    sp: LanguageSpan,
)
    requires
        ranges_of_spans(chars, spans, out),
        !span_kept(chars, sp),
    ensures
        ranges_of_spans(chars, spans.push(sp), out),
    decreases spans.len(),
{
    if spans.len() == 0 {
        assert(spans.push(sp)[0] == sp);
        assert(spans.push(sp).drop_first() =~= Seq::<LanguageSpan>::empty());
        assert(ranges_of_spans(chars, Seq::<LanguageSpan>::empty(), out));
    } else {
        assert(spans.push(sp)[0] == spans[0]);
        assert(spans.push(sp).drop_first() =~= spans.drop_first().push(sp));
        if span_kept(chars, spans[0]) {
            lemma_ranges_of_spans_push_dropped(chars, spans.drop_first(), out.drop_first(), sp);
        } else {
            lemma_ranges_of_spans_push_dropped(chars, spans.drop_first(), out, sp);
        }
    }
}

/// Converts detected byte spans into wide-character ranges of the same text,
/// exactly: in order, one range per span that covers at least one whole
/// character (`ranges_of_spans`). Each byte bound is mapped to the first
/// character at or past it; spans covering no whole character are dropped.
/// Every returned range lies within the text's wide length and names exactly
/// one language.
pub fn spans_to_ranges(spans: &Vec<LanguageSpan>, chars: &Vec<char>) -> (r: Vec<DetectedLanguage>)
    requires
        utf8_len_of(chars@) <= usize::MAX,
        utf16_len_of(chars@) <= usize::MAX,
        forall|i: int| 0 <= i < spans@.len() ==> (#[trigger] spans@[i]).start_byte
            <= spans@[i].end_byte,
    ensures
        ranges_of_spans(chars@, spans@, r@),
        forall|i: int| 0 <= i < r@.len() ==> (#[trigger] r@[i]).wf(utf16_len_of(chars@)),
        forall|i: int| 0 <= i < r@.len() ==> (#[trigger] r@[i]).languages@.len() == 1,
{
    let (bytes, wides) = offset_tables(chars);
    let n = chars.len();
    proof {
        assert forall|i: int, j: int| 0 <= i <= j < bytes@.len() implies bytes@[i] <= bytes@[j] by {
            lemma_len_split(chars@.take(j), i);
            assert(chars@.take(j).take(i) =~= chars@.take(i));
            lemma_len_bounds(chars@.take(j).skip(i));
        }
        assert forall|i: int, j: int| 0 <= i <= j < wides@.len() implies wides@[i] <= wides@[j] by {
            lemma_len_split(chars@.take(j), i);
            assert(chars@.take(j).take(i) =~= chars@.take(i));
            lemma_len_bounds(chars@.take(j).skip(i));
        }
        assert(chars@.take(n as int) =~= chars@);
    }
    let mut out: Vec<DetectedLanguage> = Vec::new();
    let mut s: usize = 0;
    proof {
        assert(spans@.take(0) =~= Seq::<LanguageSpan>::empty());
    }
    while s < spans.len()
        invariant
            0 <= s <= spans@.len(),
            n == chars@.len(),
            bytes@.len() == n + 1,
            wides@.len() == n + 1,
            utf16_len_of(chars@) <= usize::MAX,
            wides@[n as int] == utf16_len_of(chars@),
            forall|i: int, j: int| 0 <= i <= j < bytes@.len() ==> bytes@[i] <= bytes@[j],
            forall|i: int, j: int| 0 <= i <= j < wides@.len() ==> wides@[i] <= wides@[j],
            forall|i: int| 0 <= i <= n ==> bytes@[i] == utf8_len_of(chars@.take(i)),
            forall|i: int| 0 <= i <= n ==> wides@[i] == utf16_len_of(chars@.take(i)),
            ranges_of_spans(chars@, spans@.take(s as int), out@),
            forall|i: int| 0 <= i < out@.len() ==> (#[trigger] out@[i]).wf(utf16_len_of(chars@)),
            forall|i: int| 0 <= i < out@.len() ==> (#[trigger] out@[i]).languages@.len() == 1,
        decreases spans@.len() - s,
    {
        let span = &spans[s];
        let ca = first_at_or_past(&bytes, span.start_byte);
        let cb = first_at_or_past(&bytes, span.end_byte);
        let start = wides[ca];
        let end_exclusive = wides[cb];
        proof {
            assert forall|j: int| 0 <= j < ca implies utf8_len_of(chars@.take(j)) < span.start_byte
                as int by {
                assert(bytes@[j] < span.start_byte);
                assert(bytes@[j] == utf8_len_of(chars@.take(j)));
            }
            assert(bytes@[ca as int] >= span.start_byte || ca == n);
            lemma_char_cut_is(chars@, span.start_byte as int, ca as int);
            assert forall|j: int| 0 <= j < cb implies utf8_len_of(chars@.take(j)) < span.end_byte
                as int by {
                assert(bytes@[j] < span.end_byte);
                assert(bytes@[j] == utf8_len_of(chars@.take(j)));
            }
            assert(bytes@[cb as int] >= span.end_byte || cb == n);
            lemma_char_cut_is(chars@, span.end_byte as int, cb as int);
            assert(start == span_wide_start(chars@, spans@[s as int]));
            assert(end_exclusive == span_wide_end(chars@, spans@[s as int]));
            assert(spans@.take(s + 1) =~= spans@.take(s as int).push(spans@[s as int]));
        }
        if start < end_exclusive {
            proof {
                assert(end_exclusive == wides@[cb as int]);
                assert(wides@[cb as int] <= wides@[n as int]);
            }
            let mut languages: Vec<String> = Vec::new();
            languages.push(clone_string(&span.code));
            let d = DetectedLanguage { start, end: end_exclusive - 1, languages };
            let ghost prev_out = out@;
            proof {
                assert(range_of_span(chars@, spans@[s as int], d));
                lemma_ranges_of_spans_push_kept(
                    chars@,
                    spans@.take(s as int),
                    prev_out,
                    spans@[s as int],
                    d,
                );
            }
            out.push(d);
        } else {
            proof {
                assert(!span_kept(chars@, spans@[s as int]));
                lemma_ranges_of_spans_push_dropped(
                    chars@,
                    spans@.take(s as int),
                    out@,
                    spans@[s as int],
                );
            }
        }
        s = s + 1;
    }
    proof {
        assert(spans@.take(spans@.len() as int) =~= spans@);
    }
    out
}

/// A copy of a text value.
fn clone_string(s: &String) -> (r: String)
    ensures
        r@ == s@,
{
    s.clone()
}

} // verus!
