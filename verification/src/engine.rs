//! The two engines this module family ships: the system-voice engine and the
//! neural-model engine, with their class identifiers, canonical output
//! formats, registered voices, and model selection.

use vstd::prelude::*;
use vstd::string::StringExecFns;

use crate::detect::DetectedLanguage;
use crate::format::pcm_mono_16;
use crate::format::WaveFormat;
use crate::guid::Guid;
use crate::registry::ParentRegKey;
use crate::registry::RegRoot;
use crate::registry::VoiceAttributes;
use crate::registry::VoiceKeyData;
use crate::voice::opt_code;
use crate::voice::select_model;
use crate::voice::spec_rank;

verus! {

/// Field-wise value of the system-voice engine's class identifier.
pub open spec fn spec_standard_engine_clsid() -> Guid {
    Guid {
        data1: 0xF91EF41B,
        data2: 0xD593,
        data3: 0x442E,
        data4: [0x87u8, 0x30u8, 0x06u8, 0x43u8, 0x36u8, 0x41u8, 0x03u8, 0x10u8],
    }
}

/// The class identifier the system-voice engine registers under.
pub fn standard_engine_clsid() -> (r: Guid)
    ensures
        r == spec_standard_engine_clsid(),
{
    Guid {
        data1: 0xF91EF41B,
        data2: 0xD593,
        data3: 0x442E,
        data4: [0x87u8, 0x30u8, 0x06u8, 0x43u8, 0x36u8, 0x41u8, 0x03u8, 0x10u8],
    }
}

/// Field-wise value of the neural-model engine's class identifier.
pub open spec fn spec_piper_engine_clsid() -> Guid {
    Guid {
        data1: 0x9876903A,
        data2: 0x2109,
        data3: 0x4BCC,
        data4: [0xA6u8, 0x4Bu8, 0x24u8, 0x28u8, 0x80u8, 0xE1u8, 0x2Au8, 0xD2u8],
    }
}

/// The class identifier the neural-model engine registers under.
pub fn piper_engine_clsid() -> (r: Guid)
    ensures
        r == spec_piper_engine_clsid(),
{
    Guid {
        data1: 0x9876903A,
        data2: 0x2109,
        data3: 0x4BCC,
        data4: [0xA6u8, 0x4Bu8, 0x24u8, 0x28u8, 0x80u8, 0xE1u8, 0x2Au8, 0xD2u8],
    }
}

/// The system-voice engine's canonical output: 16 kHz 16-bit mono PCM.
pub fn standard_engine_format() -> (r: WaveFormat)
    ensures
        r.format_tag == 1,
        r.channels == 1,
        r.samples_per_sec == 16000,
        r.avg_bytes_per_sec == 32000,
        r.block_align == 2,
        r.bits_per_sample == 16,
        r.extra_bytes == 0,
{
    pcm_mono_16(16000)
}

/// The neural-model engine's canonical output: 22.05 kHz 16-bit mono PCM.
pub fn piper_engine_format() -> (r: WaveFormat)
    ensures
        r.format_tag == 1,
        r.channels == 1,
        r.samples_per_sec == 22050,
        r.avg_bytes_per_sec == 44100,
        r.block_align == 2,
        r.bits_per_sample == 16,
        r.extra_bytes == 0,
{
    pcm_mono_16(22050)
}

/// Whether a neural model's audio output already matches the engine's
/// canonical format, so its bytes can be streamed to the sink unconverted.
pub fn piper_native_format(sample_rate: u32, num_channels: u32, sample_width: u32) -> (r: bool)
    ensures
        r == (sample_rate == 22050 && num_channels == 1 && sample_width == 2),
{
    sample_rate == 22050 && num_channels == 1 && sample_width == 2
}

/// Whether the host build offers the modern synthesis interface, introduced
/// with build 10240.
pub fn modern_api_available(build_number: u32) -> (r: bool)
    ensures
        r == (build_number >= 10240),
{
    build_number >= 10240
}

/// The voice-token key the legacy voice list lives under.
pub fn legacy_voice_tokens_key() -> (r: ParentRegKey)
    ensures
        r.root == RegRoot::LocalMachine,
        r.path@ == "SOFTWARE\\Microsoft\\Speech\\Voices\\Tokens\\"@,
{
    ParentRegKey {
        root: RegRoot::LocalMachine,
        path: String::from_str("SOFTWARE\\Microsoft\\Speech\\Voices\\Tokens\\"),
    }
}

/// The voice-token key the modern voice list lives under.
pub fn modern_voice_tokens_key() -> (r: ParentRegKey)
    ensures
        r.root == RegRoot::LocalMachine,
        r.path@ == "SOFTWARE\\Microsoft\\Speech_OneCore\\Voices\\Tokens\\"@,
{
    ParentRegKey {
        root: RegRoot::LocalMachine,
        path: String::from_str("SOFTWARE\\Microsoft\\Speech_OneCore\\Voices\\Tokens\\"),
    }
}

/// The multilingual voice the system-voice engine registers.
pub fn standard_multilingual_voice() -> (r: VoiceKeyData)
    ensures
        r.key_name@ == "Lej77_TTS_Multilingual"@,
        r.long_name@ == "Lej77 - Multilingual"@,
        r.class_id == spec_standard_engine_clsid(),
        r.attributes.name@ == "Multilingual"@,
        r.attributes.gender@ == "Male"@,
        r.attributes.age@ == "Adult"@,
        r.attributes.language@ == "409"@,
        r.attributes.vendor@ == "Lej77 at GitHub"@,
{
    VoiceKeyData {
        key_name: String::from_str("Lej77_TTS_Multilingual"),
        long_name: String::from_str("Lej77 - Multilingual"),
        class_id: standard_engine_clsid(),
        attributes: VoiceAttributes {
            name: String::from_str("Multilingual"),
            gender: String::from_str("Male"),
            age: String::from_str("Adult"),
            language: String::from_str("409"),
            vendor: String::from_str("Lej77 at GitHub"),
        },
    }
}

/// The multilingual voice the neural-model engine registers.
pub fn piper_multilingual_voice() -> (r: VoiceKeyData)
    ensures
        r.key_name@ == "Lej77_TTS_PIPER_MULTILINGUAL"@,
        r.long_name@ == "Lej77 - Piper - Multilingual"@,
        r.class_id == spec_piper_engine_clsid(),
        r.attributes.name@ == "Piper Multilingual"@,
        r.attributes.gender@ == "Male"@,
        r.attributes.age@ == "Adult"@,
        r.attributes.language@ == "409"@,
        r.attributes.vendor@ == "Lej77 at GitHub"@,
{
    VoiceKeyData {
        key_name: String::from_str("Lej77_TTS_PIPER_MULTILINGUAL"),
        long_name: String::from_str("Lej77 - Piper - Multilingual"),
        class_id: piper_engine_clsid(),
        attributes: VoiceAttributes {
            name: String::from_str("Piper Multilingual"),
            gender: String::from_str("Male"),
            age: String::from_str("Adult"),
            language: String::from_str("409"),
            vendor: String::from_str("Lej77 at GitHub"),
        },
    }
}

/// The language a neural model speaks, as its voice configuration names it.
pub struct ModelLanguage {
    /// The language code, such as a two-letter code with an optional region.
    pub code: String,
    /// The language family, when the configuration names one.
    pub family: Option<String>,
    /// The region, when the configuration names one.
    pub region: Option<String>,
    /// The language's name in itself, when the configuration names one.
    pub name_native: Option<String>,
    /// The language's name in English, when the configuration names one.
    pub name_english: Option<String>,
}

/// One discovered neural model: where its configuration lives and which
/// language it speaks.
pub struct PiperModelInfo {
    /// Path text of the model's configuration file.
    pub path: String,
    /// The model's language, when its configuration names one.
    pub language: Option<ModelLanguage>,
}

/// The language code a model offers, when it names one.
pub open spec fn spec_model_code(m: PiperModelInfo) -> Option<Seq<char>> {
    match m.language {
        Option::Some(l) => Option::Some(l.code@),
        Option::None => Option::None,
    }
}

/// The language codes of a model list, in order.
fn model_language_codes(models: &Vec<PiperModelInfo>) -> (r: Vec<Option<String>>)
    ensures
        r@.len() == models@.len(),
        forall|i: int| 0 <= i < models@.len() ==> opt_code(#[trigger] r@[i]) == spec_model_code(
            models@[i],
        ),
{
    let mut out: Vec<Option<String>> = Vec::new();
    let mut i: usize = 0;
    while i < models.len()
        invariant
            0 <= i <= models@.len(),
            out@.len() == i,
            forall|j: int| 0 <= j < i ==> opt_code(#[trigger] out@[j]) == spec_model_code(
                models@[j],
            ),
        decreases models@.len() - i,
    {
        match &models[i].language {
            Some(lang) => {
                out.push(Some(lang.code.clone()));
            },
            None => {
                out.push(None);
            },
        }
        i = i + 1;
    }
    out
}

/// Picks the model for a detected range: the first model whose language
/// ranks best among the range's candidates; models without a language rank
/// worst.
pub fn preferred_model(models: &Vec<PiperModelInfo>, range: &DetectedLanguage) -> (r: usize)
    requires
        models@.len() > 0,
    ensures
        ({
            let ranked = range.languages.deep_view();
            let best = spec_rank(ranked, spec_model_code(models@[r as int]));
            &&& 0 <= r < models@.len()
            &&& forall|j: int|
                0 <= j < models@.len() ==> spec_rank(
                    ranked,
                    spec_model_code(#[trigger] models@[j]),
                ) >= best
            &&& forall|j: int| 0 <= j < r ==> spec_rank(ranked, spec_model_code(models@[j])) > best
        }),
{
    let codes = model_language_codes(models);
    let r = select_model(&range.languages, &codes);
    proof {
        let ranked = range.languages.deep_view();
        assert forall|j: int| 0 <= j < models@.len() implies spec_rank(
            ranked,
            spec_model_code(#[trigger] models@[j]),
        ) == spec_rank(ranked, opt_code(codes@[j])) by {
            assert(opt_code(codes@[j]) == spec_model_code(models@[j]));
        }
    }
    r
}

/// Blank characters the speaker side file may carry around its number: the
/// whitespace characters, the same set text trimming removes.
pub open spec fn is_blank(c: char) -> bool {
    let u = c as u32;
    (0x09 <= u <= 0x0D) || u == 0x20 || u == 0x85 || u == 0xA0 || u == 0x1680 || (0x2000 <= u
        <= 0x200A) || u == 0x2028 || u == 0x2029 || u == 0x202F || u == 0x205F || u == 0x3000
}

/// Whether `c` is whitespace the parser ignores.
fn blank_char(c: char) -> (r: bool)
    ensures
        r == is_blank(c),
{
    let u = c as u32;
    (0x09 <= u && u <= 0x0D) || u == 0x20 || u == 0x85 || u == 0xA0 || u == 0x1680 || (0x2000 <= u
        && u <= 0x200A) || u == 0x2028 || u == 0x2029 || u == 0x202F || u == 0x205F || u == 0x3000
}

/// Index of the first non-blank character, or `s.len()` when all are blank.
pub open spec fn first_nonblank(s: Seq<char>) -> int
    decreases s.len(),
{
    if s.len() == 0 {
        0
    } else if !is_blank(s[0]) {
        0
    } else {
        1 + first_nonblank(s.drop_first())
    }
}

/// Length of `s` with trailing blanks removed.
pub open spec fn nonblank_end(s: Seq<char>) -> int
    decreases s.len(),
{
    if s.len() > 0 && is_blank(s.last()) {
        nonblank_end(s.drop_last())
    } else {
        s.len() as int
    }
}

/// The text with leading and trailing blanks removed.
pub open spec fn blank_trimmed(s: Seq<char>) -> Seq<char> {
    if first_nonblank(s) >= nonblank_end(s) {
        Seq::empty()
    } else {
        s.subrange(first_nonblank(s), nonblank_end(s))
    }
}

pub proof fn lemma_first_nonblank_bounds(s: Seq<char>)
    ensures
        0 <= first_nonblank(s) <= s.len(),
        forall|j: int| 0 <= j < first_nonblank(s) ==> is_blank(s[j]),
        first_nonblank(s) < s.len() ==> !is_blank(s[first_nonblank(s)]),
    decreases s.len(),
{
    if s.len() == 0 || !is_blank(s[0]) {
    } else {
        lemma_first_nonblank_bounds(s.drop_first());
        assert forall|j: int| 0 <= j < first_nonblank(s) implies is_blank(s[j]) by {
            if j > 0 {
                assert(s[j] == s.drop_first()[j - 1]);
            }
        }
        if first_nonblank(s) < s.len() {
            assert(s[first_nonblank(s)] == s.drop_first()[first_nonblank(s.drop_first())]);
        }
    }
}

pub proof fn lemma_first_nonblank_is(s: Seq<char>, i: int)
    requires
        0 <= i <= s.len(),
        forall|j: int| 0 <= j < i ==> is_blank(s[j]),
        i < s.len() ==> !is_blank(s[i]),
    ensures
        first_nonblank(s) == i,
{
    lemma_first_nonblank_bounds(s);
    if first_nonblank(s) < i {
        assert(!is_blank(s[first_nonblank(s)]));
    } else if i < first_nonblank(s) {
        assert(is_blank(s[i]));
    }
}

pub proof fn lemma_nonblank_end_bounds(s: Seq<char>)
    ensures
        0 <= nonblank_end(s) <= s.len(),
        forall|j: int| nonblank_end(s) <= j < s.len() ==> is_blank(s[j]),
        nonblank_end(s) > 0 ==> !is_blank(s[nonblank_end(s) - 1]),
    decreases s.len(),
{
    if s.len() > 0 && is_blank(s.last()) {
        lemma_nonblank_end_bounds(s.drop_last());
        assert forall|j: int| nonblank_end(s) <= j < s.len() implies is_blank(s[j]) by {
            if j < s.len() - 1 {
                assert(s[j] == s.drop_last()[j]);
            }
        }
        if nonblank_end(s) > 0 {
            assert(s[nonblank_end(s) - 1] == s.drop_last()[nonblank_end(s.drop_last()) - 1]);
        }
    }
}

pub proof fn lemma_nonblank_end_is(s: Seq<char>, i: int)
    requires
        0 <= i <= s.len(),
        forall|j: int| i <= j < s.len() ==> is_blank(s[j]),
        i > 0 ==> !is_blank(s[i - 1]),
    ensures
        nonblank_end(s) == i,
{
    lemma_nonblank_end_bounds(s);
    if nonblank_end(s) < i {
        assert(is_blank(s[i - 1]));
        assert(nonblank_end(s) <= i - 1 < s.len());
    } else if i < nonblank_end(s) {
        assert(is_blank(s[nonblank_end(s) - 1]));
    }
}

/// Whether `c` is a decimal digit.
pub open spec fn is_digit(c: char) -> bool {
    48 <= (c as u32) <= 57
}

/// The value of a decimal digit.
pub open spec fn digit_val(c: char) -> int {
    (c as u32) - 48
}

/// Whether every character of `s` is a decimal digit.
pub open spec fn all_digits(s: Seq<char>) -> bool {
    forall|i: int| 0 <= i < s.len() ==> is_digit(#[trigger] s[i])
}

/// The value of a string of decimal digits.
pub open spec fn digits_value(s: Seq<char>) -> int
    decreases s.len(),
{
    if s.len() == 0 {
        0
    } else {
        digits_value(s.drop_last()) * 10 + digit_val(s.last())
    }
}

/// Ten to the `n`.
pub open spec fn pow10(n: int) -> int
    decreases n,
{
    if n <= 0 {
        1
    } else {
        10 * pow10(n - 1)
    }
}

/// A digit string's value stays below ten to its length.
pub proof fn lemma_digits_value_bound(s: Seq<char>)
    requires
        forall|i: int| 0 <= i < s.len() ==> is_digit(s[i]),
    ensures
        0 <= digits_value(s) < pow10(s.len() as int),
    decreases s.len(),
{
    if s.len() > 0 {
        lemma_digits_value_bound(s.drop_last());
    }
}

/// A digit string starting with a non-zero digit is worth at least ten to
/// one below its length.
pub proof fn lemma_digits_value_lower(s: Seq<char>)
    requires
        s.len() > 0,
        forall|i: int| 0 <= i < s.len() ==> is_digit(s[i]),
        digit_val(s[0]) != 0,
    ensures
        digits_value(s) >= pow10(s.len() - 1),
    decreases s.len(),
{
    if s.len() == 1 {
        assert(digit_val(s[0]) >= 1);
    } else {
        assert(s.drop_last()[0] == s[0]);
        assert forall|i: int| 0 <= i < s.drop_last().len() implies is_digit(s.drop_last()[i]) by {
            assert(s.drop_last()[i] == s[i]);
        }
        lemma_digits_value_lower(s.drop_last());
        assert(digits_value(s.drop_last()) >= pow10(s.drop_last().len() - 1));
        assert(s.drop_last().len() == s.len() - 1);
        assert(is_digit(s.last()));
        assert(digit_val(s.last()) >= 0);
        assert(digits_value(s) == digits_value(s.drop_last()) * 10 + digit_val(s.last()));
        assert(digits_value(s.drop_last()) * 10 >= pow10(s.len() - 2) * 10) by (nonlinear_arith)
            requires
                digits_value(s.drop_last()) >= pow10(s.len() - 2),
        ;
        assert(pow10(s.len() - 1) == 10 * pow10(s.len() - 2));
    }
}

/// Leading zero digits do not change a digit string's value.
pub proof fn lemma_digits_value_skip_zeros(s: Seq<char>, k: int)
    requires
        0 <= k <= s.len(),
        forall|j: int| 0 <= j < k ==> digit_val(s[j]) == 0,
    ensures
        digits_value(s) == digits_value(s.skip(k)),
    decreases s.len(),
{
    if k == 0 {
        assert(s.skip(0) =~= s);
    } else if s.len() == k {
        lemma_digits_value_all_zeros(s);
        assert(s.skip(k) =~= Seq::<char>::empty());
    } else {
        assert(s.drop_last().skip(k) =~= s.skip(k).drop_last());
        assert(s.skip(k).last() == s.last());
        lemma_digits_value_skip_zeros(s.drop_last(), k);
    }
}

/// A string of zero digits is worth zero.
pub proof fn lemma_digits_value_all_zeros(s: Seq<char>)
    requires
        forall|j: int| 0 <= j < s.len() ==> digit_val(s[j]) == 0,
    ensures
        digits_value(s) == 0,
    decreases s.len(),
{
    if s.len() > 0 {
        lemma_digits_value_all_zeros(s.drop_last());
    }
}

/// What the speaker side file's text parses to: the text without surrounding
/// blanks must be an optionally signed string of decimal digits whose signed
/// value fits a 64-bit integer.
pub open spec fn spec_speaker_id(s: Seq<char>) -> Option<int> {
    let t = blank_trimmed(s);
    if t.len() == 0 {
        Option::None
    } else {
        let signed = t[0] == '-' || t[0] == '+';
        let digits = if signed {
            t.drop_first()
        } else {
            t
        };
        if digits.len() == 0 || !all_digits(digits) {
            Option::None
        } else {
            let v = if t[0] == '-' {
                -digits_value(digits)
            } else {
                digits_value(digits)
            };
            if i64::MIN <= v <= i64::MAX {
                Option::Some(v)
            } else {
                Option::None
            }
        }
    }
}

pub proof fn lemma_pow10_positive(n: int)
    ensures
        pow10(n) >= 1,
    decreases n,
{
    if n > 0 {
        lemma_pow10_positive(n - 1);
    }
}

pub proof fn lemma_pow10_monotone(a: int, b: int)
    requires
        a <= b,
    ensures
        pow10(a) <= pow10(b),
    decreases b - a,
{
    if a < b {
        lemma_pow10_monotone(a, b - 1);
        lemma_pow10_positive(b - 1);
    }
}

/// Ten to the nineteenth, the first power of ten past the 64-bit signed
/// range, written out.
pub proof fn lemma_pow10_19()
    ensures
        pow10(19) == 10_000_000_000_000_000_000,
{
    assert(pow10(0) == 1);
    assert(pow10(1) == 10);
    assert(pow10(2) == 100);
    assert(pow10(3) == 1000);
    assert(pow10(4) == 10000);
    assert(pow10(5) == 100000);
    assert(pow10(6) == 1000000);
    assert(pow10(7) == 10000000);
    assert(pow10(8) == 100000000);
    assert(pow10(9) == 1000000000);
    assert(pow10(10) == 10000000000);
    assert(pow10(11) == 100000000000);
    assert(pow10(12) == 1000000000000);
    assert(pow10(13) == 10000000000000);
    assert(pow10(14) == 100000000000000);
    assert(pow10(15) == 1000000000000000);
    assert(pow10(16) == 10000000000000000);
    assert(pow10(17) == 100000000000000000);
    assert(pow10(18) == 1000000000000000000);
    assert(pow10(19) == 10000000000000000000);
}

/// Index of the first non-blank character of `text`.
fn leading_blanks_end(text: &str) -> (r: usize)
    ensures
        r == first_nonblank(text@),
{
    let n = text.unicode_len();
    let mut i: usize = 0;
    while i < n
        invariant
            0 <= i <= n,
            n == text@.len(),
            forall|j: int| 0 <= j < i ==> is_blank(text@[j]),
        decreases n - i,
    {
        let c = text.get_char(i);
        if !blank_char(c) {
            proof {
                lemma_first_nonblank_is(text@, i as int);
            }
            return i;
        }
        i = i + 1;
    }
    proof {
        lemma_first_nonblank_is(text@, n as int);
    }
    n
}

/// The length of `text` without its trailing blanks.
fn trailing_blanks_start(text: &str) -> (r: usize)
    ensures
        r == nonblank_end(text@),
{
    let n = text.unicode_len();
    let mut i: usize = n;
    while i > 0
        invariant
            0 <= i <= n,
            n == text@.len(),
            forall|j: int| i <= j < n ==> is_blank(text@[j]),
        decreases i,
    {
        let c = text.get_char(i - 1);
        if !blank_char(c) {
            proof {
                lemma_nonblank_end_is(text@, i as int);
            }
            return i;
        }
        i = i - 1;
    }
    proof {
        lemma_nonblank_end_is(text@, 0);
    }
    0
}

/// Whether every character of `text[from..to]` is a decimal digit.
fn all_digits_in(text: &str, from: usize, to: usize) -> (r: bool)
    requires
        from <= to <= text@.len(),
    ensures
        r == (forall|j: int| from <= j < to ==> is_digit(#[trigger] text@[j])),
{
    let mut i: usize = from;
    while i < to
        invariant
            from <= i <= to <= text@.len(),
            forall|j: int| from <= j < i ==> is_digit(#[trigger] text@[j]),
        decreases to - i,
    {
        let cu = text.get_char(i) as u32;
        if !(48 <= cu && cu <= 57) {
            return false;
        }
        i = i + 1;
    }
    true
}

/// Index of the first non-zero digit in `text[from..to]`, or `to` when all
/// are zero digits.
fn first_nonzero_digit(text: &str, from: usize, to: usize) -> (r: usize)
    requires
        from <= to <= text@.len(),
    ensures
        from <= r <= to,
        forall|j: int| from <= j < r ==> digit_val(text@[j]) == 0,
        r < to ==> digit_val(text@[r as int]) != 0,
{
    let mut i: usize = from;
    while i < to
        invariant
            from <= i <= to <= text@.len(),
            forall|j: int| from <= j < i ==> digit_val(text@[j]) == 0,
        decreases to - i,
    {
        if (text.get_char(i) as u32) != 48 {
            return i;
        }
        i = i + 1;
    }
    to
}

/// Parses the speaker side file's text as a speaker number: surrounding
/// whitespace is ignored, one optional sign precedes the decimal digits, and
/// anything else — or a value outside the 64-bit signed range — is rejected.
pub fn parse_speaker_id(text: &str) -> (r: Option<i64>)
    ensures
        match r {
            Option::Some(v) => spec_speaker_id(text@) == Option::Some(v as int),
            Option::None => spec_speaker_id(text@) is None,
        },
{
    let lo = leading_blanks_end(text);
    let hi = trailing_blanks_start(text);
    proof {
        lemma_first_nonblank_bounds(text@);
        lemma_nonblank_end_bounds(text@);
    }
    if lo >= hi {
        return None;
    }
    let ghost t = blank_trimmed(text@);
    proof {
        assert(t =~= text@.subrange(lo as int, hi as int));
    }
    let first = text.get_char(lo);
    let negative = first == '-';
    let dstart: usize = if first == '-' || first == '+' {
        lo + 1
    } else {
        lo
    };
    let ghost digits = if t[0] == '-' || t[0] == '+' {
        t.drop_first()
    } else {
        t
    };
    proof {
        assert(digits =~= text@.subrange(dstart as int, hi as int));
    }
    if dstart == hi {
        return None;
    }
    if !all_digits_in(text, dstart, hi) {
        proof {
            assert(exists|j: int| dstart <= j < hi && !is_digit(#[trigger] text@[j]));
            let bad = choose|j: int| dstart <= j < hi && !is_digit(#[trigger] text@[j]);
            assert(0 <= bad - dstart < digits.len());
            assert(digits[bad - dstart] == text@[bad]);
            assert(!all_digits(digits));
        }
        return None;
    }
    proof {
        assert forall|i: int| 0 <= i < digits.len() implies is_digit(#[trigger] digits[i]) by {
            assert(digits[i] == text@[dstart + i]);
        }
        assert(all_digits(digits));
    }
    let z = first_nonzero_digit(text, dstart, hi);
    let ghost sig = text@.subrange(z as int, hi as int);
    proof {
        assert forall|j: int| 0 <= j < z - dstart implies digit_val(digits[j]) == 0 by {
            assert(digits[j] == text@[dstart + j]);
        }
        assert(digits.skip(z - dstart) =~= sig);
        lemma_digits_value_skip_zeros(digits, z - dstart);
        assert(digits_value(digits) == digits_value(sig));
        assert forall|i: int| 0 <= i < sig.len() implies is_digit(sig[i]) by {
            assert(sig[i] == digits[(z - dstart) + i]);
        }
        lemma_pow10_19();
    }
    if hi - z > 19 {
        proof {
            assert(sig[0] == text@[z as int]);
            lemma_digits_value_lower(sig);
            lemma_pow10_monotone(19, sig.len() - 1);
            assert(digits_value(sig) >= 10_000_000_000_000_000_000);
        }
        return None;
    }
    let mut mag: u64 = 0;
    let mut m: usize = z;
    while m < hi
        invariant
            z <= m <= hi <= text@.len(),
            hi - z <= 19,
            forall|j: int| z <= j < hi ==> is_digit(text@[j]),
            mag == digits_value(text@.subrange(z as int, m as int)),
            mag < pow10(m - z),
            pow10(19) == 10_000_000_000_000_000_000,
        decreases hi - m,
    {
        let cu = text.get_char(m) as u32;
        let d = (cu - 48) as u64;
        proof {
            assert(is_digit(text@[m as int]));
            assert(text@.subrange(z as int, m + 1).drop_last() =~= text@.subrange(
                z as int,
                m as int,
            ));
            assert(text@.subrange(z as int, m + 1).last() == text@[m as int]);
            assert(pow10(m + 1 - z) == 10 * pow10(m - z));
            lemma_pow10_monotone(m + 1 - z, 19);
        }
        mag = mag * 10 + d;
        m = m + 1;
    }
    proof {
        assert(text@.subrange(z as int, hi as int) =~= sig);
        assert(mag == digits_value(digits));
        lemma_digits_value_bound(digits);
    }
    if negative {
        if mag <= 9223372036854775808u64 {
            if mag == 9223372036854775808u64 {
                Some(i64::MIN)
            } else {
                Some(-(mag as i64))
            }
        } else {
            None
        }
    } else {
        if mag <= 9223372036854775807u64 {
            Some(mag as i64)
        } else {
            None
        }
    }
}

} // verus!
