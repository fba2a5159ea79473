//! Rank-based voice selection.
//!
//! A detected range carries an ordered list of candidate languages, most
//! likely first. A voice's rank is the position of the first candidate its
//! language matches; a voice matching no candidate ranks worst. The default
//! voice is kept unless some other voice ranks strictly better, and among
//! equally ranked voices the first one enumerated wins.

use vstd::prelude::*;

use crate::lang::codes_match;
use crate::lang::equal_language_codes;

verus! {

/// Which voice list a host query enumerates.
#[derive(Clone, Copy, Debug, PartialEq, Eq, Structural)]
pub enum VoiceCategoryId {
    /// The legacy voice list.
    Default,
    /// The modern voice list.
    Modern,
}

/// The registry location naming a voice category.
pub open spec fn voice_category_text(c: VoiceCategoryId) -> Seq<char> {
    match c {
        VoiceCategoryId::Default => "HKEY_LOCAL_MACHINE\\SOFTWARE\\Microsoft\\Speech\\Voices"@,
        VoiceCategoryId::Modern => "HKEY_LOCAL_MACHINE\\SOFTWARE\\Microsoft\\Speech_OneCore\\Voices"@,
    }
}

impl VoiceCategoryId {
    /// The registry location the category's voice tokens are enumerated from.
    pub fn category_id_text(&self) -> (r: &'static str)
        ensures
            r@ == voice_category_text(*self),
    {
        match self {
            VoiceCategoryId::Default => "HKEY_LOCAL_MACHINE\\SOFTWARE\\Microsoft\\Speech\\Voices",
            VoiceCategoryId::Modern => "HKEY_LOCAL_MACHINE\\SOFTWARE\\Microsoft\\Speech_OneCore\\Voices",
        }
    }
}

/// Position of the first candidate in `langs` that `code` matches.
pub open spec fn spec_priority(langs: Seq<Seq<char>>, code: Seq<char>) -> Option<int>
    decreases langs.len(),
{
    if langs.len() == 0 {
        Option::None
    } else if codes_match(langs[0], code) {
        Option::Some(0int)
    } else {
        match spec_priority(langs.drop_first(), code) {
            Option::Some(i) => Option::Some(i + 1),
            Option::None => Option::None,
        }
    }
}

/// A voice's rank: its language's priority, or `langs.len()` (worse than any
/// real priority) when it has no language or matches no candidate.
pub open spec fn spec_rank(langs: Seq<Seq<char>>, code: Option<Seq<char>>) -> int {
    match code {
        Option::Some(c) => match spec_priority(langs, c) {
            Option::Some(i) => i,
            Option::None => langs.len() as int,
        },
        Option::None => langs.len() as int,
    }
}

/// The language code of a voice, when it exposes one.
pub open spec fn opt_code(code: Option<String>) -> Option<Seq<char>> {
    match code {
        Option::Some(s) => Option::Some(s@),
        Option::None => Option::None,
    }
}

pub proof fn lemma_spec_priority(langs: Seq<Seq<char>>, code: Seq<char>)
    ensures
        match spec_priority(langs, code) {
            Option::Some(i) => {
                &&& 0 <= i < langs.len()
                &&& codes_match(langs[i], code)
                &&& forall|j: int| 0 <= j < i ==> !codes_match(langs[j], code)
            },
            Option::None => forall|j: int| 0 <= j < langs.len() ==> !codes_match(langs[j], code),
        },
    decreases langs.len(),
{
    if langs.len() > 0 && !codes_match(langs[0], code) {
        lemma_spec_priority(langs.drop_first(), code);
        assert forall|j: int| 1 <= j < langs.len() implies langs[j] == langs.drop_first()[j - 1] by {}
    }
}

/// The first matching index is exactly the priority.
pub proof fn lemma_spec_priority_is(langs: Seq<Seq<char>>, code: Seq<char>, i: int)
    requires
        0 <= i <= langs.len(),
        forall|j: int| 0 <= j < i ==> !codes_match(langs[j], code),
        i < langs.len() ==> codes_match(langs[i], code),
    ensures
        i < langs.len() ==> spec_priority(langs, code) == Option::Some(i),
        i == langs.len() ==> spec_priority(langs, code) is None,
{
    lemma_spec_priority(langs, code);
    match spec_priority(langs, code) {
        Option::Some(p) => {
            if p < i {
                assert(!codes_match(langs[p], code));
            } else if i < p {
                assert(!codes_match(langs[i], code));
            }
        },
        Option::None => {
            if i < langs.len() {
                assert(!codes_match(langs[i], code));
            }
        },
    }
}

/// Index of the first candidate language that `lang_code` matches; lower is
/// better, `None` means no candidate matches.
pub fn priority_in(languages: &Vec<String>, lang_code: &str) -> (r: Option<usize>)
    ensures
        match r {
            Option::Some(i) => spec_priority(languages.deep_view(), lang_code@) == Option::Some(
                i as int,
            ),
            Option::None => spec_priority(languages.deep_view(), lang_code@) is None,
        },
{
    let ghost langs = languages.deep_view();
    let mut i: usize = 0;
    while i < languages.len()
        invariant
            0 <= i <= languages@.len(),
            langs == languages.deep_view(),
            langs.len() == languages@.len(),
            forall|j: int| 0 <= j < languages@.len() ==> langs[j] == #[trigger] languages@[j]@,
            forall|j: int| 0 <= j < i ==> !codes_match(langs[j], lang_code@),
        decreases languages@.len() - i,
    {
        if equal_language_codes(languages[i].as_str(), lang_code) {
            proof {
                lemma_spec_priority_is(langs, lang_code@, i as int);
            }
            return Some(i);
        }
        i = i + 1;
    }
    proof {
        lemma_spec_priority_is(langs, lang_code@, languages@.len() as int);
    }
    None
}

/// A voice's rank for a candidate list, as a number: the priority of its
/// language, or `languages.len()` when nothing matches.
pub fn rank_of(languages: &Vec<String>, voice_lang: &Option<String>) -> (r: usize)
    ensures
        r == spec_rank(languages.deep_view(), opt_code(*voice_lang)),
        r <= languages@.len(),
    {
    proof {
        if voice_lang is Some {
            lemma_spec_priority(languages.deep_view(), voice_lang->0@);
        }
        assert(languages.deep_view().len() == languages@.len());
    }
    match voice_lang {
        Some(code) => match priority_in(languages, code.as_str()) {
            Some(i) => i,
            None => languages.len(),
        },
        None => languages.len(),
    }
}

/// Picks the voice for a candidate language list. `default_lang` is the
/// default voice's language and `voice_langs` the other voices' languages in
/// enumeration order; a `None` stands for a voice that exposes no language.
/// Returns the index of the first voice ranking strictly better than the
/// default, and every bit as well as all others; returns `None` when the
/// default is kept. Matching no voice at all is not an error: the default
/// serves then.
pub fn select_voice(
    languages: &Vec<String>,
    default_lang: &Option<String>,
    voice_langs: &Vec<Option<String>>,
) -> (r: Option<usize>)
    ensures
        ({
            let ranked = languages.deep_view();
            let default_rank = spec_rank(ranked, opt_code(*default_lang));
            match r {
                Option::None => forall|j: int|
                    0 <= j < voice_langs@.len() ==> spec_rank(
                        ranked,
                        opt_code(#[trigger] voice_langs@[j]),
                    ) >= default_rank,
                Option::Some(i) => {
                    let best = spec_rank(ranked, opt_code(voice_langs@[i as int]));
                    &&& 0 <= i < voice_langs@.len()
                    &&& best < default_rank
                    &&& forall|j: int|
                        0 <= j < voice_langs@.len() ==> spec_rank(
                            ranked,
                            opt_code(#[trigger] voice_langs@[j]),
                        ) >= best
                    &&& forall|j: int|
                        0 <= j < i ==> spec_rank(ranked, opt_code(#[trigger] voice_langs@[j]))
                            > best
                },
            }
        }),
{
    let ghost ranked = languages.deep_view();
    let default_rank = rank_of(languages, default_lang);
    let mut best: Option<usize> = None;
    let mut best_rank = default_rank;
    let mut i: usize = 0;
    while i < voice_langs.len()
        invariant
            0 <= i <= voice_langs@.len(),
            ranked == languages.deep_view(),
            default_rank == spec_rank(ranked, opt_code(*default_lang)),
            match best {
                Option::None => {
                    &&& best_rank == default_rank
                    &&& forall|j: int|
                        0 <= j < i ==> spec_rank(ranked, opt_code(#[trigger] voice_langs@[j]))
                            >= default_rank
                },
                Option::Some(b) => {
                    &&& 0 <= b < i
                    &&& best_rank == spec_rank(ranked, opt_code(voice_langs@[b as int]))
                    &&& best_rank < default_rank
                    &&& forall|j: int|
                        0 <= j < i ==> spec_rank(ranked, opt_code(#[trigger] voice_langs@[j]))
                            >= best_rank
                    &&& forall|j: int|
                        0 <= j < b ==> spec_rank(ranked, opt_code(#[trigger] voice_langs@[j]))
                            > best_rank
                },
            },
        decreases voice_langs@.len() - i,
    {
        let rank = rank_of(languages, &voice_langs[i]);
        if rank < best_rank {
            best = Some(i);
            best_rank = rank;
        }
        i = i + 1;
    }
    best
}

/// Picks the synthesis model for a candidate language list: the first model
/// whose language ranks best. There is no separate default; the first model
/// wins all ties.
pub fn select_model(languages: &Vec<String>, model_langs: &Vec<Option<String>>) -> (r: usize)
    requires
        model_langs@.len() > 0,
    ensures
        ({
            let ranked = languages.deep_view();
            let best = spec_rank(ranked, opt_code(model_langs@[r as int]));
            &&& 0 <= r < model_langs@.len()
            &&& forall|j: int|
                0 <= j < model_langs@.len() ==> spec_rank(
                    ranked,
                    opt_code(#[trigger] model_langs@[j]),
                ) >= best
            &&& forall|j: int|
                0 <= j < r ==> spec_rank(ranked, opt_code(#[trigger] model_langs@[j])) > best
        }),
{
    let ghost ranked = languages.deep_view();
    let mut best: usize = 0;
    let mut best_rank = rank_of(languages, &model_langs[0]);
    let mut i: usize = 1;
    while i < model_langs.len()
        invariant
            1 <= i <= model_langs@.len(),
            0 <= best < i,
            ranked == languages.deep_view(),
            best_rank == spec_rank(ranked, opt_code(model_langs@[best as int])),
            forall|j: int|
                0 <= j < i ==> spec_rank(ranked, opt_code(#[trigger] model_langs@[j])) >= best_rank,
            forall|j: int|
                0 <= j < best ==> spec_rank(ranked, opt_code(#[trigger] model_langs@[j]))
                    > best_rank,
        decreases model_langs@.len() - i,
    {
        let rank = rank_of(languages, &model_langs[i]);
        if rank < best_rank {
            best = i;
            best_rank = rank;
        }
        i = i + 1;
    }
    best
}

} // verus!
