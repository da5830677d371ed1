//! The library's laws: properties that relate several operations, stated
//! over the same models the operations' contracts use.

use vstd::prelude::*;

use crate::assoc::has_key;
use crate::assoc::lemma_first_key_index;
use crate::classifier::Language;
use crate::regex_match::regex_matches;
use crate::regex_match::regex_ok;
use crate::registry::add_avs;
use crate::registry::apply_customs;
use crate::registry::first_type_match;
use crate::registry::has_av_rule;
use crate::registry::in_lists;
use crate::registry::lemma_add_avs_has_key;
use crate::registry::load_patterns_model;
use crate::registry::make_map_spec;
use crate::registry::registry_model;
use crate::registry::select_model;
use crate::registry::SecurityRiskPatterns;
use crate::schema::cat_rules;
use crate::schema::merge_lang_spec;
use crate::schema::LangModel;
use crate::schema::PatternType;

verus! {

/// Building a registry for a language that has no entry in the loaded map
/// selects exactly what a registry for `Other` selects: the `Other` rule
/// set, or no rules when even `Other` has none.
pub proof fn lemma_fallback_to_other(m: Seq<(Language, LangModel)>, lang: Language)
    ensures
        !has_key(m, lang) ==> select_model(m, lang) == select_model(m, Language::Other),
{
    lemma_first_key_index(m, lang);
    if !has_key(m, lang) {
        if crate::assoc::first_key_index(m, lang) >= 0 {
            assert(m[crate::assoc::first_key_index(m, lang)].0 == lang);
            assert(has_key(m, lang));
        }
    }
}

/// Overlay merge is additive and order-preserving: when both sides have a
/// category list, the merged list is the existing rules followed by the
/// custom rules - nothing replaced, reordered or deduplicated.
pub proof fn lemma_merge_additive(existing: LangModel, custom: LangModel)
    ensures
        existing.principals is Some && custom.principals is Some ==> merge_lang_spec(
            existing,
            custom,
        ).principals == Option::Some(existing.principals.unwrap() + custom.principals.unwrap()),
        existing.actions is Some && custom.actions is Some ==> merge_lang_spec(
            existing,
            custom,
        ).actions == Option::Some(existing.actions.unwrap() + custom.actions.unwrap()),
        existing.resources is Some && custom.resources is Some ==> merge_lang_spec(
            existing,
            custom,
        ).resources == Option::Some(existing.resources.unwrap() + custom.resources.unwrap()),
{
}

/// A pattern text is a key of the attack-vector index exactly when some
/// rule of the document carries that text together with a non-empty
/// attack-vector list. In particular a rule whose attack-vector list is
/// empty never puts its text into the index.
pub proof fn lemma_empty_attack_vector_not_indexed(lm: LangModel, p: Seq<char>)
    ensures
        has_key(registry_model(lm).av_map, p) <==> (has_av_rule(cat_rules(lm.principals), p)
            || has_av_rule(cat_rules(lm.actions), p) || has_av_rule(cat_rules(lm.resources), p)),
{
    let a0 = Seq::<(Seq<char>, Seq<Seq<char>>)>::empty();
    let a1 = add_avs(a0, cat_rules(lm.principals));
    let a2 = add_avs(a1, cat_rules(lm.actions));
    lemma_add_avs_has_key(a2, cat_rules(lm.resources), p);
    lemma_add_avs_has_key(a1, cat_rules(lm.actions), p);
    lemma_add_avs_has_key(a0, cat_rules(lm.principals), p);
    assert(!has_key(a0, p));
}

/// A missing overlay is the identity: the map loaded with no overlay, and
/// the map loaded with an overlay of no entries, are both exactly the map
/// the built-ins alone determine. A registry built with a project root
/// whose overlay file is absent - or unreadable, or malformed, which hands
/// construction no overlay at all - is therefore identical to one built
/// with no root argument.
pub proof fn lemma_absent_overlay_identity(b: Seq<(Language, LangModel)>)
    ensures
        load_patterns_model(b, Option::None) == make_map_spec(b),
        load_patterns_model(b, Option::Some(Seq::empty())) == make_map_spec(b),
        apply_customs(make_map_spec(b), Seq::empty()) == make_map_spec(b),
{
}

/// Under valid keys, the index scan answers exactly when some key matches.
proof fn lemma_first_type_match_some(m: Seq<(Seq<char>, PatternType)>, c: Seq<char>)
    requires
        forall|i: int| 0 <= i < m.len() ==> regex_ok((#[trigger] m[i]).0),
    ensures
        (first_type_match(m, c) is Some) <==> exists|i: int|
            0 <= i < m.len() && regex_matches((#[trigger] m[i]).0, c),
    decreases m.len(),
{
    if m.len() != 0 {
        if regex_matches(m[0].0, c) {
        } else {
            assert forall|j: int| 0 <= j < m.skip(1).len() implies m.skip(1)[j] == m[j + 1] by {}
            lemma_first_type_match_some(m.skip(1), c);
            if exists|i: int| 0 <= i < m.len() && regex_matches((#[trigger] m[i]).0, c) {
                let i = choose|i: int| 0 <= i < m.len() && regex_matches((#[trigger] m[i]).0, c);
                assert(i > 0);
                assert(m.skip(1)[i - 1] == m[i]);
            }
            if exists|i: int|
                0 <= i < m.skip(1).len() && regex_matches((#[trigger] m.skip(1)[i]).0, c) {
                let i = choose|i: int|
                    0 <= i < m.skip(1).len() && regex_matches((#[trigger] m.skip(1)[i]).0, c);
                assert(m.skip(1)[i] == m[i + 1]);
            }
        }
    }
}

/// `matches` is true exactly when `get_pattern_type` answers: for every
/// well-formed registry and every content, some compiled rule matches iff
/// the category-index scan finds a matching entry.
pub proof fn lemma_matches_iff_categorized(reg: SecurityRiskPatterns, c: Seq<char>)
    ensures
        reg.wf() ==> (reg.matches_spec(c) <==> first_type_match(reg@.type_map, c) is Some),
{
    if reg.wf() {
        let v = reg@;
        let tm = v.type_map;
        lemma_first_type_match_some(tm, c);
        if reg.matches_spec(c) {
            let p: Seq<char> = if crate::registry::any_match(v.principals, c) {
                let i = choose|i: int|
                    0 <= i < v.principals.len() && regex_matches(#[trigger] v.principals[i], c);
                v.principals[i]
            } else if crate::registry::any_match(v.actions, c) {
                let i = choose|i: int|
                    0 <= i < v.actions.len() && regex_matches(#[trigger] v.actions[i], c);
                v.actions[i]
            } else {
                let i = choose|i: int|
                    0 <= i < v.resources.len() && regex_matches(#[trigger] v.resources[i], c);
                v.resources[i]
            };
            assert(regex_matches(p, c));
            assert(in_lists(v, p));
            assert(has_key(tm, p));
            let j = choose|j: int| 0 <= j < tm.len() && (#[trigger] tm[j]).0 == p;
            assert(regex_matches(tm[j].0, c));
        }
        if first_type_match(tm, c) is Some {
            let j = choose|j: int| 0 <= j < tm.len() && regex_matches((#[trigger] tm[j]).0, c);
            let p = tm[j].0;
            assert(in_lists(v, p));
            if v.principals.contains(p) {
                let i = choose|i: int| 0 <= i < v.principals.len() && v.principals[i] == p;
                assert(regex_matches(v.principals[i], c));
            } else if v.actions.contains(p) {
                let i = choose|i: int| 0 <= i < v.actions.len() && v.actions[i] == p;
                assert(regex_matches(v.actions[i], c));
            } else {
                let i = choose|i: int| 0 <= i < v.resources.len() && v.resources[i] == p;
                assert(regex_matches(v.resources[i], c));
            }
        }
    }
}

} // verus!
