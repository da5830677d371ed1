//! The pattern registry: built once per scan session for a chosen language
//! from built-in rule documents plus an optional project overlay, immutable
//! afterwards, and queried per scanned text fragment.
//!
//! Keyed structures are association lists with insert-overwrite semantics
//! and a deterministic order: rule declaration order, built-ins before
//! overlay rules.

use vstd::prelude::*;

use crate::assoc::assoc_set;
use crate::assoc::first_key_index;
use crate::assoc::has_key;
use crate::assoc::lemma_assoc_set_has_key;
use crate::assoc::lemma_first_key_index;
use crate::assoc::lemma_first_key_index_unique;
use crate::assoc::lookup;
use crate::classifier::lang_of_name;
use crate::classifier::Language;
use crate::regex_match::regex_matches;
use crate::regex_match::regex_ok;
use crate::regex_match::CompiledPattern;
use crate::schema::cat_rules;
use crate::schema::clone_string_vec;
use crate::schema::empty_lang_model;
use crate::schema::lang_model;
use crate::schema::merge_cat_spec;
use crate::schema::merge_lang_spec;
use crate::schema::rule_model;
use crate::schema::rules_model;
use crate::schema::texts;
use crate::schema::LangModel;
use crate::schema::LanguagePatterns;
use crate::schema::PatternConfig;
use crate::schema::PatternType;
use crate::schema::RuleModel;

verus! {

// ------------------------------------------------------------------
// Models of the executable keyed structures
// ------------------------------------------------------------------

/// Model of the language-to-document map built-ins and overlay merge into.
pub open spec fn lang_map_model(m: Seq<(Language, LanguagePatterns)>) -> Seq<(Language, LangModel)> {
    m.map_values(|e: (Language, LanguagePatterns)| (e.0, lang_model(e.1)))
}

/// Model of an overlay document: language-name strings paired with rule
/// documents, in document order.
pub open spec fn customs_model(cs: Seq<(String, LanguagePatterns)>) -> Seq<(Seq<char>, LangModel)> {
    cs.map_values(|e: (String, LanguagePatterns)| (e.0@, lang_model(e.1)))
}

/// Model of the pattern-text-to-category index.
pub open spec fn tmap_model(m: Seq<(String, PatternType)>) -> Seq<(Seq<char>, PatternType)> {
    m.map_values(|e: (String, PatternType)| (e.0@, e.1))
}

/// Model of the pattern-text-to-attack-vectors index.
pub open spec fn amap_model(m: Seq<(String, Vec<String>)>) -> Seq<(Seq<char>, Seq<Seq<char>>)> {
    m.map_values(|e: (String, Vec<String>)| (e.0@, e.1.deep_view()))
}

/// The pattern texts of a list of compiled matchers, in order.
pub open spec fn ctexts(s: Seq<CompiledPattern>) -> Seq<Seq<char>> {
    s.map_values(|c: CompiledPattern| c.pattern_spec())
}

// ------------------------------------------------------------------
// Loading and merging, as mathematics
// ------------------------------------------------------------------

/// Built-in documents inserted one after the other, later entries
/// overwriting earlier ones of the same language.
pub open spec fn make_map_rec(
    acc: Seq<(Language, LangModel)>,
    entries: Seq<(Language, LangModel)>,
) -> Seq<(Language, LangModel)>
    decreases entries.len(),
{
    if entries.len() == 0 {
        acc
    } else {
        make_map_rec(assoc_set(acc, entries[0].0, entries[0].1), entries.skip(1))
    }
}

pub open spec fn make_map_spec(entries: Seq<(Language, LangModel)>) -> Seq<(Language, LangModel)> {
    make_map_rec(Seq::empty(), entries)
}

/// One overlay entry applied to the map: an unrecognized language name is
/// silently skipped; a recognized one merges into the existing entry, or
/// becomes a fresh entry verbatim when the language had none.
pub open spec fn apply_custom_entry(
    m: Seq<(Language, LangModel)>,
    name: Seq<char>,
    doc: LangModel,
) -> Seq<(Language, LangModel)> {
    match lang_of_name(name) {
        Option::None => m,
        Option::Some(l) => match lookup(m, l) {
            Option::Some(existing) => assoc_set(m, l, merge_lang_spec(existing, doc)),
            Option::None => m.push((l, doc)),
        },
    }
}

/// All overlay entries applied in document order.
pub open spec fn apply_customs(
    m: Seq<(Language, LangModel)>,
    cs: Seq<(Seq<char>, LangModel)>,
) -> Seq<(Language, LangModel)>
    decreases cs.len(),
{
    if cs.len() == 0 {
        m
    } else {
        apply_customs(apply_custom_entry(m, cs[0].0, cs[0].1), cs.skip(1))
    }
}

/// The fully loaded language map: built-ins, then the overlay if one was
/// read. An absent overlay (missing, unreadable or malformed file) leaves
/// the built-ins untouched.
pub open spec fn load_patterns_model(
    b: Seq<(Language, LangModel)>,
    o: Option<Seq<(Seq<char>, LangModel)>>,
) -> Seq<(Language, LangModel)> {
    match o {
        Option::None => make_map_spec(b),
        Option::Some(cs) => apply_customs(make_map_spec(b), cs),
    }
}

/// Model of the optional overlay argument.
pub open spec fn overlay_model(o: Option<&Vec<(String, LanguagePatterns)>>) -> Option<
    Seq<(Seq<char>, LangModel)>,
> {
    match o {
        Option::None => Option::None,
        Option::Some(v) => Option::Some(customs_model(v@)),
    }
}

/// The document a registry for `lang` is built from: the language's own
/// entry, else the `Other` entry, else no rules at all.
pub open spec fn select_model(m: Seq<(Language, LangModel)>, lang: Language) -> LangModel {
    match lookup(m, lang) {
        Option::Some(lm) => lm,
        Option::None => match lookup(m, Language::Other) {
            Option::Some(lm) => lm,
            Option::None => empty_lang_model(),
        },
    }
}

// ------------------------------------------------------------------
// Registry construction, as mathematics
// ------------------------------------------------------------------

/// The category index after recording one category's rules in order:
/// every rule's pattern text is inserted, overwriting an equal text.
pub open spec fn add_types(
    m: Seq<(Seq<char>, PatternType)>,
    rules: Seq<RuleModel>,
    t: PatternType,
) -> Seq<(Seq<char>, PatternType)>
    decreases rules.len(),
{
    if rules.len() == 0 {
        m
    } else {
        add_types(assoc_set(m, rules[0].pattern, t), rules.skip(1), t)
    }
}

/// The attack-vector index after recording one category's rules in order:
/// only a rule with a non-empty attack-vector list is inserted.
pub open spec fn add_avs(
    m: Seq<(Seq<char>, Seq<Seq<char>>)>,
    rules: Seq<RuleModel>,
) -> Seq<(Seq<char>, Seq<Seq<char>>)>
    decreases rules.len(),
{
    if rules.len() == 0 {
        m
    } else {
        add_avs(
            if rules[0].attack_vectors.len() > 0 {
                assoc_set(m, rules[0].pattern, rules[0].attack_vectors)
            } else {
                m
            },
            rules.skip(1),
        )
    }
}

/// The registry's entire observable state: three compiled-pattern text
/// lists, the category index, and the attack-vector index.
#[verifier::ext_equal]
pub struct RegistryView {
    pub principals: Seq<Seq<char>>,
    pub actions: Seq<Seq<char>>,
    pub resources: Seq<Seq<char>>,
    pub type_map: Seq<(Seq<char>, PatternType)>,
    pub av_map: Seq<(Seq<char>, Seq<Seq<char>>)>,
}

/// The registry a language document determines: categories are recorded in
/// the fixed order Principal, Action, Resource.
pub open spec fn registry_model(lm: LangModel) -> RegistryView {
    RegistryView {
        principals: texts(cat_rules(lm.principals)),
        actions: texts(cat_rules(lm.actions)),
        resources: texts(cat_rules(lm.resources)),
        type_map: add_types(
            add_types(
                add_types(Seq::empty(), cat_rules(lm.principals), PatternType::Principal),
                cat_rules(lm.actions),
                PatternType::Action,
            ),
            cat_rules(lm.resources),
            PatternType::Resource,
        ),
        av_map: add_avs(
            add_avs(add_avs(Seq::empty(), cat_rules(lm.principals)), cat_rules(lm.actions)),
            cat_rules(lm.resources),
        ),
    }
}

/// Every rule of the list has valid pattern syntax.
pub open spec fn cat_ok(rules: Seq<RuleModel>) -> bool {
    forall|i: int| 0 <= i < rules.len() ==> regex_ok((#[trigger] rules[i]).pattern)
}

/// Every rule of the document has valid pattern syntax; construction
/// succeeds exactly then.
pub open spec fn all_ok(lm: LangModel) -> bool {
    cat_ok(cat_rules(lm.principals)) && cat_ok(cat_rules(lm.actions)) && cat_ok(
        cat_rules(lm.resources),
    )
}

// ------------------------------------------------------------------
// Queries, as mathematics
// ------------------------------------------------------------------

/// Whether any of the pattern texts matches the content.
pub open spec fn any_match(patterns: Seq<Seq<char>>, c: Seq<char>) -> bool {
    exists|i: int| 0 <= i < patterns.len() && regex_matches(#[trigger] patterns[i], c)
}

/// The category of the first index entry whose pattern matches, scanning in
/// index order; a stored pattern that fails to recompile ends the scan with
/// no answer (the failure is swallowed, not surfaced).
pub open spec fn first_type_match(
    m: Seq<(Seq<char>, PatternType)>,
    c: Seq<char>,
) -> Option<PatternType>
    decreases m.len(),
{
    if m.len() == 0 {
        Option::None
    } else if !regex_ok(m[0].0) {
        Option::None
    } else if regex_matches(m[0].0, c) {
        Option::Some(m[0].1)
    } else {
        first_type_match(m.skip(1), c)
    }
}

/// The attack-vector list of the first index entry whose pattern matches,
/// scanning in index order; a stored pattern that fails to recompile is
/// skipped; no match yields the empty list.
pub open spec fn first_av_match(m: Seq<(Seq<char>, Seq<Seq<char>>)>, c: Seq<char>) -> Seq<Seq<char>>
    decreases m.len(),
{
    if m.len() == 0 {
        Seq::empty()
    } else if regex_ok(m[0].0) && regex_matches(m[0].0, c) {
        m[0].1
    } else {
        first_av_match(m.skip(1), c)
    }
}

/// Whether a list holds a rule with this pattern text and a non-empty
/// attack-vector list.
pub open spec fn has_av_rule(rules: Seq<RuleModel>, p: Seq<char>) -> bool {
    exists|i: int|
        0 <= i < rules.len() && (#[trigger] rules[i]).pattern == p && rules[i].attack_vectors.len()
            > 0
}

// ------------------------------------------------------------------
// Lemmas about the folds
// ------------------------------------------------------------------

pub proof fn lemma_make_map_rec_push(
    acc: Seq<(Language, LangModel)>,
    s: Seq<(Language, LangModel)>,
    e: (Language, LangModel),
)
    ensures
        make_map_rec(acc, s.push(e)) == assoc_set(make_map_rec(acc, s), e.0, e.1),
    decreases s.len(),
{
    reveal_with_fuel(make_map_rec, 3);
    if s.len() == 0 {
        assert(s.push(e)[0] == e);
        assert(s.push(e).skip(1) =~= Seq::<(Language, LangModel)>::empty());
    } else {
        assert(s.push(e)[0] == s[0]);
        assert(s.push(e).skip(1) =~= s.skip(1).push(e));
        lemma_make_map_rec_push(assoc_set(acc, s[0].0, s[0].1), s.skip(1), e);
    }
}

pub proof fn lemma_apply_customs_push(
    m: Seq<(Language, LangModel)>,
    cs: Seq<(Seq<char>, LangModel)>,
    e: (Seq<char>, LangModel),
)
    ensures
        apply_customs(m, cs.push(e)) == apply_custom_entry(apply_customs(m, cs), e.0, e.1),
    decreases cs.len(),
{
    reveal_with_fuel(apply_customs, 3);
    if cs.len() == 0 {
        assert(cs.push(e)[0] == e);
        assert(cs.push(e).skip(1) =~= Seq::<(Seq<char>, LangModel)>::empty());
    } else {
        assert(cs.push(e)[0] == cs[0]);
        assert(cs.push(e).skip(1) =~= cs.skip(1).push(e));
        lemma_apply_customs_push(apply_custom_entry(m, cs[0].0, cs[0].1), cs.skip(1), e);
    }
}

pub proof fn lemma_add_types_push(
    m: Seq<(Seq<char>, PatternType)>,
    s: Seq<RuleModel>,
    r: RuleModel,
    t: PatternType,
)
    ensures
        add_types(m, s.push(r), t) == assoc_set(add_types(m, s, t), r.pattern, t),
    decreases s.len(),
{
    reveal_with_fuel(add_types, 3);
    if s.len() == 0 {
        assert(s.push(r)[0] == r);
        assert(s.push(r).skip(1) =~= Seq::<RuleModel>::empty());
    } else {
        assert(s.push(r)[0] == s[0]);
        assert(s.push(r).skip(1) =~= s.skip(1).push(r));
        lemma_add_types_push(assoc_set(m, s[0].pattern, t), s.skip(1), r, t);
    }
}

pub proof fn lemma_add_avs_push(m: Seq<(Seq<char>, Seq<Seq<char>>)>, s: Seq<RuleModel>, r: RuleModel)
    ensures
        add_avs(m, s.push(r)) == (if r.attack_vectors.len() > 0 {
            assoc_set(add_avs(m, s), r.pattern, r.attack_vectors)
        } else {
            add_avs(m, s)
        }),
    decreases s.len(),
{
    reveal_with_fuel(add_avs, 3);
    if s.len() == 0 {
        assert(s.push(r)[0] == r);
        assert(s.push(r).skip(1) =~= Seq::<RuleModel>::empty());
    } else {
        assert(s.push(r)[0] == s[0]);
        assert(s.push(r).skip(1) =~= s.skip(1).push(r));
        let m2 = if s[0].attack_vectors.len() > 0 {
            assoc_set(m, s[0].pattern, s[0].attack_vectors)
        } else {
            m
        };
        lemma_add_avs_push(m2, s.skip(1), r);
    }
}

/// A pattern text is a key of the category index exactly when some recorded
/// rule carries it.
pub proof fn lemma_add_types_has_key(
    m: Seq<(Seq<char>, PatternType)>,
    rules: Seq<RuleModel>,
    t: PatternType,
    p: Seq<char>,
)
    ensures
        has_key(add_types(m, rules, t), p) <==> (has_key(m, p) || texts(rules).contains(p)),
    decreases rules.len(),
{
    if rules.len() == 0 {
        assert(!texts(rules).contains(p));
    } else {
        let m2 = assoc_set(m, rules[0].pattern, t);
        lemma_assoc_set_has_key(m, rules[0].pattern, t, p);
        lemma_add_types_has_key(m2, rules.skip(1), t, p);
        assert(texts(rules.skip(1)) =~= texts(rules).skip(1));
        assert(texts(rules)[0] == rules[0].pattern);
        if texts(rules).contains(p) {
            let i = choose|i: int| 0 <= i < texts(rules).len() && texts(rules)[i] == p;
            if i > 0 {
                assert(texts(rules).skip(1)[i - 1] == p);
                assert(texts(rules.skip(1)).contains(p));
            }
        }
        if texts(rules.skip(1)).contains(p) {
            let i = choose|i: int|
                0 <= i < texts(rules.skip(1)).len() && texts(rules.skip(1))[i] == p;
            assert(texts(rules)[i + 1] == p);
            assert(texts(rules).contains(p));
        }
        if p == rules[0].pattern {
            assert(texts(rules)[0] == p);
            assert(texts(rules).contains(p));
        }
    }
}

/// A pattern text is a key of the attack-vector index exactly when some
/// recorded rule carries it together with a non-empty attack-vector list.
pub proof fn lemma_add_avs_has_key(
    m: Seq<(Seq<char>, Seq<Seq<char>>)>,
    rules: Seq<RuleModel>,
    p: Seq<char>,
)
    ensures
        has_key(add_avs(m, rules), p) <==> (has_key(m, p) || has_av_rule(rules, p)),
    decreases rules.len(),
{
    if rules.len() == 0 {
    } else {
        let m2 = if rules[0].attack_vectors.len() > 0 {
            assoc_set(m, rules[0].pattern, rules[0].attack_vectors)
        } else {
            m
        };
        if rules[0].attack_vectors.len() > 0 {
            lemma_assoc_set_has_key(m, rules[0].pattern, rules[0].attack_vectors, p);
        }
        lemma_add_avs_has_key(m2, rules.skip(1), p);
        assert forall|i: int| 0 <= i < rules.skip(1).len() implies rules.skip(1)[i] == rules[
            i + 1
        ] by {}
        if has_av_rule(rules.skip(1), p) {
            let i = choose|i: int|
                0 <= i < rules.skip(1).len() && (#[trigger] rules.skip(1)[i]).pattern == p
                    && rules.skip(1)[i].attack_vectors.len() > 0;
            assert((rules[i + 1]).pattern == p && rules[i + 1].attack_vectors.len() > 0);
        }
        if has_av_rule(rules, p) {
            let i = choose|i: int|
                0 <= i < rules.len() && (#[trigger] rules[i]).pattern == p
                    && rules[i].attack_vectors.len() > 0;
            if i > 0 {
                assert(rules.skip(1)[i - 1] == rules[i]);
                assert(has_av_rule(rules.skip(1), p));
            }
        }
    }
}

/// Recording rules preserves "every indexed attack-vector list is
/// non-empty".
pub proof fn lemma_add_avs_nonempty(m: Seq<(Seq<char>, Seq<Seq<char>>)>, rules: Seq<RuleModel>)
    requires
        forall|i: int| 0 <= i < m.len() ==> (#[trigger] m[i]).1.len() > 0,
    ensures
        forall|i: int| 0 <= i < add_avs(m, rules).len() ==> (#[trigger] add_avs(m, rules)[i]).1.len()
            > 0,
    decreases rules.len(),
{
    reveal_with_fuel(add_avs, 2);
    if rules.len() != 0 {
        let m2 = if rules[0].attack_vectors.len() > 0 {
            assoc_set(m, rules[0].pattern, rules[0].attack_vectors)
        } else {
            m
        };
        if rules[0].attack_vectors.len() > 0 {
            lemma_first_key_index(m, rules[0].pattern);
            assert forall|i: int| 0 <= i < m2.len() implies (#[trigger] m2[i]).1.len() > 0 by {
                let fki = first_key_index(m, rules[0].pattern);
                if fki < 0 {
                    if i < m.len() {
                        assert(m2[i] == m[i]);
                    } else {
                        assert(m2[i] == (rules[0].pattern, rules[0].attack_vectors));
                    }
                } else {
                    if i != fki {
                        assert(m2[i] == m[i]);
                    } else {
                        assert(m2[i] == (rules[0].pattern, rules[0].attack_vectors));
                    }
                }
            }
        }
        lemma_add_avs_nonempty(m2, rules.skip(1));
        assert(add_avs(m, rules) == add_avs(m2, rules.skip(1)));
        assert forall|i: int| 0 <= i < add_avs(m, rules).len() implies (#[trigger] add_avs(
            m,
            rules,
        )[i]).1.len() > 0 by {
            assert(add_avs(m, rules)[i] == add_avs(m2, rules.skip(1))[i]);
        }
    }
}

// ------------------------------------------------------------------
// The registry itself
// ------------------------------------------------------------------

/// The immutable, per-session object holding compiled rules and their
/// category/attack-vector indices for one language.
pub struct SecurityRiskPatterns {
    principal_patterns: Vec<CompiledPattern>,
    action_patterns: Vec<CompiledPattern>,
    resource_patterns: Vec<CompiledPattern>,
    pattern_type_map: Vec<(String, PatternType)>,
    attack_vector_map: Vec<(String, Vec<String>)>,
}

impl View for SecurityRiskPatterns {
    type V = RegistryView;

    closed spec fn view(&self) -> RegistryView {
        RegistryView {
            principals: ctexts(self.principal_patterns@),
            actions: ctexts(self.action_patterns@),
            resources: ctexts(self.resource_patterns@),
            type_map: tmap_model(self.pattern_type_map@),
            av_map: amap_model(self.attack_vector_map@),
        }
    }
}

/// Whether the pattern text stands in one of the three compiled lists.
pub open spec fn in_lists(v: RegistryView, p: Seq<char>) -> bool {
    v.principals.contains(p) || v.actions.contains(p) || v.resources.contains(p)
}

// ------------------------------------------------------------------
// Executable helpers on the keyed structures
// ------------------------------------------------------------------

/// First entry of the language map carrying `lang`, if any.
fn find_lang(m: &Vec<(Language, LanguagePatterns)>, lang: Language) -> (r: Option<usize>)
    ensures
        ({
            let fki = first_key_index(lang_map_model(m@), lang);
            match r {
                Option::Some(i) => 0 <= i < m@.len() && fki == i,
                Option::None => fki == -1,
            }
        }),
{
    let mut i: usize = 0;
    while i < m.len()
        invariant
            0 <= i <= m@.len(),
            forall|j: int| 0 <= j < i ==> (#[trigger] lang_map_model(m@)[j]).0 != lang,
        decreases m@.len() - i,
    {
        if m[i].0 == lang {
            proof {
                assert(lang_map_model(m@)[i as int].0 == lang);
                lemma_first_key_index_unique(lang_map_model(m@), lang, i as int);
            }
            return Option::Some(i);
        }
        proof {
            assert(lang_map_model(m@)[i as int].0 != lang);
        }
        i += 1;
    }
    proof {
        lemma_first_key_index(lang_map_model(m@), lang);
    }
    Option::None
}

/// Insert with overwrite into the language map.
fn lang_map_set(m: &mut Vec<(Language, LanguagePatterns)>, lang: Language, lp: LanguagePatterns)
    ensures
        lang_map_model(final(m)@) == assoc_set(lang_map_model(old(m)@), lang, lang_model(lp)),
{
    let ghost m0 = lang_map_model(m@);
    match find_lang(m, lang) {
        Option::Some(i) => {
            let _ = m.remove(i);
            m.insert(i, (lang, lp));
            proof {
                assert(m@ =~= old(m)@.update(i as int, (lang, lp)));
                assert(lang_map_model(m@) =~= m0.update(i as int, (lang, lang_model(lp))));
            }
        },
        Option::None => {
            m.push((lang, lp));
            proof {
                assert(lang_map_model(m@) =~= m0.push((lang, lang_model(lp))));
            }
        },
    }
}

/// The built-in map: entries inserted in order, later entries of a language
/// overwriting earlier ones.
fn make_map(builtins: &Vec<(Language, LanguagePatterns)>) -> (m: Vec<(Language, LanguagePatterns)>)
    ensures
        lang_map_model(m@) == make_map_spec(lang_map_model(builtins@)),
{
    let mut m: Vec<(Language, LanguagePatterns)> = Vec::new();
    proof {
        assert(lang_map_model(m@) =~= Seq::<(Language, LangModel)>::empty());
        assert(lang_map_model(builtins@).take(0) =~= Seq::<(Language, LangModel)>::empty());
    }
    let mut i: usize = 0;
    while i < builtins.len()
        invariant
            0 <= i <= builtins@.len(),
            lang_map_model(m@) == make_map_rec(
                Seq::empty(),
                lang_map_model(builtins@).take(i as int),
            ),
        decreases builtins@.len() - i,
    {
        let lang = builtins[i].0;
        let doc = builtins[i].1.clone();
        proof {
            let bm = lang_map_model(builtins@);
            assert(bm[i as int] == (builtins@[i as int].0, lang_model(builtins@[i as int].1)));
            assert(bm.take(i + 1) =~= bm.take(i as int).push(bm[i as int]));
            lemma_make_map_rec_push(Seq::empty(), bm.take(i as int), bm[i as int]);
        }
        lang_map_set(&mut m, lang, doc);
        i += 1;
    }
    proof {
        assert(lang_map_model(builtins@).take(builtins@.len() as int) =~= lang_map_model(
            builtins@,
        ));
    }
    m
}

/// Merge one optional category list: custom rules appended after the
/// existing ones.
fn merge_cat(existing: Option<Vec<PatternConfig>>, custom: &Option<Vec<PatternConfig>>) -> (r:
    Option<Vec<PatternConfig>>)
    ensures
        crate::schema::cat_model(r) == merge_cat_spec(
            crate::schema::cat_model(existing),
            crate::schema::cat_model(*custom),
        ),
{
    match custom {
        Option::None => existing,
        Option::Some(cl) => {
            let mut base: Vec<PatternConfig> = match existing {
                Option::Some(el) => el,
                Option::None => Vec::new(),
            };
            let ghost base0 = rules_model(base@);
            let mut j: usize = 0;
            proof {
                assert(base0 + rules_model(cl@).take(0) =~= base0);
            }
            while j < cl.len()
                invariant
                    0 <= j <= cl@.len(),
                    rules_model(base@) == base0 + rules_model(cl@).take(j as int),
                decreases cl@.len() - j,
            {
                proof {
                    assert(rules_model(base@).len() == base@.len());
                }
                let ghost basepre = base@;
                let c = cl[j].clone();
                base.push(c);
                proof {
                    let target = base0 + rules_model(cl@).take(j + 1);
                    assert(base@ == basepre.push(c));
                    assert(rules_model(basepre) == base0 + rules_model(cl@).take(j as int));
                    assert(basepre.len() == base0.len() + j);
                    let n = base@.len() as int;
                    assert(n == basepre.len() + 1);
                    assert(rules_model(base@).len() == n);
                    assert(target.len() == n);
                    assert forall|l: int| 0 <= l < n implies rules_model(base@)[l] == target[l] by {
                        assert(rules_model(base@)[l] == rule_model(base@[l]));
                        if l < n - 1 {
                            assert(base@[l] == basepre[l]);
                            assert(rule_model(basepre[l]) == rules_model(basepre)[l]);
                            if l < base0.len() {
                                assert(rules_model(basepre)[l] == base0[l]);
                                assert(target[l] == base0[l]);
                            } else {
                                assert(rules_model(basepre)[l] == rules_model(cl@).take(
                                    j as int,
                                )[l - base0.len()]);
                                assert(rules_model(cl@).take(j as int)[l - base0.len()]
                                    == rules_model(cl@)[l - base0.len()]);
                                assert(target[l] == rules_model(cl@).take(j + 1)[l - base0.len()]);
                                assert(rules_model(cl@).take(j + 1)[l - base0.len()]
                                    == rules_model(cl@)[l - base0.len()]);
                            }
                        } else {
                            assert(base@[l] == c);
                            assert(rule_model(c) == rule_model(cl@[j as int]));
                            assert(target[l] == rules_model(cl@).take(j + 1)[j as int]);
                            assert(rules_model(cl@).take(j + 1)[j as int] == rules_model(
                                cl@,
                            )[j as int]);
                            assert(rules_model(cl@)[j as int] == rule_model(cl@[j as int]));
                        }
                    }
                    assert(rules_model(base@) =~= target);
                }
                j += 1;
            }
            proof {
                assert(rules_model(cl@).take(cl@.len() as int) =~= rules_model(cl@));
                if existing is None {
                    assert(rules_model(base@) =~= rules_model(cl@));
                }
            }
            Option::Some(base)
        },
    }
}

/// Merge a custom document into an existing one, category by category.
fn merge_language_patterns(existing: LanguagePatterns, custom: &LanguagePatterns) -> (r:
    LanguagePatterns)
    ensures
        lang_model(r) == merge_lang_spec(lang_model(existing), lang_model(*custom)),
{
    let principals = merge_cat(existing.principals, &custom.principals);
    let actions = merge_cat(existing.actions, &custom.actions);
    let resources = merge_cat(existing.resources, &custom.resources);
    LanguagePatterns { principals, actions, resources }
}

/// Apply every overlay entry to the map, in document order.
fn merge_customs(m: &mut Vec<(Language, LanguagePatterns)>, customs: &Vec<(String, LanguagePatterns)>)
    ensures
        lang_map_model(final(m)@) == apply_customs(lang_map_model(old(m)@), customs_model(customs@)),
{
    proof {
        assert(customs_model(customs@).take(0) =~= Seq::<(Seq<char>, LangModel)>::empty());
    }
    let mut k: usize = 0;
    while k < customs.len()
        invariant
            0 <= k <= customs@.len(),
            lang_map_model(m@) == apply_customs(
                lang_map_model(old(m)@),
                customs_model(customs@).take(k as int),
            ),
        decreases customs@.len() - k,
    {
        let ghost pre = lang_map_model(m@);
        let ghost pre_vec = m@;
        let ghost cm = customs_model(customs@);
        proof {
            assert(cm[k as int] == (customs@[k as int].0@, lang_model(customs@[k as int].1)));
        }
        match Language::from_name(customs[k].0.as_str()) {
            Option::None => {
                proof {
                    assert(apply_custom_entry(pre, cm[k as int].0, cm[k as int].1) == pre);
                }
            },
            Option::Some(lang) => {
                match find_lang(m, lang) {
                    Option::Some(i) => {
                        let entry = m.remove(i);
                        let merged = merge_language_patterns(entry.1, &customs[k].1);
                        m.insert(i, (lang, merged));
                        proof {
                            assert(lang_model(entry.1) == pre[i as int].1);
                            assert(lookup(pre, lang) == Option::Some(pre[i as int].1));
                            assert(m@ =~= pre_vec.update(i as int, (lang, merged)));
                            assert(lang_map_model(m@) =~= pre.update(
                                i as int,
                                (lang, lang_model(merged)),
                            ));
                            assert(lang_map_model(m@) == apply_custom_entry(
                                pre,
                                cm[k as int].0,
                                cm[k as int].1,
                            ));
                        }
                    },
                    Option::None => {
                        let doc = customs[k].1.clone();
                        m.push((lang, doc));
                        proof {
                            assert(lookup(pre, lang) is None);
                            assert(lang_map_model(m@) =~= pre.push(
                                (lang, lang_model(customs@[k as int].1)),
                            ));
                            assert(lang_map_model(m@) == apply_custom_entry(
                                pre,
                                cm[k as int].0,
                                cm[k as int].1,
                            ));
                        }
                    },
                }
            },
        }
        proof {
            assert(cm.take(k + 1) =~= cm.take(k as int).push(cm[k as int]));
            lemma_apply_customs_push(lang_map_model(old(m)@), cm.take(k as int), cm[k as int]);
        }
        k += 1;
    }
    proof {
        assert(customs_model(customs@).take(customs@.len() as int) =~= customs_model(customs@));
    }
}


/// Insert with overwrite into the category index.
fn tmap_set(m: &mut Vec<(String, PatternType)>, key: String, val: PatternType)
    ensures
        tmap_model(final(m)@) == assoc_set(tmap_model(old(m)@), key@, val),
{
    let ghost m0 = tmap_model(m@);
    let n = m.len();
    let mut i: usize = 0;
    while i < n
        invariant
            0 <= i <= n,
            n == m@.len(),
            m@ == old(m)@,
            forall|j: int| 0 <= j < i ==> (#[trigger] tmap_model(m@)[j]).0 != key@,
        decreases n - i,
    {
        if m[i].0 == key {
            proof {
                assert(tmap_model(m@)[i as int].0 == key@);
                lemma_first_key_index_unique(tmap_model(m@), key@, i as int);
            }
            let _ = m.remove(i);
            m.insert(i, (key, val));
            proof {
                let mpre = tmap_model(old(m)@);
                assert(mpre.len() == old(m)@.len());
                assert(m@ =~= old(m)@.update(i as int, (key, val)));
                assert(tmap_model(m@) =~= mpre.update(i as int, (key@, val)));
            }
            return ;
        }
        proof {
            assert(tmap_model(m@)[i as int].0 != key@);
        }
        i += 1;
    }
    proof {
        lemma_first_key_index(tmap_model(m@), key@);
    }
    m.push((key, val));
    proof {
        assert(tmap_model(m@) =~= m0.push((key@, val)));
    }
}

/// Insert with overwrite into the attack-vector index.
fn amap_set(m: &mut Vec<(String, Vec<String>)>, key: String, val: Vec<String>)
    ensures
        amap_model(final(m)@) == assoc_set(amap_model(old(m)@), key@, val.deep_view()),
{
    let ghost m0 = amap_model(m@);
    let n = m.len();
    let mut i: usize = 0;
    while i < n
        invariant
            0 <= i <= n,
            n == m@.len(),
            m@ == old(m)@,
            forall|j: int| 0 <= j < i ==> (#[trigger] amap_model(m@)[j]).0 != key@,
        decreases n - i,
    {
        if m[i].0 == key {
            proof {
                assert(amap_model(m@)[i as int].0 == key@);
                lemma_first_key_index_unique(amap_model(m@), key@, i as int);
            }
            let _ = m.remove(i);
            m.insert(i, (key, val));
            proof {
                let mpre = amap_model(old(m)@);
                assert(mpre.len() == old(m)@.len());
                assert(m@ =~= old(m)@.update(i as int, (key, val)));
                assert(amap_model(m@) =~= mpre.update(i as int, (key@, val.deep_view())));
            }
            return ;
        }
        proof {
            assert(amap_model(m@)[i as int].0 != key@);
        }
        i += 1;
    }
    proof {
        lemma_first_key_index(amap_model(m@), key@);
    }
    m.push((key, val));
    proof {
        assert(amap_model(m@) =~= m0.push((key@, val.deep_view())));
    }
}

/// Compile one category's rules in order, recording each rule in the
/// category index and - when its attack-vector list is non-empty - in the
/// attack-vector index. Stops at the first invalid pattern.
fn add_category(
    rules: &Vec<PatternConfig>,
    t: PatternType,
    compiled: &mut Vec<CompiledPattern>,
    type_map: &mut Vec<(String, PatternType)>,
    av_map: &mut Vec<(String, Vec<String>)>,
) -> (ok: bool)
    ensures
        ok == cat_ok(rules_model(rules@)),
        ok ==> ctexts(final(compiled)@) == ctexts(old(compiled)@) + texts(rules_model(rules@)),
        ok ==> tmap_model(final(type_map)@) == add_types(
            tmap_model(old(type_map)@),
            rules_model(rules@),
            t,
        ),
        ok ==> amap_model(final(av_map)@) == add_avs(
            amap_model(old(av_map)@),
            rules_model(rules@),
        ),
{
    let ghost rm = rules_model(rules@);
    proof {
        assert(rm.take(0) =~= Seq::<RuleModel>::empty());
        assert(ctexts(compiled@) + texts(rm.take(0)) =~= ctexts(compiled@));
    }
    let mut i: usize = 0;
    while i < rules.len()
        invariant
            0 <= i <= rules@.len(),
            rm == rules_model(rules@),
            forall|j: int| 0 <= j < i ==> regex_ok((#[trigger] rm[j]).pattern),
            ctexts(compiled@) == ctexts(old(compiled)@) + texts(rm.take(i as int)),
            tmap_model(type_map@) == add_types(tmap_model(old(type_map)@), rm.take(i as int), t),
            amap_model(av_map@) == add_avs(amap_model(old(av_map)@), rm.take(i as int)),
        decreases rules@.len() - i,
    {
        proof {
            assert(rm[i as int] == rule_model(rules@[i as int]));
        }
        match CompiledPattern::compile(rules[i].pattern.as_str()) {
            Option::None => {
                proof {
                    assert(!regex_ok(rm[i as int].pattern));
                    assert(!cat_ok(rm));
                }
                return false;
            },
            Option::Some(c) => {
                let ghost cpre = ctexts(compiled@);
                compiled.push(c);
                let key = rules[i].pattern.clone();
                tmap_set(type_map, key, t);
                if rules[i].attack_vector.len() > 0 {
                    let avkey = rules[i].pattern.clone();
                    let avval = clone_string_vec(&rules[i].attack_vector);
                    proof {
                        assert(avval.deep_view() == rm[i as int].attack_vectors);
                    }
                    amap_set(av_map, avkey, avval);
                }
                proof {
                    assert(rm.take(i + 1) =~= rm.take(i as int).push(rm[i as int]));
                    lemma_add_types_push(tmap_model(old(type_map)@), rm.take(i as int), rm[i as int], t);
                    lemma_add_avs_push(amap_model(old(av_map)@), rm.take(i as int), rm[i as int]);
                    assert(c.pattern_spec() == rm[i as int].pattern);
                    assert(ctexts(compiled@) =~= cpre.push(rm[i as int].pattern));
                    assert(texts(rm.take(i + 1)) =~= texts(rm.take(i as int)).push(
                        rm[i as int].pattern,
                    ));
                    assert(ctexts(compiled@) =~= ctexts(old(compiled)@) + texts(rm.take(i + 1)));
                }
            },
        }
        i += 1;
    }
    proof {
        assert(rm.take(rules@.len() as int) =~= rm);
    }
    true
}


/// The wf-shaped facts that hold of every registry a document determines.
proof fn lemma_registry_wf(lm: LangModel)
    requires
        all_ok(lm),
    ensures
        forall|i: int| 0 <= i < registry_model(lm).type_map.len() ==> regex_ok(
            (#[trigger] registry_model(lm).type_map[i]).0,
        ),
        forall|i: int| 0 <= i < registry_model(lm).av_map.len() ==> regex_ok(
            (#[trigger] registry_model(lm).av_map[i]).0,
        ),
        forall|i: int| 0 <= i < registry_model(lm).av_map.len() ==> (#[trigger] registry_model(
            lm,
        ).av_map[i]).1.len() > 0,
        forall|i: int| 0 <= i < registry_model(lm).type_map.len() ==> in_lists(
            registry_model(lm),
            (#[trigger] registry_model(lm).type_map[i]).0,
        ),
        forall|p: Seq<char>| #[trigger] in_lists(registry_model(lm), p) ==> has_key(
            registry_model(lm).type_map,
            p,
        ),
{
    let v = registry_model(lm);
    let pr = cat_rules(lm.principals);
    let ac = cat_rules(lm.actions);
    let re = cat_rules(lm.resources);
    let t0 = Seq::<(Seq<char>, PatternType)>::empty();
    let t1 = add_types(t0, pr, PatternType::Principal);
    let t2 = add_types(t1, ac, PatternType::Action);
    let t3 = add_types(t2, re, PatternType::Resource);
    let a0 = Seq::<(Seq<char>, Seq<Seq<char>>)>::empty();
    let a1 = add_avs(a0, pr);
    let a2 = add_avs(a1, ac);
    let a3 = add_avs(a2, re);
    assert(v.type_map == t3);
    assert(v.av_map == a3);
    assert forall|p: Seq<char>|
        #![trigger has_key(t3, p)]
        #![trigger in_lists(v, p)]
        has_key(t3, p) <==> (texts(pr).contains(p) || texts(ac).contains(p) || texts(
            re,
        ).contains(p)) by {
        lemma_add_types_has_key(t2, re, PatternType::Resource, p);
        lemma_add_types_has_key(t1, ac, PatternType::Action, p);
        lemma_add_types_has_key(t0, pr, PatternType::Principal, p);
        assert(!has_key(t0, p));
    }
    assert forall|p: Seq<char>| #[trigger] has_key(a3, p) implies (has_av_rule(pr, p)
        || has_av_rule(ac, p) || has_av_rule(re, p)) by {
        lemma_add_avs_has_key(a2, re, p);
        lemma_add_avs_has_key(a1, ac, p);
        lemma_add_avs_has_key(a0, pr, p);
        assert(!has_key(a0, p));
    }
    assert forall|i: int| 0 <= i < t3.len() implies regex_ok((#[trigger] t3[i]).0) && in_lists(
        v,
        t3[i].0,
    ) by {
        let p = t3[i].0;
        assert(has_key(t3, p));
        if texts(pr).contains(p) {
            let j = choose|j: int| 0 <= j < texts(pr).len() && texts(pr)[j] == p;
            assert(regex_ok(pr[j].pattern));
            assert(v.principals.contains(p));
        } else if texts(ac).contains(p) {
            let j = choose|j: int| 0 <= j < texts(ac).len() && texts(ac)[j] == p;
            assert(regex_ok(ac[j].pattern));
            assert(v.actions.contains(p));
        } else {
            assert(texts(re).contains(p));
            let j = choose|j: int| 0 <= j < texts(re).len() && texts(re)[j] == p;
            assert(regex_ok(re[j].pattern));
            assert(v.resources.contains(p));
        }
    }
    assert forall|i: int| 0 <= i < a3.len() implies regex_ok((#[trigger] a3[i]).0) by {
        let p = a3[i].0;
        assert(has_key(a3, p));
        if has_av_rule(pr, p) {
            let j = choose|j: int|
                0 <= j < pr.len() && (#[trigger] pr[j]).pattern == p && pr[j].attack_vectors.len()
                    > 0;
            assert(regex_ok(pr[j].pattern));
        } else if has_av_rule(ac, p) {
            let j = choose|j: int|
                0 <= j < ac.len() && (#[trigger] ac[j]).pattern == p && ac[j].attack_vectors.len()
                    > 0;
            assert(regex_ok(ac[j].pattern));
        } else {
            let j = choose|j: int|
                0 <= j < re.len() && (#[trigger] re[j]).pattern == p && re[j].attack_vectors.len()
                    > 0;
            assert(regex_ok(re[j].pattern));
        }
    }
    lemma_add_avs_nonempty(a0, pr);
    lemma_add_avs_nonempty(a1, ac);
    lemma_add_avs_nonempty(a2, re);
    assert forall|p: Seq<char>| #[trigger] in_lists(v, p) implies has_key(t3, p) by {
        if v.principals.contains(p) {
            assert(texts(pr).contains(p));
        } else if v.actions.contains(p) {
            assert(texts(ac).contains(p));
        } else {
            assert(texts(re).contains(p));
        }
    }
}

impl SecurityRiskPatterns {
    /// Well-formedness: every indexed pattern text compiles, every indexed
    /// text stands in a compiled list and conversely, and every indexed
    /// attack-vector list is non-empty. Construction establishes this.
    pub open spec fn wf(self) -> bool {
        &&& (forall|i: int| 0 <= i < self@.type_map.len() ==> regex_ok(
            (#[trigger] self@.type_map[i]).0,
        ))
        &&& (forall|i: int| 0 <= i < self@.av_map.len() ==> regex_ok(
            (#[trigger] self@.av_map[i]).0,
        ))
        &&& (forall|i: int| 0 <= i < self@.av_map.len() ==> (#[trigger] self@.av_map[i]).1.len()
            > 0)
        &&& (forall|i: int| 0 <= i < self@.type_map.len() ==> in_lists(
            self@,
            (#[trigger] self@.type_map[i]).0,
        ))
        &&& (forall|p: Seq<char>| #[trigger] in_lists(self@, p) ==> has_key(self@.type_map, p))
    }

    /// Whether any compiled rule, in any category, matches the content.
    pub open spec fn matches_spec(self, c: Seq<char>) -> bool {
        any_match(self@.principals, c) || any_match(self@.actions, c) || any_match(
            self@.resources,
            c,
        )
    }

    /// Load the language map: built-in documents inserted in order, then
    /// the overlay entries applied in document order. An absent overlay
    /// (missing, unreadable or malformed file) leaves the built-ins
    /// untouched, and never partially merges.
    pub fn load_patterns(
        builtins: &Vec<(Language, LanguagePatterns)>,
        overlay: Option<&Vec<(String, LanguagePatterns)>>,
    ) -> (m: Vec<(Language, LanguagePatterns)>)
        ensures
            lang_map_model(m@) == load_patterns_model(
                lang_map_model(builtins@),
                overlay_model(overlay),
            ),
    {
        let mut m = make_map(builtins);
        match overlay {
            Option::None => m,
            Option::Some(customs) => {
                merge_customs(&mut m, customs);
                m
            },
        }
    }

    /// The document the registry is built from: the chosen language's
    /// entry, else the `Other` entry, else a document with no rules.
    fn select_patterns(map: Vec<(Language, LanguagePatterns)>, language: Language) -> (r:
        LanguagePatterns)
        ensures
            lang_model(r) == select_model(lang_map_model(map@), language),
    {
        match find_lang(&map, language) {
            Option::Some(i) => {
                let mut mm = map;
                let entry = mm.remove(i);
                entry.1
            },
            Option::None => {
                match find_lang(&map, Language::Other) {
                    Option::Some(i) => {
                        let mut mm = map;
                        let entry = mm.remove(i);
                        entry.1
                    },
                    Option::None => LanguagePatterns {
                        principals: Option::None,
                        actions: Option::None,
                        resources: Option::None,
                    },
                }
            },
        }
    }

    /// Compile a document into a registry. Fails - the whole build aborts -
    /// exactly when some rule's pattern text is invalid regular-expression
    /// syntax.
    fn build(lp: &LanguagePatterns) -> (r: Option<SecurityRiskPatterns>)
        ensures
            r is Some <==> all_ok(lang_model(*lp)),
            r matches Option::Some(reg) ==> reg@ == registry_model(lang_model(*lp)) && reg.wf(),
    {
        let ghost lm = lang_model(*lp);
        let mut principal_patterns: Vec<CompiledPattern> = Vec::new();
        let mut action_patterns: Vec<CompiledPattern> = Vec::new();
        let mut resource_patterns: Vec<CompiledPattern> = Vec::new();
        let mut pattern_type_map: Vec<(String, PatternType)> = Vec::new();
        let mut attack_vector_map: Vec<(String, Vec<String>)> = Vec::new();
        proof {
            assert(ctexts(principal_patterns@) =~= Seq::<Seq<char>>::empty());
            assert(ctexts(action_patterns@) =~= Seq::<Seq<char>>::empty());
            assert(ctexts(resource_patterns@) =~= Seq::<Seq<char>>::empty());
            assert(tmap_model(pattern_type_map@) =~= Seq::<(Seq<char>, PatternType)>::empty());
            assert(amap_model(attack_vector_map@) =~= Seq::<(Seq<char>, Seq<Seq<char>>)>::empty());
            assert(cat_ok(Seq::<RuleModel>::empty()));
            assert(texts(Seq::<RuleModel>::empty()) =~= Seq::<Seq<char>>::empty());
        }
        let ok_p = match &lp.principals {
            Option::Some(v) => add_category(
                v,
                PatternType::Principal,
                &mut principal_patterns,
                &mut pattern_type_map,
                &mut attack_vector_map,
            ),
            Option::None => true,
        };
        if !ok_p {
            proof {
                assert(!all_ok(lm));
            }
            return Option::None;
        }
        proof {
            assert(cat_ok(cat_rules(lm.principals)));
            assert(ctexts(principal_patterns@) =~= texts(cat_rules(lm.principals)));
        }
        let ok_a = match &lp.actions {
            Option::Some(v) => add_category(
                v,
                PatternType::Action,
                &mut action_patterns,
                &mut pattern_type_map,
                &mut attack_vector_map,
            ),
            Option::None => true,
        };
        if !ok_a {
            proof {
                assert(!all_ok(lm));
            }
            return Option::None;
        }
        proof {
            assert(cat_ok(cat_rules(lm.actions)));
            assert(ctexts(action_patterns@) =~= texts(cat_rules(lm.actions)));
        }
        let ok_r = match &lp.resources {
            Option::Some(v) => add_category(
                v,
                PatternType::Resource,
                &mut resource_patterns,
                &mut pattern_type_map,
                &mut attack_vector_map,
            ),
            Option::None => true,
        };
        if !ok_r {
            proof {
                assert(!all_ok(lm));
            }
            return Option::None;
        }
        proof {
            assert(cat_ok(cat_rules(lm.resources)));
            assert(ctexts(resource_patterns@) =~= texts(cat_rules(lm.resources)));
        }
        let reg = SecurityRiskPatterns {
            principal_patterns,
            action_patterns,
            resource_patterns,
            pattern_type_map,
            attack_vector_map,
        };
        proof {
            assert(reg@ =~= registry_model(lm));
            lemma_registry_wf(lm);
            assert(reg.wf());
        }
        Option::Some(reg)
    }

    /// Build a registry for a language from the built-in documents alone.
    /// Succeeds exactly when every rule of the selected document compiles.
    pub fn new(language: Language, builtins: &Vec<(Language, LanguagePatterns)>) -> (r: Option<
        SecurityRiskPatterns,
    >)
        ensures
            ({
                let lm = select_model(
                    load_patterns_model(lang_map_model(builtins@), Option::None),
                    language,
                );
                &&& (r is Some <==> all_ok(lm))
                &&& (r matches Option::Some(reg) ==> reg@ == registry_model(lm) && reg.wf())
            }),
    {
        Self::new_with_root(language, builtins, Option::None)
    }

    /// Build a registry for a language from the built-in documents plus an
    /// optional overlay (already read and parsed; an absent overlay stands
    /// for a missing, unreadable or malformed overlay file). Succeeds
    /// exactly when every rule of the selected document compiles.
    pub fn new_with_root(
        language: Language,
        builtins: &Vec<(Language, LanguagePatterns)>,
        overlay: Option<&Vec<(String, LanguagePatterns)>>,
    ) -> (r: Option<SecurityRiskPatterns>)
        ensures
            ({
                let lm = select_model(
                    load_patterns_model(lang_map_model(builtins@), overlay_model(overlay)),
                    language,
                );
                &&& (r is Some <==> all_ok(lm))
                &&& (r matches Option::Some(reg) ==> reg@ == registry_model(lm) && reg.wf())
            }),
    {
        let map = Self::load_patterns(builtins, overlay);
        let selected = Self::select_patterns(map, language);
        Self::build(&selected)
    }

    /// True iff at least one compiled rule, in any of the three category
    /// lists, matches the content. Total; never mutates state.
    pub fn matches(&self, content: &str) -> (r: bool)
        ensures
            r == self.matches_spec(content@),
    {
        any_is_match(&self.principal_patterns, content) || any_is_match(
            &self.action_patterns,
            content,
        ) || any_is_match(&self.resource_patterns, content)
    }

    /// The category of the first index entry whose stored pattern text,
    /// recompiled, matches the content, in index order; none if nothing
    /// matches or a stored pattern fails to recompile (the failure is
    /// swallowed, not surfaced). Total; never mutates state.
    pub fn get_pattern_type(&self, content: &str) -> (r: Option<PatternType>)
        ensures
            r == first_type_match(self@.type_map, content@),
    {
        let ghost tm = self@.type_map;
        proof {
            assert(tm.skip(0) =~= tm);
        }
        let mut i: usize = 0;
        let n = self.pattern_type_map.len();
        while i < n
            invariant
                0 <= i <= n,
                n == self.pattern_type_map@.len(),
                tm == self@.type_map,
                first_type_match(tm, content@) == first_type_match(tm.skip(i as int), content@),
            decreases n - i,
        {
            proof {
                assert(tm.skip(i as int).len() == n - i);
                assert(tm.skip(i as int)[0] == tm[i as int]);
                assert(tm[i as int] == (self.pattern_type_map@[i as int].0@,
                self.pattern_type_map@[i as int].1));
            }
            match CompiledPattern::compile(self.pattern_type_map[i].0.as_str()) {
                Option::None => {
                    proof {
                        assert(!regex_ok(tm[i as int].0));
                    }
                    return Option::None;
                },
                Option::Some(c) => {
                    if c.is_match(content) {
                        proof {
                            assert(regex_matches(tm[i as int].0, content@));
                        }
                        return Option::Some(self.pattern_type_map[i].1);
                    }
                    proof {
                        assert(!regex_matches(tm[i as int].0, content@));
                        assert(tm.skip(i as int).skip(1) =~= tm.skip(i + 1));
                    }
                },
            }
            i += 1;
        }
        proof {
            assert(tm.skip(n as int) =~= Seq::<(Seq<char>, PatternType)>::empty());
        }
        Option::None
    }

    /// The attack-vector list of the first index entry whose stored pattern
    /// text, recompiled, matches the content, in index order; a stored
    /// pattern that fails to recompile is skipped; the empty list if no
    /// rule matches. Total; never mutates state.
    pub fn get_attack_vectors(&self, content: &str) -> (r: Vec<String>)
        ensures
            r.deep_view() == first_av_match(self@.av_map, content@),
    {
        let ghost am = self@.av_map;
        proof {
            assert(am.skip(0) =~= am);
        }
        let mut i: usize = 0;
        let n = self.attack_vector_map.len();
        while i < n
            invariant
                0 <= i <= n,
                n == self.attack_vector_map@.len(),
                am == self@.av_map,
                first_av_match(am, content@) == first_av_match(am.skip(i as int), content@),
            decreases n - i,
        {
            proof {
                assert(am.skip(i as int).len() == n - i);
                assert(am.skip(i as int)[0] == am[i as int]);
                assert(am[i as int] == (self.attack_vector_map@[i as int].0@,
                self.attack_vector_map@[i as int].1.deep_view()));
                assert(am.skip(i as int).skip(1) =~= am.skip(i + 1));
            }
            match CompiledPattern::compile(self.attack_vector_map[i].0.as_str()) {
                Option::None => {
                    proof {
                        assert(!regex_ok(am[i as int].0));
                    }
                },
                Option::Some(c) => {
                    if c.is_match(content) {
                        proof {
                            assert(regex_matches(am[i as int].0, content@));
                        }
                        let r = clone_string_vec(&self.attack_vector_map[i].1);
                        return r;
                    }
                    proof {
                        assert(!regex_matches(am[i as int].0, content@));
                    }
                },
            }
            i += 1;
        }
        proof {
            assert(am.skip(n as int) =~= Seq::<(Seq<char>, Seq<Seq<char>>)>::empty());
        }
        let r: Vec<String> = Vec::new();
        proof {
            assert(r.deep_view() =~= Seq::<Seq<char>>::empty());
        }
        r
    }
}

/// Whether any matcher of the list matches the content.
fn any_is_match(patterns: &Vec<CompiledPattern>, content: &str) -> (r: bool)
    ensures
        r == any_match(ctexts(patterns@), content@),
{
    let mut i: usize = 0;
    while i < patterns.len()
        invariant
            0 <= i <= patterns@.len(),
            forall|j: int| 0 <= j < i ==> !regex_matches(#[trigger] ctexts(patterns@)[j], content@),
        decreases patterns@.len() - i,
    {
        if patterns[i].is_match(content) {
            proof {
                assert(regex_matches(ctexts(patterns@)[i as int], content@));
            }
            return true;
        }
        proof {
            assert(!regex_matches(ctexts(patterns@)[i as int], content@));
        }
        i += 1;
    }
    false
}

} // verus!
