//! The structured shape of a rule and the per-language grouping of rules,
//! together with their mathematical models.

use vstd::prelude::*;

verus! {

/// Taxonomy category of a rule. Every rule belongs to exactly one category.
#[derive(Debug, Clone, Copy, PartialEq, Eq, Structural)]
pub enum PatternType {
    /// Who: a source of authority or input.
    Principal,
    /// What: an operation, permission, or API call.
    Action,
    /// Where: a target or sink.
    Resource,
}

/// One rule: pattern text, human description, and an ordered list of
/// attack-vector labels (possibly empty).
#[derive(Debug)]
pub struct PatternConfig {
    pub pattern: String,
    pub description: String,
    pub attack_vector: Vec<String>,
}

/// Per language, three independently-optional lists of rules, one per
/// taxonomy category.
#[derive(Debug)]
pub struct LanguagePatterns {
    pub principals: Option<Vec<PatternConfig>>,
    pub actions: Option<Vec<PatternConfig>>,
    pub resources: Option<Vec<PatternConfig>>,
}

/// Model of one rule: its three fields as mathematical values.
#[verifier::ext_equal]
pub struct RuleModel {
    pub pattern: Seq<char>,
    pub description: Seq<char>,
    pub attack_vectors: Seq<Seq<char>>,
}

/// Model of a per-language rule document.
#[verifier::ext_equal]
pub struct LangModel {
    pub principals: Option<Seq<RuleModel>>,
    pub actions: Option<Seq<RuleModel>>,
    pub resources: Option<Seq<RuleModel>>,
}

pub open spec fn rule_model(c: PatternConfig) -> RuleModel {
    RuleModel {
        pattern: c.pattern@,
        description: c.description@,
        attack_vectors: c.attack_vector.deep_view(),
    }
}

pub open spec fn rules_model(v: Seq<PatternConfig>) -> Seq<RuleModel> {
    v.map_values(|c: PatternConfig| rule_model(c))
}

pub open spec fn cat_model(o: Option<Vec<PatternConfig>>) -> Option<Seq<RuleModel>> {
    match o {
        Option::None => Option::None,
        Option::Some(v) => Option::Some(rules_model(v@)),
    }
}

pub open spec fn lang_model(lp: LanguagePatterns) -> LangModel {
    LangModel {
        principals: cat_model(lp.principals),
        actions: cat_model(lp.actions),
        resources: cat_model(lp.resources),
    }
}

/// The rules of one optional category list: absent means none.
pub open spec fn cat_rules(o: Option<Seq<RuleModel>>) -> Seq<RuleModel> {
    match o {
        Option::None => Seq::empty(),
        Option::Some(s) => s,
    }
}

/// The pattern texts of a list of rules, in order.
pub open spec fn texts(rules: Seq<RuleModel>) -> Seq<Seq<char>> {
    rules.map_values(|r: RuleModel| r.pattern)
}

/// A language document with no rules at all.
pub open spec fn empty_lang_model() -> LangModel {
    LangModel { principals: Option::None, actions: Option::None, resources: Option::None }
}

/// Merge of one optional category list: the custom list is appended to the
/// existing one (built-ins first, custom rules after — order preserved,
/// nothing replaced or deduplicated); an absent custom list changes nothing;
/// a custom list over an absent existing one is taken verbatim.
pub open spec fn merge_cat_spec(
    existing: Option<Seq<RuleModel>>,
    custom: Option<Seq<RuleModel>>,
) -> Option<Seq<RuleModel>> {
    match custom {
        Option::None => existing,
        Option::Some(cl) => match existing {
            Option::Some(el) => Option::Some(el + cl),
            Option::None => Option::Some(cl),
        },
    }
}

/// Per-language merge: each category merged independently.
pub open spec fn merge_lang_spec(existing: LangModel, custom: LangModel) -> LangModel {
    LangModel {
        principals: merge_cat_spec(existing.principals, custom.principals),
        actions: merge_cat_spec(existing.actions, custom.actions),
        resources: merge_cat_spec(existing.resources, custom.resources),
    }
}

/// Clone a list of strings, preserving each string's characters.
pub fn clone_string_vec(v: &Vec<String>) -> (r: Vec<String>)
    ensures
        r.deep_view() == v.deep_view(),
{
    let mut r: Vec<String> = Vec::new();
    let mut i: usize = 0;
    while i < v.len()
        invariant
            0 <= i <= v.len(),
            r.deep_view() =~= v.deep_view().take(i as int),
        decreases v.len() - i,
    {
        proof {
            assert(r.deep_view().len() == r@.len());
            assert(r@.len() == i);
        }
        let s = v[i].clone();
        r.push(s);
        proof {
            assert(r@.len() == i + 1);
            assert(r@[i as int] == v@[i as int]);
            assert(r.deep_view() =~= v.deep_view().take(i + 1));
        }
        i += 1;
    }
    proof {
        assert(r.deep_view() =~= v.deep_view());
    }
    r
}

impl Clone for PatternConfig {
    /// A clone models the same rule.
    fn clone(&self) -> (r: Self)
        ensures
            rule_model(r) == rule_model(*self),
    {
        let r = PatternConfig {
            pattern: self.pattern.clone(),
            description: self.description.clone(),
            attack_vector: clone_string_vec(&self.attack_vector),
        };
        proof {
            assert(rule_model(r) =~= rule_model(*self));
        }
        r
    }
}

/// Clone a list of rules, preserving its model.
pub fn clone_rule_vec(v: &Vec<PatternConfig>) -> (r: Vec<PatternConfig>)
    ensures
        rules_model(r@) == rules_model(v@),
{
    let mut r: Vec<PatternConfig> = Vec::new();
    let mut i: usize = 0;
    while i < v.len()
        invariant
            0 <= i <= v.len(),
            rules_model(r@) =~= rules_model(v@).take(i as int),
        decreases v.len() - i,
    {
        proof {
            assert(rules_model(r@).len() == r@.len());
            assert(r@.len() == i);
        }
        let c = v[i].clone();
        r.push(c);
        proof {
            assert(r@.len() == i + 1);
            assert(rules_model(r@)[i as int] == rule_model(r@[i as int]));
            assert(rules_model(r@) =~= rules_model(v@).take(i + 1));
        }
        i += 1;
    }
    proof {
        assert(rules_model(r@) =~= rules_model(v@));
    }
    r
}

impl Clone for LanguagePatterns {
    /// A clone models the same document.
    fn clone(&self) -> (r: Self)
        ensures
            lang_model(r) == lang_model(*self),
    {
        let principals = match &self.principals {
            Option::Some(v) => Option::Some(clone_rule_vec(v)),
            Option::None => Option::None,
        };
        let actions = match &self.actions {
            Option::Some(v) => Option::Some(clone_rule_vec(v)),
            Option::None => Option::None,
        };
        let resources = match &self.resources {
            Option::Some(v) => Option::Some(clone_rule_vec(v)),
            Option::None => Option::None,
        };
        let r = LanguagePatterns { principals, actions, resources };
        proof {
            assert(lang_model(r) =~~= lang_model(*self));
        }
        r
    }
}

} // verus!
