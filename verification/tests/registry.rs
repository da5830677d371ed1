use risk_patterns::Language;
use risk_patterns::LanguagePatterns;
use risk_patterns::PatternConfig;
use risk_patterns::PatternType;
use risk_patterns::SecurityRiskPatterns;

fn rule(pattern: &str, description: &str, attack_vectors: &[&str]) -> PatternConfig {
    PatternConfig {
        pattern: pattern.to_string(),
        description: description.to_string(),
        attack_vector: attack_vectors.iter().map(|s| s.to_string()).collect(),
    }
}

fn doc(
    principals: Option<Vec<PatternConfig>>,
    actions: Option<Vec<PatternConfig>>,
    resources: Option<Vec<PatternConfig>>,
) -> LanguagePatterns {
    LanguagePatterns { principals, actions, resources }
}

fn python_builtins() -> Vec<(Language, LanguagePatterns)> {
    vec![(
        Language::Python,
        doc(
            Some(vec![rule("user_input", "user-controlled data", &["untrusted input"])]),
            Some(vec![rule("eval\\(", "dynamic evaluation", &["code injection", "rce"])]),
            Some(vec![rule("open\\(", "file access", &[])]),
        ),
    )]
}

#[test]
fn test_matches_basic() {
    let builtins = python_builtins();
    let reg = SecurityRiskPatterns::new(Language::Python, &builtins).unwrap();
    assert!(reg.matches("x = user_input"));
    assert!(reg.matches("eval(payload)"));
    assert!(reg.matches("open(path)"));
    assert!(!reg.matches("nothing risky here"));
}

#[test]
fn test_matches_uses_regex_semantics() {
    let builtins = vec![(
        Language::Python,
        doc(None, Some(vec![rule("^exec\\([0-9]+\\)$", "exec call", &[])]), None),
    )];
    let reg = SecurityRiskPatterns::new(Language::Python, &builtins).unwrap();
    assert!(reg.matches("exec(42)"));
    assert!(!reg.matches("prefix exec(42)"));
    assert!(!reg.matches("exec(x)"));
    assert!(!reg.matches("^exec\\([0-9]+\\)$"));
}

#[test]
fn test_get_pattern_type_categories() {
    let builtins = python_builtins();
    let reg = SecurityRiskPatterns::new(Language::Python, &builtins).unwrap();
    assert_eq!(reg.get_pattern_type("x = user_input"), Some(PatternType::Principal));
    assert_eq!(reg.get_pattern_type("eval(payload)"), Some(PatternType::Action));
    assert_eq!(reg.get_pattern_type("open(path)"), Some(PatternType::Resource));
    assert_eq!(reg.get_pattern_type("nothing risky here"), None);
}

#[test]
fn test_get_attack_vectors_order_and_empty() {
    let builtins = python_builtins();
    let reg = SecurityRiskPatterns::new(Language::Python, &builtins).unwrap();
    assert_eq!(
        reg.get_attack_vectors("eval(payload)"),
        vec!["code injection".to_string(), "rce".to_string()]
    );
    assert_eq!(reg.get_attack_vectors("harmless"), Vec::<String>::new());
}

#[test]
fn test_empty_attack_vector_not_indexed() {
    let builtins = python_builtins();
    let reg = SecurityRiskPatterns::new(Language::Python, &builtins).unwrap();
    // "open(" matches only the resource rule, whose attack-vector list is
    // empty: the text matches, yet no attack vectors are reported.
    assert!(reg.matches("open(path)"));
    assert_eq!(reg.get_attack_vectors("open(path)"), Vec::<String>::new());
}

#[test]
fn test_fallback_to_other() {
    let builtins = vec![(
        Language::Other,
        doc(None, Some(vec![rule("password", "credential in text", &["secret exposure"])]), None),
    )];
    let reg = SecurityRiskPatterns::new(Language::Rust, &builtins).unwrap();
    assert!(reg.matches("let password = 1;"));
    assert_eq!(reg.get_pattern_type("let password = 1;"), Some(PatternType::Action));
    assert_eq!(reg.get_attack_vectors("let password = 1;"), vec!["secret exposure".to_string()]);
}

#[test]
fn test_no_entry_and_no_other_yields_empty_registry() {
    let builtins = python_builtins();
    let reg = SecurityRiskPatterns::new(Language::Rust, &builtins).unwrap();
    assert!(!reg.matches("x = user_input"));
    assert_eq!(reg.get_pattern_type("x = user_input"), None);
    assert_eq!(reg.get_attack_vectors("x = user_input"), Vec::<String>::new());
}

#[test]
fn test_invalid_regex_is_fatal() {
    let builtins = vec![(
        Language::Python,
        doc(Some(vec![rule("[unclosed", "broken rule", &[])]), None, None),
    )];
    assert!(SecurityRiskPatterns::new(Language::Python, &builtins).is_none());
    // The bad rule aborts the build even when other rules are fine.
    let builtins2 = vec![(
        Language::Python,
        doc(
            Some(vec![rule("user_input", "fine", &[])]),
            Some(vec![rule("[unclosed", "broken rule", &[])]),
            None,
        ),
    )];
    assert!(SecurityRiskPatterns::new(Language::Python, &builtins2).is_none());
}

#[test]
fn test_overlay_merge_additive_order() {
    let builtins = vec![(
        Language::Python,
        doc(None, Some(vec![rule("alpha", "first", &[]), rule("beta", "second", &[])]), None),
    )];
    let overlay = vec![(
        "Python".to_string(),
        doc(None, Some(vec![rule("gamma", "custom", &[])]), None),
    )];
    let map = SecurityRiskPatterns::load_patterns(&builtins, Some(&overlay));
    assert_eq!(map.len(), 1);
    assert_eq!(map[0].0, Language::Python);
    let actions = map[0].1.actions.as_ref().unwrap();
    let texts: Vec<&str> = actions.iter().map(|c| c.pattern.as_str()).collect();
    assert_eq!(texts, vec!["alpha", "beta", "gamma"]);
    assert!(map[0].1.principals.is_none());
    assert!(map[0].1.resources.is_none());
}

#[test]
fn test_overlay_new_language_verbatim() {
    let builtins = python_builtins();
    let overlay = vec![(
        "Go".to_string(),
        doc(Some(vec![rule("ctx\\.Request", "request data", &["untrusted input"])]), None, None),
    )];
    let map = SecurityRiskPatterns::load_patterns(&builtins, Some(&overlay));
    assert_eq!(map.len(), 2);
    assert_eq!(map[1].0, Language::Go);
    let principals = map[1].1.principals.as_ref().unwrap();
    assert_eq!(principals.len(), 1);
    assert_eq!(principals[0].pattern, "ctx\\.Request");
    let reg = SecurityRiskPatterns::new_with_root(Language::Go, &builtins, Some(&overlay)).unwrap();
    assert!(reg.matches("v := ctx.Request"));
}

#[test]
fn test_overlay_fills_missing_category() {
    let builtins = vec![(
        Language::Python,
        doc(None, Some(vec![rule("eval\\(", "dynamic evaluation", &[])]), None),
    )];
    let overlay = vec![(
        "Python".to_string(),
        doc(Some(vec![rule("request\\.args", "query data", &[])]), None, None),
    )];
    let map = SecurityRiskPatterns::load_patterns(&builtins, Some(&overlay));
    assert_eq!(map.len(), 1);
    let principals = map[0].1.principals.as_ref().unwrap();
    assert_eq!(principals.len(), 1);
    assert_eq!(principals[0].pattern, "request\\.args");
    let actions = map[0].1.actions.as_ref().unwrap();
    assert_eq!(actions.len(), 1);
}

#[test]
fn test_overlay_unrecognized_name_skipped() {
    let builtins = python_builtins();
    let overlay = vec![(
        "Pascal".to_string(),
        doc(Some(vec![rule("writeln", "output", &[])]), None, None),
    )];
    let map = SecurityRiskPatterns::load_patterns(&builtins, Some(&overlay));
    assert_eq!(map.len(), 1);
    assert_eq!(map[0].0, Language::Python);
    let reg = SecurityRiskPatterns::new_with_root(Language::Python, &builtins, Some(&overlay))
        .unwrap();
    assert!(!reg.matches("writeln"));
}

#[test]
fn test_overlay_php_name_variants() {
    let builtins: Vec<(Language, LanguagePatterns)> = Vec::new();
    let overlay = vec![
        ("PHP".to_string(), doc(None, Some(vec![rule("eval\\(", "eval", &[])]), None)),
        ("Php".to_string(), doc(None, Some(vec![rule("system\\(", "shell", &[])]), None)),
    ];
    let map = SecurityRiskPatterns::load_patterns(&builtins, Some(&overlay));
    assert_eq!(map.len(), 1);
    assert_eq!(map[0].0, Language::Php);
    let actions = map[0].1.actions.as_ref().unwrap();
    assert_eq!(actions.len(), 2);
    let reg = SecurityRiskPatterns::new_with_root(Language::Php, &builtins, Some(&overlay)).unwrap();
    assert!(reg.matches("system(cmd)"));
}

#[test]
fn test_missing_overlay_identity() {
    let builtins = python_builtins();
    let without_root = SecurityRiskPatterns::load_patterns(&builtins, None);
    let empty_overlay: Vec<(String, LanguagePatterns)> = Vec::new();
    let with_empty = SecurityRiskPatterns::load_patterns(&builtins, Some(&empty_overlay));
    assert_eq!(without_root.len(), with_empty.len());
    for (a, b) in without_root.iter().zip(with_empty.iter()) {
        assert_eq!(a.0, b.0);
        let pa = a.1.principals.as_ref().unwrap();
        let pb = b.1.principals.as_ref().unwrap();
        assert_eq!(pa.len(), pb.len());
        for (ra, rb) in pa.iter().zip(pb.iter()) {
            assert_eq!(ra.pattern, rb.pattern);
            assert_eq!(ra.description, rb.description);
            assert_eq!(ra.attack_vector, rb.attack_vector);
        }
    }
    let r1 = SecurityRiskPatterns::new(Language::Python, &builtins).unwrap();
    let r2 = SecurityRiskPatterns::new_with_root(Language::Python, &builtins, None).unwrap();
    for content in ["x = user_input", "eval(p)", "open(f)", "safe"] {
        assert_eq!(r1.matches(content), r2.matches(content));
        assert_eq!(r1.get_pattern_type(content), r2.get_pattern_type(content));
        assert_eq!(r1.get_attack_vectors(content), r2.get_attack_vectors(content));
    }
}

#[test]
fn test_malformed_overlay_all_or_nothing() {
    // A malformed overlay file hands construction no overlay at all, never
    // a partial one: a known-good rule defined elsewhere in the broken file
    // must not appear after load.
    let builtins = python_builtins();
    let reg = SecurityRiskPatterns::new_with_root(Language::Python, &builtins, None).unwrap();
    assert!(!reg.matches("subprocess.call(cmd)"));
    assert_eq!(reg.get_pattern_type("subprocess.call(cmd)"), None);
    assert!(reg.matches("x = user_input"));
}

#[test]
fn test_matches_iff_pattern_type() {
    let builtins = python_builtins();
    let reg = SecurityRiskPatterns::new(Language::Python, &builtins).unwrap();
    for content in
        ["x = user_input", "eval(p)", "open(f)", "safe", "", "user_input eval( open("] {
        assert_eq!(reg.matches(content), reg.get_pattern_type(content).is_some());
    }
}

#[test]
fn test_duplicate_pattern_text_overwrites() {
    // Identical pattern text across categories: the later-inserted category
    // (insertion order Principal, Action, Resource) overwrites the earlier
    // entry in both indices.
    let builtins = vec![(
        Language::Python,
        doc(
            Some(vec![rule("token", "as principal", &["principal vector"])]),
            Some(vec![rule("token", "as action", &["action vector"])]),
            None,
        ),
    )];
    let reg = SecurityRiskPatterns::new(Language::Python, &builtins).unwrap();
    assert_eq!(reg.get_pattern_type("a token b"), Some(PatternType::Action));
    assert_eq!(reg.get_attack_vectors("a token b"), vec!["action vector".to_string()]);
    assert!(reg.matches("a token b"));
}

#[test]
fn test_scan_order_is_declaration_order() {
    let builtins = vec![(
        Language::Python,
        doc(
            Some(vec![rule("aa", "first principal", &["first"])]),
            Some(vec![rule("bb", "first action", &["second"])]),
            None,
        ),
    )];
    let reg = SecurityRiskPatterns::new(Language::Python, &builtins).unwrap();
    // Content matching both rules: the principal rule was recorded first.
    assert_eq!(reg.get_pattern_type("aa bb"), Some(PatternType::Principal));
    assert_eq!(reg.get_attack_vectors("aa bb"), vec!["first".to_string()]);
}

#[test]
fn test_duplicate_builtin_language_overwrites() {
    // Two built-in entries for the same language: the later one replaces
    // the earlier, as map insertion does.
    let builtins = vec![
        (Language::Python, doc(None, Some(vec![rule("first_rule", "early", &[])]), None)),
        (Language::Python, doc(None, Some(vec![rule("second_rule", "late", &[])]), None)),
    ];
    let map = SecurityRiskPatterns::load_patterns(&builtins, None);
    assert_eq!(map.len(), 1);
    let reg = SecurityRiskPatterns::new(Language::Python, &builtins).unwrap();
    assert!(!reg.matches("first_rule"));
    assert!(reg.matches("second_rule"));
}

#[test]
fn test_empty_builtins() {
    let builtins: Vec<(Language, LanguagePatterns)> = Vec::new();
    let reg = SecurityRiskPatterns::new(Language::Python, &builtins).unwrap();
    assert!(!reg.matches("anything"));
    assert_eq!(reg.get_pattern_type("anything"), None);
    assert_eq!(reg.get_attack_vectors("anything"), Vec::<String>::new());
}
