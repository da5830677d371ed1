use risk_patterns::Language;

#[test]
fn test_from_extension_table() {
    assert_eq!(Language::from_extension("py"), Language::Python);
    assert_eq!(Language::from_extension("js"), Language::JavaScript);
    assert_eq!(Language::from_extension("rs"), Language::Rust);
    assert_eq!(Language::from_extension("ts"), Language::TypeScript);
    assert_eq!(Language::from_extension("java"), Language::Java);
    assert_eq!(Language::from_extension("go"), Language::Go);
    assert_eq!(Language::from_extension("rb"), Language::Ruby);
    assert_eq!(Language::from_extension("c"), Language::C);
    assert_eq!(Language::from_extension("h"), Language::C);
    assert_eq!(Language::from_extension("cpp"), Language::Cpp);
    assert_eq!(Language::from_extension("cxx"), Language::Cpp);
    assert_eq!(Language::from_extension("cc"), Language::Cpp);
    assert_eq!(Language::from_extension("hpp"), Language::Cpp);
    assert_eq!(Language::from_extension("hxx"), Language::Cpp);
    assert_eq!(Language::from_extension("tf"), Language::Terraform);
    assert_eq!(Language::from_extension("hcl"), Language::Terraform);
    assert_eq!(Language::from_extension("yml"), Language::Yaml);
    assert_eq!(Language::from_extension("yaml"), Language::Yaml);
    assert_eq!(Language::from_extension("sh"), Language::Bash);
    assert_eq!(Language::from_extension("bash"), Language::Bash);
    assert_eq!(Language::from_extension("php"), Language::Php);
    assert_eq!(Language::from_extension("php3"), Language::Php);
    assert_eq!(Language::from_extension("php4"), Language::Php);
    assert_eq!(Language::from_extension("php5"), Language::Php);
    assert_eq!(Language::from_extension("phtml"), Language::Php);
}

#[test]
fn test_from_extension_unknown() {
    assert_eq!(Language::from_extension("xyz"), Language::Other);
    assert_eq!(Language::from_extension(""), Language::Other);
    assert_eq!(Language::from_extension("PY"), Language::Other);
    assert_eq!(Language::from_extension("py "), Language::Other);
}

#[test]
fn test_from_filename_multi_dot() {
    assert_eq!(Language::from_filename("app.test.ts"), Language::TypeScript);
}

#[test]
fn test_from_filename_no_extension() {
    assert_eq!(Language::from_filename("Makefile"), Language::Other);
}

#[test]
fn test_from_filename_various() {
    assert_eq!(Language::from_filename("main.py"), Language::Python);
    assert_eq!(Language::from_filename("deploy.yaml"), Language::Yaml);
    assert_eq!(Language::from_filename("archive.tar.gz"), Language::Other);
    assert_eq!(Language::from_filename("trailing."), Language::Other);
    assert_eq!(Language::from_filename(""), Language::Other);
}

#[test]
fn test_from_name_vocabulary() {
    assert_eq!(Language::from_name("Python"), Some(Language::Python));
    assert_eq!(Language::from_name("JavaScript"), Some(Language::JavaScript));
    assert_eq!(Language::from_name("TypeScript"), Some(Language::TypeScript));
    assert_eq!(Language::from_name("Rust"), Some(Language::Rust));
    assert_eq!(Language::from_name("Java"), Some(Language::Java));
    assert_eq!(Language::from_name("Go"), Some(Language::Go));
    assert_eq!(Language::from_name("Ruby"), Some(Language::Ruby));
    assert_eq!(Language::from_name("C"), Some(Language::C));
    assert_eq!(Language::from_name("Cpp"), Some(Language::Cpp));
    assert_eq!(Language::from_name("Terraform"), Some(Language::Terraform));
    assert_eq!(Language::from_name("CloudFormation"), Some(Language::CloudFormation));
    assert_eq!(Language::from_name("Kubernetes"), Some(Language::Kubernetes));
    assert_eq!(Language::from_name("YAML"), Some(Language::Yaml));
    assert_eq!(Language::from_name("Bash"), Some(Language::Bash));
    assert_eq!(Language::from_name("Shell"), Some(Language::Shell));
    assert_eq!(Language::from_name("Php"), Some(Language::Php));
    assert_eq!(Language::from_name("PHP"), Some(Language::Php));
}

#[test]
fn test_from_name_unrecognized() {
    assert_eq!(Language::from_name("python"), None);
    assert_eq!(Language::from_name("Pascal"), None);
    assert_eq!(Language::from_name("Yaml"), None);
    assert_eq!(Language::from_name(""), None);
}
