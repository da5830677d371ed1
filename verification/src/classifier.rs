//! Maps a file extension or a filename to one of a fixed set of language
//! identifiers.

use vstd::prelude::*;
use vstd::string::StrSliceExecFns;

verus! {

/// Closed enumeration of the languages the registry knows about.
/// `Other` is the universal fallback: it stands for unrecognized extensions
/// and for any language with no registered rules.
#[derive(Debug, Clone, Copy, PartialEq, Eq, Structural)]
pub enum Language {
    Python,
    JavaScript,
    Rust,
    TypeScript,
    Java,
    Go,
    Ruby,
    C,
    Cpp,
    Terraform,
    CloudFormation,
    Kubernetes,
    Yaml,
    Bash,
    Shell,
    Php,
    Other,
}

/// The fixed extension table: exact, case-sensitive lookup, with `Other` for
/// any extension outside the table.
pub open spec fn lang_of_ext(ext: Seq<char>) -> Language {
    if ext == "py"@ {
        Language::Python
    } else if ext == "js"@ {
        Language::JavaScript
    } else if ext == "rs"@ {
        Language::Rust
    } else if ext == "ts"@ {
        Language::TypeScript
    } else if ext == "java"@ {
        Language::Java
    } else if ext == "go"@ {
        Language::Go
    } else if ext == "rb"@ {
        Language::Ruby
    } else if ext == "c"@ || ext == "h"@ {
        Language::C
    } else if ext == "cpp"@ || ext == "cxx"@ || ext == "cc"@ || ext == "hpp"@ || ext == "hxx"@ {
        Language::Cpp
    } else if ext == "tf"@ || ext == "hcl"@ {
        Language::Terraform
    } else if ext == "yml"@ || ext == "yaml"@ {
        Language::Yaml
    } else if ext == "sh"@ || ext == "bash"@ {
        Language::Bash
    } else if ext == "php"@ || ext == "php3"@ || ext == "php4"@ || ext == "php5"@
        || ext == "phtml"@ {
        Language::Php
    } else {
        Language::Other
    }
}

/// The fixed vocabulary of language names an overlay document may use,
/// matched case-sensitively; both `Php` and `PHP` name Php. Any other name
/// is unrecognized.
pub open spec fn lang_of_name(name: Seq<char>) -> Option<Language> {
    if name == "Python"@ {
        Option::Some(Language::Python)
    } else if name == "JavaScript"@ {
        Option::Some(Language::JavaScript)
    } else if name == "TypeScript"@ {
        Option::Some(Language::TypeScript)
    } else if name == "Rust"@ {
        Option::Some(Language::Rust)
    } else if name == "Java"@ {
        Option::Some(Language::Java)
    } else if name == "Go"@ {
        Option::Some(Language::Go)
    } else if name == "Ruby"@ {
        Option::Some(Language::Ruby)
    } else if name == "C"@ {
        Option::Some(Language::C)
    } else if name == "Cpp"@ {
        Option::Some(Language::Cpp)
    } else if name == "Terraform"@ {
        Option::Some(Language::Terraform)
    } else if name == "CloudFormation"@ {
        Option::Some(Language::CloudFormation)
    } else if name == "Kubernetes"@ {
        Option::Some(Language::Kubernetes)
    } else if name == "YAML"@ {
        Option::Some(Language::Yaml)
    } else if name == "Bash"@ {
        Option::Some(Language::Bash)
    } else if name == "Shell"@ {
        Option::Some(Language::Shell)
    } else if name == "Php"@ || name == "PHP"@ {
        Option::Some(Language::Php)
    } else {
        Option::None
    }
}

/// Index of the last `.` in `s`, or `-1` when `s` holds none.
pub open spec fn last_dot(s: Seq<char>) -> int
    decreases s.len(),
{
    if s.len() == 0 {
        -1
    } else if s[s.len() - 1] == '.' {
        s.len() - 1
    } else {
        last_dot(s.drop_last())
    }
}

/// The language a filename classifies as: the extension is the substring
/// after the last `.`, absent when the name holds no `.`.
pub open spec fn lang_of_filename(name: Seq<char>) -> Language {
    if last_dot(name) >= 0 {
        lang_of_ext(name.subrange(last_dot(name) + 1, name.len() as int))
    } else {
        Language::Other
    }
}

/// `last_dot` is the largest index holding `'.'`, and is `-1` exactly when
/// no index holds one.
pub proof fn lemma_last_dot(s: Seq<char>)
    ensures
        last_dot(s) >= 0 ==> 0 <= last_dot(s) < s.len() && s[last_dot(s)] == '.',
        last_dot(s) >= 0 ==> forall|j: int| last_dot(s) < j < s.len() ==> s[j] != '.',
        last_dot(s) < 0 ==> last_dot(s) == -1 && (forall|j: int| 0 <= j < s.len() ==> s[j] != '.'),
    decreases s.len(),
{
    if s.len() != 0 && s[s.len() - 1] != '.' {
        lemma_last_dot(s.drop_last());
        assert forall|j: int| 0 <= j < s.len() - 1 implies s.drop_last()[j] == s[j] by {}
    }
}

fn str_eq(a: &str, b: &str) -> (r: bool)
    ensures
        r == (a@ == b@),
{
    let alen = a.unicode_len();
    let blen = b.unicode_len();
    if alen != blen {
        return false;
    }
    let mut i: usize = 0;
    while i < alen
        invariant
            0 <= i <= alen,
            alen == a@.len(),
            blen == b@.len(),
            alen == blen,
            forall|j: int| 0 <= j < i ==> a@[j] == b@[j],
        decreases alen - i,
    {
        if a.get_char(i) != b.get_char(i) {
            return false;
        }
        i += 1;
    }
    proof {
        assert(a@ =~= b@);
    }
    true
}

impl Language {
    /// Exact, case-sensitive match against the fixed extension table; any
    /// unmapped extension yields `Other`. Deterministic and total.
    pub fn from_extension(ext: &str) -> (r: Self)
        ensures
            r == lang_of_ext(ext@),
    {
        if str_eq(ext, "py") {
            Language::Python
        } else if str_eq(ext, "js") {
            Language::JavaScript
        } else if str_eq(ext, "rs") {
            Language::Rust
        } else if str_eq(ext, "ts") {
            Language::TypeScript
        } else if str_eq(ext, "java") {
            Language::Java
        } else if str_eq(ext, "go") {
            Language::Go
        } else if str_eq(ext, "rb") {
            Language::Ruby
        } else if str_eq(ext, "c") || str_eq(ext, "h") {
            Language::C
        } else if str_eq(ext, "cpp") || str_eq(ext, "cxx") || str_eq(ext, "cc")
            || str_eq(ext, "hpp") || str_eq(ext, "hxx") {
            Language::Cpp
        } else if str_eq(ext, "tf") || str_eq(ext, "hcl") {
            Language::Terraform
        } else if str_eq(ext, "yml") || str_eq(ext, "yaml") {
            Language::Yaml
        } else if str_eq(ext, "sh") || str_eq(ext, "bash") {
            Language::Bash
        } else if str_eq(ext, "php") || str_eq(ext, "php3") || str_eq(ext, "php4")
            || str_eq(ext, "php5") || str_eq(ext, "phtml") {
            Language::Php
        } else {
            Language::Other
        }
    }

    /// Case-sensitive lookup of an overlay document's language-name string;
    /// an unrecognized name yields nothing.
    pub fn from_name(name: &str) -> (r: Option<Self>)
        ensures
            r == lang_of_name(name@),
    {
        if str_eq(name, "Python") {
            Option::Some(Language::Python)
        } else if str_eq(name, "JavaScript") {
            Option::Some(Language::JavaScript)
        } else if str_eq(name, "TypeScript") {
            Option::Some(Language::TypeScript)
        } else if str_eq(name, "Rust") {
            Option::Some(Language::Rust)
        } else if str_eq(name, "Java") {
            Option::Some(Language::Java)
        } else if str_eq(name, "Go") {
            Option::Some(Language::Go)
        } else if str_eq(name, "Ruby") {
            Option::Some(Language::Ruby)
        } else if str_eq(name, "C") {
            Option::Some(Language::C)
        } else if str_eq(name, "Cpp") {
            Option::Some(Language::Cpp)
        } else if str_eq(name, "Terraform") {
            Option::Some(Language::Terraform)
        } else if str_eq(name, "CloudFormation") {
            Option::Some(Language::CloudFormation)
        } else if str_eq(name, "Kubernetes") {
            Option::Some(Language::Kubernetes)
        } else if str_eq(name, "YAML") {
            Option::Some(Language::Yaml)
        } else if str_eq(name, "Bash") {
            Option::Some(Language::Bash)
        } else if str_eq(name, "Shell") {
            Option::Some(Language::Shell)
        } else if str_eq(name, "Php") || str_eq(name, "PHP") {
            Option::Some(Language::Php)
        } else {
            Option::None
        }
    }

    /// Extracts the filename's extension (the substring after the last `.`,
    /// absent if none) and delegates to the extension table; a filename with
    /// no extension yields `Other`.
    pub fn from_filename(filename: &str) -> (r: Self)
        ensures
            r == lang_of_filename(filename@),
    {
        let n = filename.unicode_len();
        let mut i: usize = n;
        while i > 0
            invariant
                0 <= i <= n,
                n == filename@.len(),
                forall|j: int| i <= j < n ==> filename@[j] != '.',
            decreases i,
        {
            let c = filename.get_char(i - 1);
            if c == '.' {
                proof {
                    lemma_last_dot(filename@);
                    assert(filename@[i - 1] == '.');
                    assert(last_dot(filename@) == i - 1);
                }
                let ext = filename.substring_char(i, n);
                return Self::from_extension(ext);
            }
            i -= 1;
        }
        proof {
            lemma_last_dot(filename@);
        }
        Language::Other
    }
}

} // verus!
