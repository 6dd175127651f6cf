//! Language detection and LSP configuration registry.
//!
//! Maps project root files (Cargo.toml, go.mod, package.json, pom.xml,
//! build.gradle) to the LSP server that serves them.

use vstd::prelude::*;
use crate::text::{concat, str_eq};

verus! {

/// Errors of the registry.
pub enum RegistryError {
    UnsupportedLanguage(String),
    BinaryNotFound(String),
}

impl RegistryError {
    /// The error's message.
    pub fn message(&self) -> (r: String)
        ensures
            r@ == match self {
                RegistryError::UnsupportedLanguage(l) => "Language not supported: "@ + l@,
                RegistryError::BinaryNotFound(b) => "LSP binary not found: "@ + b@,
            },
    {
        match self {
            RegistryError::UnsupportedLanguage(l) => concat("Language not supported: ", l.as_str()),
            RegistryError::BinaryNotFound(b) => concat("LSP binary not found: ", b.as_str()),
        }
    }
}

/// A supported language and its LSP configuration.
#[derive(Debug, Clone)]
pub struct LspConfig {
    pub language: String,
    pub binary_name: String,
    pub binary_path: Option<String>,
    pub root_file: String,
    /// Whether this LSP uses virtual URIs (e.g., jdt:// for Java)
    pub supports_virtual_uris: bool,
}

/// `c` has the given fields, with no binary path.
pub open spec fn config_is(
    c: LspConfig,
    language: Seq<char>,
    binary_name: Seq<char>,
    root_file: Seq<char>,
    virtual_uris: bool,
) -> bool {
    &&& c.language@ == language
    &&& c.binary_name@ == binary_name
    &&& c.binary_path is None
    &&& c.root_file@ == root_file
    &&& c.supports_virtual_uris == virtual_uris
}

/// The command line that starts the server of `c`, given where a JDT LS launcher
/// was found (if anywhere).
pub open spec fn spawn_command(c: LspConfig, jdt_ls_path: Option<Seq<char>>) -> Seq<Seq<char>> {
    if c.language@ == "rust"@ {
        seq!["rustup"@, "run"@, "stable"@, "rust-analyzer"@]
    } else if c.language@ == "java"@ {
        seq!["java"@, "-jar"@, match jdt_ls_path { Some(p) => p, None => "jdt-language-server"@ }]
    } else {
        seq![c.binary_name@]
    }
}

impl LspConfig {
    /// Rust language configuration
    pub fn rust() -> (c: Self)
        ensures
            config_is(c, "rust"@, "rustup"@, "Cargo.toml"@, false),
    {
        LspConfig {
            language: String::from_str("rust"),
            binary_name: String::from_str("rustup"),
            binary_path: None,
            root_file: String::from_str("Cargo.toml"),
            supports_virtual_uris: false,
        }
    }

    /// The command that starts this LSP server. For Java the launcher is the
    /// one found through `JDT_LS_PATH` or a known install location, if any
    /// (`jdt_ls_path`), else the `jdt-language-server` command.
    pub fn get_spawn_command(&self, jdt_ls_path: Option<String>) -> (r: Vec<String>)
        ensures
            r@.map_values(|s: String| s@) == spawn_command(*self, match jdt_ls_path { Some(p) => Some(p@), None => None }),
    {
        let mut v: Vec<String> = Vec::new();
        if str_eq(self.language.as_str(), "rust") {
            v.push(String::from_str("rustup"));
            v.push(String::from_str("run"));
            v.push(String::from_str("stable"));
            v.push(String::from_str("rust-analyzer"));
        } else if str_eq(self.language.as_str(), "java") {
            v.push(String::from_str("java"));
            v.push(String::from_str("-jar"));
            match jdt_ls_path {
                Some(p) => v.push(p),
                None => v.push(String::from_str("jdt-language-server")),
            }
        } else {
            v.push(self.binary_name.clone());
        }
        assert(v@.map_values(|s: String| s@) =~= spawn_command(*self, match jdt_ls_path { Some(p) => Some(p@), None => None }));
        v
    }

    /// Go language configuration
    pub fn go() -> (c: Self)
        ensures
            config_is(c, "go"@, "gopls"@, "go.mod"@, false),
    {
        LspConfig {
            language: String::from_str("go"),
            binary_name: String::from_str("gopls"),
            binary_path: None,
            root_file: String::from_str("go.mod"),
            supports_virtual_uris: false,
        }
    }

    /// TypeScript language configuration
    pub fn typescript() -> (c: Self)
        ensures
            config_is(c, "typescript"@, "typescript-language-server"@, "package.json"@, false),
    {
        LspConfig {
            language: String::from_str("typescript"),
            binary_name: String::from_str("typescript-language-server"),
            binary_path: None,
            root_file: String::from_str("package.json"),
            supports_virtual_uris: false,
        }
    }

    /// Java language configuration (Maven projects, identified by pom.xml)
    pub fn java() -> (c: Self)
        ensures
            config_is(c, "java"@, "java"@, "pom.xml"@, true),
    {
        LspConfig {
            language: String::from_str("java"),
            binary_name: String::from_str("java"),
            binary_path: None,
            root_file: String::from_str("pom.xml"),
            supports_virtual_uris: true,
        }
    }

    /// Java Gradle configuration (alternative root file)
    pub fn java_gradle() -> (c: Self)
        ensures
            config_is(c, "java"@, "java"@, "build.gradle"@, true),
    {
        LspConfig {
            language: String::from_str("java"),
            binary_name: String::from_str("java"),
            binary_path: None,
            root_file: String::from_str("build.gradle"),
            supports_virtual_uris: true,
        }
    }

    /// Java Gradle configuration with a Kotlin build script
    pub fn java_gradle_kts() -> (c: Self)
        ensures
            config_is(c, "java"@, "java"@, "build.gradle.kts"@, true),
    {
        LspConfig {
            language: String::from_str("java"),
            binary_name: String::from_str("java"),
            binary_path: None,
            root_file: String::from_str("build.gradle.kts"),
            supports_virtual_uris: true,
        }
    }
}

/// Registry for detecting a project's language and matching LSP server.
pub struct LspRegistry {
    configs: Vec<LspConfig>,
}

impl View for LspRegistry {
    type V = Seq<LspConfig>;

    closed spec fn view(&self) -> Seq<LspConfig> {
        self.configs@
    }
}

/// `name` is one of `names`.
pub open spec fn names_contain(names: Seq<Seq<char>>, name: Seq<char>) -> bool {
    exists|i: int| 0 <= i < names.len() && names[i] == name
}

/// The first configuration whose root file is present.
pub open spec fn first_detected(cfgs: Seq<LspConfig>, present: Seq<Seq<char>>) -> Option<LspConfig>
    decreases cfgs.len(),
{
    if cfgs.len() == 0 {
        None
    } else if names_contain(present, cfgs[0].root_file@) {
        Some(cfgs[0])
    } else {
        first_detected(cfgs.drop_first(), present)
    }
}

/// The first configuration for `language`.
pub open spec fn first_for_language(cfgs: Seq<LspConfig>, language: Seq<char>) -> Option<LspConfig>
    decreases cfgs.len(),
{
    if cfgs.len() == 0 {
        None
    } else if cfgs[0].language@ == language {
        Some(cfgs[0])
    } else {
        first_for_language(cfgs.drop_first(), language)
    }
}

/// The registry's configurations in order: Rust, Go, TypeScript, Java (Maven),
/// Java (Gradle), Java (Gradle with a Kotlin script).
pub open spec fn default_configs(cfgs: Seq<LspConfig>) -> bool {
    &&& cfgs.len() == 6
    &&& config_is(cfgs[0], "rust"@, "rustup"@, "Cargo.toml"@, false)
    &&& config_is(cfgs[1], "go"@, "gopls"@, "go.mod"@, false)
    &&& config_is(cfgs[2], "typescript"@, "typescript-language-server"@, "package.json"@, false)
    &&& config_is(cfgs[3], "java"@, "java"@, "pom.xml"@, true)
    &&& config_is(cfgs[4], "java"@, "java"@, "build.gradle"@, true)
    &&& config_is(cfgs[5], "java"@, "java"@, "build.gradle.kts"@, true)
}

impl Default for LspRegistry {
    fn default() -> (r: Self)
        ensures
            default_configs(r@),
    {
        Self::new()
    }
}

impl LspRegistry {
    /// The registry of all supported languages.
    pub fn new() -> (r: Self)
        ensures
            default_configs(r@),
    {
        let mut configs: Vec<LspConfig> = Vec::new();
        configs.push(LspConfig::rust());
        configs.push(LspConfig::go());
        configs.push(LspConfig::typescript());
        configs.push(LspConfig::java());
        configs.push(LspConfig::java_gradle());
        configs.push(LspConfig::java_gradle_kts());
        LspRegistry { configs }
    }

    /// The root files that identify a project, one per configuration, in order.
    pub fn root_files(&self) -> (r: Vec<String>)
        ensures
            r@.len() == self@.len(),
            forall|i: int| 0 <= i < r@.len() ==> #[trigger] r@[i]@ == self@[i].root_file@,
    {
        let mut r: Vec<String> = Vec::new();
        let mut i: usize = 0;
        while i < self.configs.len()
            invariant
                i <= self.configs.len(),
                r@.len() == i,
                forall|j: int| 0 <= j < i ==> #[trigger] r@[j]@ == self.configs@[j].root_file@,
            decreases self.configs.len() - i,
        {
            r.push(self.configs[i].root_file.clone());
            i += 1;
        }
        r
    }

    /// The language of the project whose root directory holds the files
    /// `present_root_files`: the first configuration whose root file is present.
    pub fn detect_language(&self, present_root_files: &Vec<String>) -> (r: Option<&LspConfig>)
        ensures
            match r {
                Some(c) => first_detected(self@, present_root_files@.map_values(|s: String| s@)) == Some(*c),
                None => first_detected(self@, present_root_files@.map_values(|s: String| s@)) is None,
            },
    {
        let ghost present = present_root_files@.map_values(|s: String| s@);
        let mut i: usize = 0;
        assert(self.configs@.skip(0) =~= self.configs@);
        while i < self.configs.len()
            invariant
                i <= self.configs.len(),
                present == present_root_files@.map_values(|s: String| s@),
                first_detected(self@, present) == first_detected(self.configs@.skip(i as int), present),
            decreases self.configs.len() - i,
        {
            let ghost rest = self.configs@.skip(i as int);
            assert(rest.drop_first() =~= self.configs@.skip(i + 1));
            assert(rest[0] == self.configs@[i as int]);
            let mut k: usize = 0;
            let mut found = false;
            while k < present_root_files.len()
                invariant
                    i < self.configs.len(),
                    k <= present_root_files.len(),
                    present == present_root_files@.map_values(|s: String| s@),
                    found <==> exists|j: int| 0 <= j < k && present[j] == self.configs@[i as int].root_file@,
                decreases present_root_files.len() - k,
            {
                assert(present[k as int] == present_root_files@[k as int]@);
                if str_eq(present_root_files[k].as_str(), self.configs[i].root_file.as_str()) {
                    found = true;
                }
                k += 1;
            }
            if found {
                return Some(&self.configs[i]);
            }
            i += 1;
        }
        None
    }

    /// The configuration for a language name: the first one with that language.
    pub fn get_config(&self, language: &str) -> (r: Option<&LspConfig>)
        ensures
            match r {
                Some(c) => first_for_language(self@, language@) == Some(*c),
                None => first_for_language(self@, language@) is None,
            },
    {
        let mut i: usize = 0;
        assert(self.configs@.skip(0) =~= self.configs@);
        while i < self.configs.len()
            invariant
                i <= self.configs.len(),
                first_for_language(self@, language@) == first_for_language(self.configs@.skip(i as int), language@),
            decreases self.configs.len() - i,
        {
            let ghost rest = self.configs@.skip(i as int);
            assert(rest.drop_first() =~= self.configs@.skip(i + 1));
            assert(rest[0] == self.configs@[i as int]);
            if str_eq(self.configs[i].language.as_str(), language) {
                return Some(&self.configs[i]);
            }
            i += 1;
        }
        None
    }
}

proof fn lemma_first_detected_member(cfgs: Seq<LspConfig>, present: Seq<Seq<char>>)
    ensures
        first_detected(cfgs, present) matches Some(c) ==> cfgs.contains(c),
    decreases cfgs.len(),
{
    if cfgs.len() > 0 && !names_contain(present, cfgs[0].root_file@) {
        lemma_first_detected_member(cfgs.drop_first(), present);
        if let Some(c) = first_detected(cfgs.drop_first(), present) {
            let k = choose|k: int| 0 <= k < cfgs.drop_first().len() && cfgs.drop_first()[k] == c;
            assert(cfgs[k + 1] == c);
        }
    } else if cfgs.len() > 0 {
        assert(cfgs[0] == cfgs[0]);
    }
}

proof fn lemma_member_has_config(cfgs: Seq<LspConfig>, c: LspConfig)
    requires
        cfgs.contains(c),
    ensures
        first_for_language(cfgs, c.language@) is Some,
    decreases cfgs.len(),
{
    if cfgs[0].language@ != c.language@ {
        let k = choose|k: int| 0 <= k < cfgs.len() && cfgs[k] == c;
        assert(k != 0);
        assert(cfgs.drop_first()[k - 1] == c);
        lemma_member_has_config(cfgs.drop_first(), c);
    }
}

/// Whatever language is detected can be looked up again by its name.
pub proof fn lemma_detected_language_has_config(reg: LspRegistry, present: Seq<Seq<char>>)
    ensures
        first_detected(reg@, present) matches Some(c) ==> first_for_language(reg@, c.language@) is Some,
{
    lemma_first_detected_member(reg@, present);
    if let Some(c) = first_detected(reg@, present) {
        lemma_member_has_config(reg@, c);
    }
}

/// In the registry of all supported languages, a Java project is served by the
/// Maven configuration when looked up by name, and each language name finds its
/// own configuration.
pub proof fn lemma_default_lookup_by_name(cfgs: Seq<LspConfig>)
    requires
        default_configs(cfgs),
    ensures
        first_for_language(cfgs, "rust"@) == Some(cfgs[0]),
        first_for_language(cfgs, "go"@) == Some(cfgs[1]),
        first_for_language(cfgs, "typescript"@) == Some(cfgs[2]),
        first_for_language(cfgs, "java"@) == Some(cfgs[3]),
        first_for_language(cfgs, "python"@) is None,
{
    reveal_strlit("rust");
    reveal_strlit("go");
    reveal_strlit("typescript");
    reveal_strlit("java");
    reveal_strlit("python");
    let c1 = cfgs.drop_first();
    let c2 = c1.drop_first();
    let c3 = c2.drop_first();
    let c4 = c3.drop_first();
    let c5 = c4.drop_first();
    let c6 = c5.drop_first();
    assert(c1[0] == cfgs[1] && c2[0] == cfgs[2] && c3[0] == cfgs[3] && c4[0] == cfgs[4] && c5[0] == cfgs[5]);
    assert(c6.len() == 0);
    assert(first_for_language(c1, "go"@) == Some(cfgs[1]));
    assert(first_for_language(c2, "typescript"@) == Some(cfgs[2]));
    assert("go"@.len() == 2 && "typescript"@.len() == 10 && "java"@.len() == 4);
    assert(cfgs[1].language@ != "typescript"@);
    assert(first_for_language(c1, "typescript"@) == Some(cfgs[2]));
    assert(first_for_language(c3, "java"@) == Some(cfgs[3]));
    assert(cfgs[2].language@ != "java"@);
    assert(cfgs[1].language@ != "java"@);
    assert(first_for_language(c2, "java"@) == Some(cfgs[3]));
    assert(first_for_language(c1, "java"@) == Some(cfgs[3]));
    assert("rust"@[0] == 'r' && "java"@[0] == 'j' && "python"@.len() == 6);
    assert(cfgs[0].language@ != "java"@);
    assert(cfgs[0].language@ != "python"@ && cfgs[1].language@ != "python"@ && cfgs[2].language@ != "python"@);
    assert(cfgs[3].language@ != "python"@ && cfgs[4].language@ != "python"@ && cfgs[5].language@ != "python"@);
    assert(first_for_language(c6, "python"@) is None);
    assert(first_for_language(c5, "python"@) is None);
    assert(first_for_language(c4, "python"@) is None);
    assert(first_for_language(c3, "python"@) is None);
    assert(first_for_language(c2, "python"@) is None);
    assert(first_for_language(c1, "python"@) is None);
}

} // verus!
