//! The configuration model: the typed form of a template's declarative
//! rules. Pure data; the inclusion and rendering policy reads it.

use vstd::prelude::*;

use std::collections::HashMap;

use crate::strutil::str_eq;

verus! {

/// Tracks which values were answered at a prompt rather than given as flags.
#[derive(Debug)]
pub struct PromptedValues {
    pub project_name: bool,
    pub language: bool,
    pub integration: bool,
}

/// One fuzzer the template can set up, as shown in a chooser.
#[derive(Debug)]
pub struct FuzzerOption {
    pub name: String,
    pub display_name: String,
    pub description: String,
    pub needs: String,
}

/// The fuzzers a template supports, with a default.
#[derive(Debug)]
pub struct FuzzerConfig {
    pub supported: Vec<String>,
    pub default: String,
    pub options: Vec<FuzzerOption>,
}

/// One build-system integration the template can set up.
#[derive(Debug)]
pub struct IntegrationOption {
    pub name: String,
    pub description: String,
}

impl Clone for IntegrationOption {
    fn clone(&self) -> (r: IntegrationOption)
        ensures
            r == *self,
    {
        IntegrationOption { name: self.name.clone(), description: self.description.clone() }
    }
}

/// The build-system integrations a template supports, with a default.
#[derive(Debug)]
pub struct IntegrationConfig {
    pub supported: Vec<String>,
    pub default: String,
    pub options: Vec<IntegrationOption>,
}

/// The descriptive block of a template's configuration document.
#[derive(Debug)]
pub struct TemplateInfo {
    pub name: String,
    pub description: String,
    pub version: String,
}

/// A declared substitution variable: advisory; the context the caller
/// supplies is not validated against it.
#[derive(Debug)]
pub struct VariableConfig {
    pub default: Option<String>,
    pub required: bool,
    pub description: String,
}

/// A per-file override, keyed by relative path: one path or several may
/// share one override.
#[derive(Debug)]
pub enum FileConfig {
    Single { path: String, executable: bool, template: bool, condition: Option<String> },
    Multiple { paths: Vec<String>, executable: bool, template: bool, condition: Option<String> },
}

/// A directory-level declaration (creation hint; advisory).
#[derive(Debug)]
pub struct DirectoryConfig {
    pub path: String,
    pub create_empty: bool,
}

/// Commands a template asks to run after generation (advisory to the core).
#[derive(Debug)]
pub struct HookConfig {
    pub post_generate: Option<Vec<String>>,
}

/// Naming conventions that drive file inclusion and rendering when no
/// explicit per-file override applies.
#[derive(Debug)]
pub struct FileConventions {
    pub always_include: Vec<String>,
    pub full_mode_only: Vec<String>,
    pub template_extensions: Vec<String>,
    pub executable_extensions: Vec<String>,
    pub no_template_extensions: Vec<String>,
}

/// Where a template comes from: a local name, or a remote repository spec.
#[derive(Debug, Clone, PartialEq, Eq)]
pub enum TemplateSource {
    Local(String),
    GitHubFull(String),
}

/// Named validation command groups, consumed by the development mode.
#[derive(Debug)]
pub struct ValidationConfig {
    pub commands: Vec<ValidationCommand>,
}

/// One validation command group: an ordered list of argv vectors with an
/// optional condition, working directory, and environment overrides.
#[derive(Debug)]
pub struct ValidationCommand {
    pub name: String,
    pub condition: Option<String>,
    pub dir: Option<String>,
    pub steps: Vec<Vec<String>>,
    pub env: Option<HashMap<String, String>>,
    pub expect_success: bool,
}

/// A template's whole configuration document.
#[derive(Debug)]
pub struct TemplateMetadata {
    pub template: TemplateInfo,
    pub variables: HashMap<String, VariableConfig>,
    pub files: Vec<FileConfig>,
    pub directories: Vec<DirectoryConfig>,
    pub hooks: HookConfig,
    pub fuzzers: Option<FuzzerConfig>,
    pub integrations: Option<IntegrationConfig>,
    pub file_conventions: FileConventions,
    pub validation: Option<ValidationConfig>,
}

/// The default of a file override's `template` flag when the document does
/// not give it.
pub fn default_true() -> (r: bool)
    ensures
        r,
{
    true
}

impl FileConfig {
    /// The override's `template` flag.
    pub open spec fn spec_template(&self) -> bool {
        match self {
            FileConfig::Single { template, .. } => *template,
            FileConfig::Multiple { template, .. } => *template,
        }
    }

    /// The override's `executable` flag.
    pub open spec fn spec_executable(&self) -> bool {
        match self {
            FileConfig::Single { executable, .. } => *executable,
            FileConfig::Multiple { executable, .. } => *executable,
        }
    }

    /// The override's condition, if one is declared.
    pub open spec fn spec_condition(&self) -> Option<String> {
        match self {
            FileConfig::Single { condition, .. } => *condition,
            FileConfig::Multiple { condition, .. } => *condition,
        }
    }

    /// Whether this file's content and name go through substitution.
    pub fn should_template(&self) -> (r: bool)
        ensures
            r == self.spec_template(),
    {
        match self {
            FileConfig::Single { template, .. } => *template,
            FileConfig::Multiple { template, .. } => *template,
        }
    }

    /// Whether the written file is marked executable.
    pub fn is_executable(&self) -> (r: bool)
        ensures
            r == self.spec_executable(),
    {
        match self {
            FileConfig::Single { executable, .. } => *executable,
            FileConfig::Multiple { executable, .. } => *executable,
        }
    }

    /// The declared condition, if any.
    pub fn condition(&self) -> (r: Option<&String>)
        ensures
            match r {
                Some(c) => self.spec_condition() == Some(*c),
                None => self.spec_condition() is None,
            },
    {
        match self {
            FileConfig::Single { condition, .. } => condition.as_ref(),
            FileConfig::Multiple { condition, .. } => condition.as_ref(),
        }
    }
}

/// Whether an override names this relative path.
pub open spec fn config_matches(fc: FileConfig, rel: Seq<char>) -> bool {
    match fc {
        FileConfig::Single { path, .. } => path@ == rel,
        FileConfig::Multiple { paths, .. } => exists|i: int|
            0 <= i < paths@.len() && (#[trigger] paths@[i])@ == rel,
    }
}

/// The first override naming this relative path; lookup is by exact string
/// equality, never by pattern.
pub open spec fn spec_file_config(files: Seq<FileConfig>, rel: Seq<char>) -> Option<FileConfig>
    decreases files.len(),
{
    if files.len() == 0 {
        None
    } else if config_matches(files[0], rel) {
        Some(files[0])
    } else {
        spec_file_config(files.drop_first(), rel)
    }
}

#[verifier::loop_isolation(false)]
fn file_config_matches(fc: &FileConfig, rel: &str) -> (r: bool)
    ensures
        r == config_matches(*fc, rel@),
{
    match fc {
        FileConfig::Single { path, .. } => str_eq(path.as_str(), rel),
        FileConfig::Multiple { paths, .. } => {
            let mut i: usize = 0;
            while i < paths.len()
                invariant
                    0 <= i <= paths@.len(),
                    forall|j: int| 0 <= j < i ==> (#[trigger] paths@[j])@ != rel@,
                decreases paths@.len() - i,
            {
                if str_eq(paths[i].as_str(), rel) {
                    proof {
                        assert((#[trigger] paths@[i as int])@ == rel@);
                    }
                    return true;
                }
                i = i + 1;
            }
            false
        },
    }
}

/// The explicit override for this relative path, if the configuration
/// declares one.
#[verifier::loop_isolation(false)]
pub fn get_file_config<'a>(metadata: Option<&'a TemplateMetadata>, relative_path: &str) -> (r:
    Option<&'a FileConfig>)
    ensures
        match metadata {
            None => r is None,
            Some(m) => match r {
                Some(fc) => spec_file_config(m.files@, relative_path@) == Some(*fc),
                None => spec_file_config(m.files@, relative_path@) is None,
            },
        },
{
    match metadata {
        None => None,
        Some(m) => {
            let n = m.files.len();
            proof {
                assert(m.files@.subrange(0, n as int) =~= m.files@);
            }
            let mut i: usize = 0;
            while i < n
                invariant
                    0 <= i <= n,
                    n == m.files@.len(),
                    spec_file_config(m.files@, relative_path@) == spec_file_config(
                        m.files@.subrange(i as int, n as int),
                        relative_path@,
                    ),
                decreases n - i,
            {
                proof {
                    assert(m.files@.subrange(i as int, n as int)[0] == m.files@[i as int]);
                    assert(m.files@.subrange(i as int, n as int).drop_first() =~= m.files@.subrange(
                        i as int + 1,
                        n as int,
                    ));
                }
                if file_config_matches(&m.files[i], relative_path) {
                    proof {
                        assert(spec_file_config(
                            m.files@.subrange(i as int, n as int),
                            relative_path@,
                        ) == Some(m.files@[i as int]));
                    }
                    return Some(&m.files[i]);
                }
                i = i + 1;
            }
            proof {
                assert(m.files@.subrange(n as int, n as int) =~= Seq::<FileConfig>::empty());
            }
            None
        },
    }
}

} // verus!
