//! The decisions behind template development mode: argument validation,
//! the matrix of configurations to test, and the names shown for them.
//! Running builds, watching files, and temporary directories are the
//! caller's side of the boundary.

use vstd::prelude::*;

use crate::cli::Args;
use crate::strutil::str_eq;
use crate::types::TemplateMetadata;

verus! {

/// One configuration of the test matrix.
#[derive(Debug, PartialEq, Eq)]
pub struct TestConfiguration {
    pub language: String,
    pub integration: String,
    pub minimal: bool,
}

impl Clone for TestConfiguration {
    fn clone(&self) -> (r: TestConfiguration)
        ensures
            r == *self,
    {
        TestConfiguration {
            language: self.language.clone(),
            integration: self.integration.clone(),
            minimal: self.minimal,
        }
    }
}

/// What one test of the matrix came to.
#[derive(Debug)]
pub struct TestResult {
    pub config: TestConfiguration,
    pub success: bool,
    pub duration_ms: u64,
    pub error: Option<String>,
    pub build_log: String,
}

/// Why development mode refuses its arguments.
#[derive(Debug, PartialEq, Eq, Clone, Copy)]
pub enum DevModeArgError {
    NotDevMode,
    MissingSource,
    ProjectNameGiven,
}

/// Validates the arguments for development mode: the mode flag must be
/// set, a language or template must name what to test, and no project
/// name may be given since temporary names are used.
pub fn validate_dev_mode_args(args: &Args) -> (r: Result<(), DevModeArgError>)
    ensures
        !args.dev_mode ==> r == Err::<(), DevModeArgError>(DevModeArgError::NotDevMode),
        args.dev_mode && args.language is None && args.template is None ==> r == Err::<
            (),
            DevModeArgError,
        >(DevModeArgError::MissingSource),
        args.dev_mode && (args.language is Some || args.template is Some) && (
        args.project_name_pos is Some || args.project is Some) ==> r == Err::<
            (),
            DevModeArgError,
        >(DevModeArgError::ProjectNameGiven),
        args.dev_mode && (args.language is Some || args.template is Some)
            && args.project_name_pos is None && args.project is None ==> r == Ok::<
            (),
            DevModeArgError,
        >(()),
{
    if !args.dev_mode {
        return Err(DevModeArgError::NotDevMode);
    }
    if args.language.is_none() && args.template.is_none() {
        return Err(DevModeArgError::MissingSource);
    }
    if args.project_name_pos.is_some() || args.project.is_some() {
        return Err(DevModeArgError::ProjectNameGiven);
    }
    Ok(())
}

/// The integrations the matrix covers: the explicit argument alone when
/// one is given; else what the template declares; else `script`.
pub open spec fn spec_integrations_to_test(
    args: Args,
    metadata: Option<TemplateMetadata>,
) -> Seq<Seq<char>> {
    match args.integration {
        Some(i) => seq![i@],
        None => match metadata {
            Some(m) => match m.integrations {
                Some(ic) => ic.supported@.map_values(|s: String| s@),
                None => seq!["script"@],
            },
            None => seq!["script"@],
        },
    }
}

/// The configurations to test: every integration crossed with every mode;
/// only minimal when `--minimal` was given, else full then minimal for
/// each integration.
#[verifier::loop_isolation(false)]
pub fn generate_test_configurations(
    language: &str,
    args: &Args,
    metadata: Option<&TemplateMetadata>,
) -> (r: Vec<TestConfiguration>)
    ensures
        ({
            let ints = spec_integrations_to_test(*args, crate::policy::opt_meta(metadata));
            if args.minimal {
                r@.len() == ints.len() && forall|k: int|
                    0 <= k < ints.len() ==> (#[trigger] r@[k]).language@ == language@
                        && r@[k].integration@ == ints[k] && r@[k].minimal == true
            } else {
                r@.len() == 2 * ints.len() && forall|j: int|
                    0 <= j < r@.len() ==> (#[trigger] r@[j]).language@ == language@
                        && r@[j].integration@ == ints[j / 2] && r@[j].minimal == (j % 2 == 1)
            }
        }),
{
    let ghost ints = spec_integrations_to_test(*args, crate::policy::opt_meta(metadata));
    let mut to_test: Vec<String> = Vec::new();
    match &args.integration {
        Some(i) => {
            to_test.push(i.clone());
        },
        None => {
            match metadata {
                Some(m) => {
                    match &m.integrations {
                        Some(ic) => {
                            let n = ic.supported.len();
                            let mut i: usize = 0;
                            while i < n
                                invariant
                                    0 <= i <= n,
                                    to_test@.len() == i,
                                    forall|j: int|
                                        0 <= j < i ==> (#[trigger] to_test@[j])@
                                            == ic.supported@[j]@,
                                decreases n - i,
                            {
                                to_test.push(ic.supported[i].clone());
                                i = i + 1;
                            }
                        },
                        None => {
                            to_test.push(String::from_str("script"));
                        },
                    }
                },
                None => {
                    to_test.push(String::from_str("script"));
                },
            }
        },
    }
    proof {
        assert(to_test@.map_values(|s: String| s@) =~= ints);
    }
    let n = to_test.len();
    let mut configs: Vec<TestConfiguration> = Vec::new();
    if args.minimal {
        let mut i: usize = 0;
        while i < n
            invariant
                0 <= i <= n,
                n == ints.len(),
                to_test@.map_values(|s: String| s@) == ints,
                configs@.len() == i,
                forall|k: int|
                    0 <= k < i ==> (#[trigger] configs@[k]).language@ == language@
                        && configs@[k].integration@ == ints[k] && configs@[k].minimal == true,
            decreases n - i,
        {
            configs.push(
                TestConfiguration {
                    language: language.to_owned(),
                    integration: to_test[i].clone(),
                    minimal: true,
                },
            );
            i = i + 1;
        }
    } else {
        let mut i: usize = 0;
        while i < n
            invariant
                0 <= i <= n,
                n == ints.len(),
                configs@.len() == 2 * i,
                forall|j: int|
                    0 <= j < configs@.len() ==> (#[trigger] configs@[j]).language@ == language@
                        && configs@[j].integration@ == ints[j / 2] && configs@[j].minimal == (j % 2
                        == 1),
            decreases n - i,
        {
            let ghost before = configs@;
            let c0 = TestConfiguration {
                language: language.to_owned(),
                integration: to_test[i].clone(),
                minimal: false,
            };
            let ghost c0v = c0;
            configs.push(c0);
            let c1 = TestConfiguration {
                language: language.to_owned(),
                integration: to_test[i].clone(),
                minimal: true,
            };
            let ghost c1v = c1;
            configs.push(c1);
            proof {
                assert(configs@ == before.push(c0v).push(c1v));
                assert forall|j: int|
                    0 <= j < configs@.len() implies (#[trigger] configs@[j]).language@ == language@
                    && configs@[j].integration@ == ints[j / 2] && configs@[j].minimal == (j % 2
                    == 1) by {
                    if j < before.len() {
                        assert(configs@[j] == before[j]);
                    } else if j == before.len() {
                        assert(configs@[j] == c0v);
                        assert(j == 2 * i && j / 2 == i as int && j % 2 == 0);
                    } else {
                        assert(configs@[j] == c1v);
                        assert(j == 2 * i + 1 && j / 2 == i as int && j % 2 == 1);
                    }
                }
            }
            i = i + 1;
        }
    }
    configs
}

/// The label a report shows for one configuration.
pub open spec fn spec_config_name(c: TestConfiguration) -> Seq<char> {
    c.integration@ + "  + "@ + (if c.minimal {
        "minimal"@
    } else {
        "full"@
    })
}

/// Formats a configuration's label: the integration and the mode.
pub fn format_config_name(config: &TestConfiguration) -> (r: String)
    ensures
        r@ == spec_config_name(*config),
{
    let mut out = config.integration.clone();
    out.append("  + ");
    if config.minimal {
        out.append("minimal");
    } else {
        out.append("full");
    }
    out
}

/// The temporary project name one test generates into.
pub open spec fn spec_test_project_name(c: TestConfiguration) -> Seq<char> {
    "test-"@ + c.language@ + "-"@ + c.integration@ + "-"@ + (if c.minimal {
        "min"@
    } else {
        "full"@
    })
}

/// Names the throwaway project for one configuration.
pub fn test_project_name(config: &TestConfiguration) -> (r: String)
    ensures
        r@ == spec_test_project_name(*config),
{
    let mut out = String::from_str("test-");
    out.append(config.language.as_str());
    out.append("-");
    out.append(config.integration.as_str());
    out.append("-");
    if config.minimal {
        out.append("min");
    } else {
        out.append("full");
    }
    proof {
        assert(out@ =~= spec_test_project_name(*config));
    }
    out
}

/// Which build path a configuration's integration takes.
#[derive(Debug, PartialEq, Eq, Clone, Copy)]
pub enum BuildKind {
    Standalone,
    Makefile,
    CMake,
    Unsupported,
}

/// Classifies the integration for the build step; anything but the three
/// known kinds is unsupported.
pub fn classify_build_integration(integration: &str) -> (r: BuildKind)
    ensures
        r == (if integration@ == "standalone"@ {
            BuildKind::Standalone
        } else if integration@ == "make"@ {
            BuildKind::Makefile
        } else if integration@ == "cmake"@ {
            BuildKind::CMake
        } else {
            BuildKind::Unsupported
        }),
{
    if str_eq(integration, "standalone") {
        BuildKind::Standalone
    } else if str_eq(integration, "make") {
        BuildKind::Makefile
    } else if str_eq(integration, "cmake") {
        BuildKind::CMake
    } else {
        BuildKind::Unsupported
    }
}

/// How many results of a run succeeded.
pub fn count_successes(results: &Vec<TestResult>) -> (r: usize)
    ensures
        r as int == results@.filter(|t: TestResult| t.success).len(),
{
    let n = results.len();
    let mut count: usize = 0;
    let mut i: usize = 0;
    proof {
        assert(results@.take(0int).filter(|t: TestResult| t.success) =~= Seq::<
            TestResult,
        >::empty());
    }
    while i < n
        invariant
            0 <= i <= n,
            n == results@.len(),
            count as int == results@.take(i as int).filter(|t: TestResult| t.success).len(),
            count <= i,
        decreases n - i,
    {
        proof {
            assert(results@.take(i as int + 1).drop_last() =~= results@.take(i as int));
            reveal(Seq::filter);
        }
        if results[i].success {
            count = count + 1;
        }
        i = i + 1;
    }
    proof {
        assert(results@.take(n as int) =~= results@);
    }
    count
}

} // verus!
