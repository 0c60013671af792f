//! The decisions behind the command line: which template source the
//! arguments name, which fuzzer and integration are chosen or must be
//! asked for, and the hint command echoed after a prompted run. Parsing
//! argv and prompting are the caller's side of the boundary.

use vstd::prelude::*;

use crate::repo::{find_template_case_insensitive, spec_find_ci, spec_name_known};
use crate::strutil::{str_eq, str_starts_with};
use crate::types::{FuzzerConfig, FuzzerOption, IntegrationConfig, IntegrationOption,
    TemplateMetadata, TemplateSource};

verus! {

/// The command-line arguments, as plain values.
#[derive(Debug)]
pub struct Args {
    pub project_name_pos: Option<String>,
    pub project: Option<String>,
    pub language: Option<String>,
    pub integration: Option<String>,
    pub fuzzer: Option<String>,
    pub template: Option<String>,
    pub minimal: bool,
    pub generate_docs: bool,
    pub dev_mode: bool,
    pub watch: Option<String>,
    pub dev_output: Option<String>,
}

/// Whether minimal mode was requested: the flag alone decides, whatever
/// the template source.
pub fn determine_minimal_mode(args: &Args, _template_source: &TemplateSource) -> (r: bool)
    ensures
        r == args.minimal,
{
    args.minimal
}

/// Why no template source could be resolved from the arguments.
#[derive(Debug, PartialEq, Eq, Clone, Copy)]
pub enum SourceError {
    BothGiven,
    UnknownLanguage,
    UnknownTemplate,
}

/// Whether a template argument names a remote source.
pub open spec fn spec_is_remote(t: Seq<char>) -> bool {
    "github:"@.is_prefix_of(t) || (t.len() >= 1 && t[0] == '@')
}

/// Resolves the template source the arguments name. A language is looked
/// up case-insensitively in the registry; a template argument is remote
/// when it carries a remote prefix, else it is looked up like a language;
/// giving both is an error; giving neither leaves the choice to a prompt
/// (`Ok(None)`).
pub fn resolve_template_source(args: &Args, available_templates: &Vec<String>) -> (r: Result<
    Option<TemplateSource>,
    SourceError,
>)
    ensures
        match (args.language, args.template) {
            (Some(lang), None) => match spec_find_ci(available_templates@, lang@) {
                Some(t) => r matches Ok(Some(TemplateSource::Local(s))) && s@ == t,
                None => r == Err::<Option<TemplateSource>, SourceError>(
                    SourceError::UnknownLanguage,
                ),
            },
            (None, Some(tpl)) => if spec_is_remote(tpl@) {
                r matches Ok(Some(TemplateSource::GitHubFull(s))) && s@ == tpl@
            } else {
                match spec_find_ci(available_templates@, tpl@) {
                    Some(t) => r matches Ok(Some(TemplateSource::Local(s))) && s@ == t,
                    None => r == Err::<Option<TemplateSource>, SourceError>(
                        SourceError::UnknownTemplate,
                    ),
                }
            },
            (Some(_), Some(_)) => r == Err::<Option<TemplateSource>, SourceError>(
                SourceError::BothGiven,
            ),
            (None, None) => r == Ok::<Option<TemplateSource>, SourceError>(None),
        },
{
    match (&args.language, &args.template) {
        (Some(language), None) => {
            match find_template_case_insensitive(language.as_str(), available_templates) {
                Some(actual) => Ok(Some(TemplateSource::Local(actual))),
                None => Err(SourceError::UnknownLanguage),
            }
        },
        (None, Some(template)) => {
            let is_remote = str_starts_with(template.as_str(), "github:") || (
            template.unicode_len() >= 1 && template.as_str().get_char(0) == '@');
            if is_remote {
                Ok(Some(TemplateSource::GitHubFull(template.clone())))
            } else {
                match find_template_case_insensitive(template.as_str(), available_templates) {
                    Some(actual) => Ok(Some(TemplateSource::Local(actual))),
                    None => Err(SourceError::UnknownTemplate),
                }
            }
        },
        (Some(_), Some(_)) => Err(SourceError::BothGiven),
        (None, None) => Ok(None),
    }
}

/// How a choice is settled: taken as given, owed to a prompt, or refused.
#[derive(Debug, PartialEq, Eq)]
pub enum SelectionPlan {
    Chosen(String),
    NeedPrompt,
    Unsupported,
}

/// Settles the fuzzer choice: an explicit argument is validated against
/// the template's supported list when one is declared; with no argument, a
/// single supported fuzzer is taken, several leave the choice to a prompt,
/// and a template that declares none falls back to `libfuzzer`.
pub fn plan_fuzzer_selection(requested: Option<&String>, fuzzers: Option<&FuzzerConfig>) -> (r:
    SelectionPlan)
    ensures
        match requested {
            Some(f) => match fuzzers {
                Some(fc) => if spec_name_known(fc.supported@, f@) {
                    r matches SelectionPlan::Chosen(s) && s@ == f@
                } else {
                    r is Unsupported
                },
                None => r matches SelectionPlan::Chosen(s) && s@ == f@,
            },
            None => match fuzzers {
                Some(fc) => if fc.supported@.len() == 1 {
                    r matches SelectionPlan::Chosen(s) && s@ == fc.supported@[0]@
                } else {
                    r is NeedPrompt
                },
                None => r matches SelectionPlan::Chosen(s) && s@ == "libfuzzer"@,
            },
        },
{
    match requested {
        Some(f) => {
            match fuzzers {
                Some(fc) => {
                    if contains_name(&fc.supported, f.as_str()) {
                        SelectionPlan::Chosen(f.clone())
                    } else {
                        SelectionPlan::Unsupported
                    }
                },
                None => SelectionPlan::Chosen(f.clone()),
            }
        },
        None => {
            match fuzzers {
                Some(fc) => {
                    if fc.supported.len() == 1 {
                        SelectionPlan::Chosen(fc.supported[0].clone())
                    } else {
                        SelectionPlan::NeedPrompt
                    }
                },
                None => SelectionPlan::Chosen(String::from_str("libfuzzer")),
            }
        },
    }
}

#[verifier::loop_isolation(false)]
fn contains_name(list: &Vec<String>, name: &str) -> (r: bool)
    ensures
        r == spec_name_known(list@, name@),
{
    let n = list.len();
    let mut i: usize = 0;
    while i < n
        invariant
            0 <= i <= n,
            forall|j: int| 0 <= j < i ==> (#[trigger] list@[j])@ != name@,
        decreases n - i,
    {
        if str_eq(list[i].as_str(), name) {
            proof {
                assert((#[trigger] list@[i as int])@ == name@);
            }
            return true;
        }
        i = i + 1;
    }
    false
}

/// How the integration choice is settled; unlike the fuzzer it has no
/// built-in fallback, so a template that declares none, or a run without a
/// configuration document, is refused.
#[derive(Debug, PartialEq, Eq)]
pub enum IntegrationPlan {
    Chosen(String),
    NeedPrompt,
    Unsupported,
    NoneDefined,
    NoMetadata,
}

/// Settles the integration choice from the argument and the configuration.
pub fn plan_integration_selection(
    requested: Option<&String>,
    metadata: Option<&TemplateMetadata>,
) -> (r: IntegrationPlan)
    ensures
        match requested {
            Some(it) => match metadata {
                Some(m) => match m.integrations {
                    Some(ic) => if spec_name_known(ic.supported@, it@) {
                        r matches IntegrationPlan::Chosen(s) && s@ == it@
                    } else {
                        r is Unsupported
                    },
                    None => r matches IntegrationPlan::Chosen(s) && s@ == it@,
                },
                None => r matches IntegrationPlan::Chosen(s) && s@ == it@,
            },
            None => match metadata {
                Some(m) => match m.integrations {
                    Some(ic) => if ic.supported@.len() == 1 {
                        r matches IntegrationPlan::Chosen(s) && s@ == ic.supported@[0]@
                    } else {
                        r is NeedPrompt
                    },
                    None => r is NoneDefined,
                },
                None => r is NoMetadata,
            },
        },
{
    match requested {
        Some(it) => {
            match metadata {
                Some(m) => {
                    match &m.integrations {
                        Some(ic) => {
                            if contains_name(&ic.supported, it.as_str()) {
                                IntegrationPlan::Chosen(it.clone())
                            } else {
                                IntegrationPlan::Unsupported
                            }
                        },
                        None => IntegrationPlan::Chosen(it.clone()),
                    }
                },
                None => IntegrationPlan::Chosen(it.clone()),
            }
        },
        None => {
            match metadata {
                Some(m) => {
                    match &m.integrations {
                        Some(ic) => {
                            if ic.supported.len() == 1 {
                                IntegrationPlan::Chosen(ic.supported[0].clone())
                            } else {
                                IntegrationPlan::NeedPrompt
                            }
                        },
                        None => IntegrationPlan::NoneDefined,
                    }
                },
                None => IntegrationPlan::NoMetadata,
            }
        },
    }
}

/// The label a chooser shows for one option: `name - description`.
pub open spec fn spec_labeled(name: Seq<char>, description: Seq<char>) -> Seq<char> {
    name + " - "@ + description
}

/// The chooser labels for a template's fuzzers, by display name.
#[verifier::loop_isolation(false)]
pub fn fuzzer_display_options(fc: &FuzzerConfig) -> (r: Vec<String>)
    ensures
        r@.len() == fc.options@.len(),
        forall|i: int|
            0 <= i < r@.len() ==> (#[trigger] r@[i])@ == spec_labeled(
                fc.options@[i].display_name@,
                fc.options@[i].description@,
            ),
{
    let mut out: Vec<String> = Vec::new();
    let n = fc.options.len();
    let mut i: usize = 0;
    while i < n
        invariant
            0 <= i <= n,
            out@.len() == i,
            forall|j: int|
                0 <= j < i ==> (#[trigger] out@[j])@ == spec_labeled(
                    fc.options@[j].display_name@,
                    fc.options@[j].description@,
                ),
        decreases n - i,
    {
        let mut s = fc.options[i].display_name.clone();
        s.append(" - ");
        s.append(fc.options[i].description.as_str());
        out.push(s);
        i = i + 1;
    }
    out
}

/// The fuzzer name behind a chosen display name: the first option bearing
/// it, or the template's default when none does.
pub open spec fn spec_fuzzer_for_display(
    options: Seq<FuzzerOption>,
    display: Seq<char>,
    dflt: Seq<char>,
) -> Seq<char>
    decreases options.len(),
{
    if options.len() == 0 {
        dflt
    } else if options[0].display_name@ == display {
        options[0].name@
    } else {
        spec_fuzzer_for_display(options.drop_first(), display, dflt)
    }
}

/// Maps a prompted display name back to the fuzzer's own name.
#[verifier::loop_isolation(false)]
pub fn fuzzer_name_for_display(fc: &FuzzerConfig, display: &str) -> (r: String)
    ensures
        r@ == spec_fuzzer_for_display(fc.options@, display@, fc.default@),
{
    let n = fc.options.len();
    proof {
        assert(fc.options@.subrange(0, n as int) =~= fc.options@);
    }
    let mut i: usize = 0;
    while i < n
        invariant
            0 <= i <= n,
            spec_fuzzer_for_display(fc.options@, display@, fc.default@) == spec_fuzzer_for_display(
                fc.options@.subrange(i as int, n as int),
                display@,
                fc.default@,
            ),
        decreases n - i,
    {
        proof {
            assert(fc.options@.subrange(i as int, n as int)[0] == fc.options@[i as int]);
            assert(fc.options@.subrange(i as int, n as int).drop_first() =~= fc.options@.subrange(
                i as int + 1,
                n as int,
            ));
        }
        if str_eq(fc.options[i].display_name.as_str(), display) {
            return fc.options[i].name.clone();
        }
        i = i + 1;
    }
    proof {
        assert(fc.options@.subrange(n as int, n as int) =~= Seq::<FuzzerOption>::empty());
    }
    fc.default.clone()
}

/// The chooser labels for a template's integrations, by name.
#[verifier::loop_isolation(false)]
pub fn integration_display_options(ic: &IntegrationConfig) -> (r: Vec<String>)
    ensures
        r@.len() == ic.options@.len(),
        forall|i: int|
            0 <= i < r@.len() ==> (#[trigger] r@[i])@ == spec_labeled(
                ic.options@[i].name@,
                ic.options@[i].description@,
            ),
{
    let mut out: Vec<String> = Vec::new();
    let n = ic.options.len();
    let mut i: usize = 0;
    while i < n
        invariant
            0 <= i <= n,
            out@.len() == i,
            forall|j: int|
                0 <= j < i ==> (#[trigger] out@[j])@ == spec_labeled(
                    ic.options@[j].name@,
                    ic.options@[j].description@,
                ),
        decreases n - i,
    {
        let mut s = ic.options[i].name.clone();
        s.append(" - ");
        s.append(ic.options[i].description.as_str());
        out.push(s);
        i = i + 1;
    }
    out
}

/// The first position whose option bears this name, or -1.
pub open spec fn spec_first_named(options: Seq<IntegrationOption>, name: Seq<char>) -> int
    decreases options.len(),
{
    if options.len() == 0 {
        -1
    } else if options[0].name@ == name {
        0
    } else {
        let r = spec_first_named(options.drop_first(), name);
        if r < 0 {
            -1
        } else {
            r + 1
        }
    }
}

/// The options with the default one moved to the front, the rest keeping
/// their order; unchanged when no option bears the default name.
#[verifier::loop_isolation(false)]
pub fn options_with_default_first(options: &Vec<IntegrationOption>, default_name: &str) -> (r: Vec<
    IntegrationOption,
>)
    ensures
        ({
            let k = spec_first_named(options@, default_name@);
            if k >= 0 {
                r@ == seq![options@[k]] + options@.subrange(0, k) + options@.subrange(
                    k + 1,
                    options@.len() as int,
                )
            } else {
                r@ == options@
            }
        }),
{
    let n = options.len();
    proof {
        assert(options@.subrange(0, n as int) =~= options@);
    }
    let mut pos: Option<usize> = None;
    let mut i: usize = 0;
    while i < n
        invariant
            0 <= i <= n,
            pos is None,
            spec_first_named(options@, default_name@) == ({
                let rest = spec_first_named(options@.subrange(i as int, n as int), default_name@);
                if rest < 0 {
                    -1
                } else {
                    rest + i
                }
            }),
        decreases n - i,
    {
        proof {
            assert(options@.subrange(i as int, n as int)[0] == options@[i as int]);
            assert(options@.subrange(i as int, n as int).drop_first() =~= options@.subrange(
                i as int + 1,
                n as int,
            ));
        }
        if str_eq(options[i].name.as_str(), default_name) {
            pos = Some(i);
            break;
        }
        i = i + 1;
    }
    proof {
        if pos is None {
            assert(options@.subrange(n as int, n as int) =~= Seq::<IntegrationOption>::empty());
        }
    }
    let ghost k = spec_first_named(options@, default_name@);
    match pos {
        None => {
            let mut out: Vec<IntegrationOption> = Vec::new();
            let mut j: usize = 0;
            while j < n
                invariant
                    0 <= j <= n,
                    out@ =~= options@.subrange(0, j as int),
                decreases n - j,
            {
                out.push(options[j].clone());
                proof {
                    assert(out@ =~= options@.subrange(0, j as int + 1));
                }
                j = j + 1;
            }
            proof {
                assert(options@.subrange(0, n as int) =~= options@);
            }
            out
        },
        Some(p) => {
            let mut out: Vec<IntegrationOption> = Vec::new();
            out.push(options[p].clone());
            let mut j: usize = 0;
            while j < n
                invariant
                    0 <= j <= n,
                    p < n,
                    p as int == k,
                    out@ =~= seq![options@[k]] + options@.subrange(0, if j <= p {
                        j as int
                    } else {
                        p as int
                    }) + if j <= p {
                        Seq::<IntegrationOption>::empty()
                    } else {
                        options@.subrange(p as int + 1, j as int)
                    },
                decreases n - j,
            {
                if j != p {
                    out.push(options[j].clone());
                }
                proof {
                    if j < p {
                        assert(out@ =~= seq![options@[k]] + options@.subrange(0, j as int + 1)
                            + Seq::<IntegrationOption>::empty());
                    } else if j == p {
                        assert(out@ =~= seq![options@[k]] + options@.subrange(0, p as int)
                            + options@.subrange(p as int + 1, j as int + 1));
                    } else {
                        assert(out@ =~= seq![options@[k]] + options@.subrange(0, p as int)
                            + options@.subrange(p as int + 1, j as int + 1));
                    }
                }
                j = j + 1;
            }
            out
        },
    }
}

/// The command echoed after a prompted run, recreating it without prompts.
pub open spec fn spec_cli_hint(
    project: Seq<char>,
    src: TemplateSource,
    fuzzer: Seq<char>,
    integration: Seq<char>,
    minimal: bool,
) -> Seq<char> {
    "fuzz-init"@ + " "@ + project + (match src {
        TemplateSource::Local(lang) => " --language "@ + lang@,
        TemplateSource::GitHubFull(_) => Seq::<char>::empty(),
    }) + " --fuzzer "@ + fuzzer + " --integration "@ + integration + (if minimal {
        " --minimal"@
    } else {
        Seq::<char>::empty()
    })
}

/// Builds the hint command.
pub fn build_cli_hint(
    project_name: &str,
    template_source: &TemplateSource,
    fuzzer: &str,
    integration: &str,
    minimal: bool,
) -> (r: String)
    ensures
        r@ == spec_cli_hint(project_name@, *template_source, fuzzer@, integration@, minimal),
{
    let mut out = String::from_str("fuzz-init");
    out.append(" ");
    out.append(project_name);
    match template_source {
        TemplateSource::Local(lang) => {
            out.append(" --language ");
            out.append(lang.as_str());
        },
        TemplateSource::GitHubFull(_) => {},
    }
    out.append(" --fuzzer ");
    out.append(fuzzer);
    out.append(" --integration ");
    out.append(integration);
    if minimal {
        out.append(" --minimal");
    }
    proof {
        assert(out@ =~= spec_cli_hint(project_name@, *template_source, fuzzer@, integration@,
            minimal));
    }
    out
}

} // verus!
