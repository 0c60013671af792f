//! The inclusion and rendering policy: for each path in a template tree,
//! explicit per-file overrides, naming conventions, and the condition
//! evaluator together decide whether the file is kept, whether its content
//! and name are substituted, and whether it is marked executable.

use vstd::prelude::*;

use crate::condition::{evaluate_condition, spec_eval_condition};
use crate::context::{minimal_of, ContextValue, RenderContext};
use crate::strutil::{str_eq, str_starts_with};
use crate::types::{get_file_config, spec_file_config, FileConventions, TemplateMetadata};

verus! {

/// What the policy decides for one file.
#[derive(Debug, PartialEq, Eq)]
pub struct RenderDecision {
    pub included: bool,
    pub template_content: bool,
    pub template_filename: bool,
    pub executable: bool,
}

/// The configuration a borrowed argument stands for.
pub open spec fn opt_meta(metadata: Option<&TemplateMetadata>) -> Option<TemplateMetadata> {
    match metadata {
        Some(m) => Some(*m),
        None => None,
    }
}

/// Whether some `always_include` entry is a prefix of this path.
pub open spec fn spec_always_kept(conv: FileConventions, rel: Seq<char>) -> bool {
    exists|i: int|
        0 <= i < conv.always_include@.len() && (#[trigger] conv.always_include@[i])@.is_prefix_of(
            rel,
        )
}

/// Whether some `full_mode_only` entry equals this name exactly.
pub open spec fn spec_full_mode_entry(conv: FileConventions, name: Seq<char>) -> bool {
    exists|i: int|
        0 <= i < conv.full_mode_only@.len() && (#[trigger] conv.full_mode_only@[i])@ == name
}

/// The convention fallback for inclusion: an `always_include` prefix keeps
/// the file; failing that, in minimal mode a path exactly matching a
/// `full_mode_only` entry is dropped; everything else is kept.
pub open spec fn spec_included_by_convention(
    conv: FileConventions,
    rel: Seq<char>,
    minimal: bool,
) -> bool {
    if spec_always_kept(conv, rel) {
        true
    } else if minimal && spec_full_mode_entry(conv, rel) {
        false
    } else {
        true
    }
}

/// Whether a file at `rel` is kept: an explicit per-file condition decides
/// alone when one is declared; otherwise the conventions decide; with no
/// configuration document everything is kept.
pub open spec fn spec_included_file(
    metadata: Option<TemplateMetadata>,
    rel: Seq<char>,
    entries: Seq<(String, ContextValue)>,
) -> bool {
    match metadata {
        None => true,
        Some(m) => {
            let fc = spec_file_config(m.files@, rel);
            if fc is Some && fc->Some_0.spec_condition() is Some {
                spec_eval_condition(fc->Some_0.spec_condition()->Some_0@, entries)
            } else {
                spec_included_by_convention(m.file_conventions, rel, minimal_of(entries))
            }
        },
    }
}

/// The position after the last `.` of the name, or -1 when it has none.
pub open spec fn last_dot(name: Seq<char>) -> int
    decreases name.len(),
{
    if name.len() == 0 {
        -1
    } else if name.last() == '.' {
        name.len() - 1
    } else {
        last_dot(name.drop_last())
    }
}

/// The extension of a file name: what follows its last `.`.
pub open spec fn spec_extension(name: Seq<char>) -> Option<Seq<char>> {
    let i = last_dot(name);
    if i >= 0 {
        Some(name.subrange(i + 1, name.len() as int))
    } else {
        None
    }
}

/// Whether the name's extension equals some entry of the list.
pub open spec fn spec_ext_in(list: Seq<String>, name: Seq<char>) -> bool {
    spec_extension(name) is Some && exists|i: int|
        0 <= i < list.len() && (#[trigger] list[i])@ == spec_extension(name)->Some_0
}

/// The built-in text-file heuristic: well-known build-file names, and a
/// list of common source and markup extensions.
pub open spec fn spec_text_name(name: Seq<char>) -> bool {
    name == "Makefile"@ || name == "CMakeLists.txt"@ || name == "Dockerfile"@ || name == "README"@
        || name == "LICENSE"@ || name == ".gitignore"@ || name == ".clang-format"@
}

pub open spec fn spec_text_ext(e: Seq<char>) -> bool {
    e == "c"@ || e == "h"@ || e == "cpp"@ || e == "hpp"@ || e == "cc"@ || e == "hh"@ || e == "cxx"@
        || e == "rs"@ || e == "py"@ || e == "go"@ || e == "java"@ || e == "js"@ || e == "ts"@ || e
        == "txt"@ || e == "md"@ || e == "toml"@ || e == "yaml"@ || e == "yml"@ || e == "json"@ || e
        == "xml"@ || e == "html"@ || e == "css"@ || e == "sh"@ || e == "bash"@ || e == "mk"@ || e
        == "cmake"@ || e == "cfg"@ || e == "conf"@ || e == "ini"@ || e == "in"@ || e == "options"@
        || e == "dict"@
}

pub open spec fn spec_text_by_heuristic(name: Seq<char>) -> bool {
    spec_text_name(name) || (spec_extension(name) is Some && spec_text_ext(
        spec_extension(name)->Some_0,
    ))
}

/// Whether the file's content and name go through substitution: the
/// explicit `template` flag when an override exists; else the configured
/// extension lists, `no_template_extensions` winning over
/// `template_extensions`; else the built-in text heuristic.
pub open spec fn spec_template_content(
    metadata: Option<TemplateMetadata>,
    rel: Seq<char>,
    name: Seq<char>,
) -> bool {
    match metadata {
        None => spec_text_by_heuristic(name),
        Some(m) => {
            let fc = spec_file_config(m.files@, rel);
            if fc is Some {
                fc->Some_0.spec_template()
            } else {
                let conv = m.file_conventions;
                if spec_ext_in(conv.no_template_extensions@, name) {
                    false
                } else if spec_ext_in(conv.template_extensions@, name) {
                    true
                } else if conv.template_extensions@.len() > 0 {
                    false
                } else {
                    spec_text_by_heuristic(name)
                }
            }
        },
    }
}

/// Whether the written file is marked executable: the explicit flag when an
/// override exists; else the `executable_extensions` convention; else the
/// source file's own permission bit, which the caller passes in.
pub open spec fn spec_executable_decision(
    metadata: Option<TemplateMetadata>,
    rel: Seq<char>,
    name: Seq<char>,
    source_executable: bool,
) -> bool {
    match metadata {
        None => source_executable,
        Some(m) => {
            let fc = spec_file_config(m.files@, rel);
            if fc is Some {
                fc->Some_0.spec_executable()
            } else if spec_ext_in(m.file_conventions.executable_extensions@, name) {
                true
            } else {
                source_executable
            }
        },
    }
}

/// The whole decision record for one file.
pub open spec fn spec_decide_file(
    metadata: Option<TemplateMetadata>,
    rel: Seq<char>,
    name: Seq<char>,
    entries: Seq<(String, ContextValue)>,
    source_executable: bool,
) -> RenderDecision {
    RenderDecision {
        included: spec_included_file(metadata, rel, entries),
        template_content: spec_template_content(metadata, rel, name),
        template_filename: spec_template_content(metadata, rel, name),
        executable: spec_executable_decision(metadata, rel, name, source_executable),
    }
}

/// Whether a subdirectory is dropped whole: only at the tree root, only in
/// minimal mode, only when its name is a `full_mode_only` entry, and never
/// when an `always_include` prefix protects it.
pub open spec fn spec_prune_dir(
    metadata: Option<TemplateMetadata>,
    name: Seq<char>,
    at_root: bool,
    entries: Seq<(String, ContextValue)>,
) -> bool {
    match metadata {
        None => false,
        Some(m) => at_root && minimal_of(entries) && spec_full_mode_entry(m.file_conventions, name)
            && !spec_always_kept(m.file_conventions, name),
    }
}

/// Law: an `always_include` prefix keeps a file whatever `full_mode_only`
/// says and whether or not minimal mode is on; the priority order of the
/// convention rules.
pub proof fn lemma_always_kept_wins_file(conv: FileConventions, rel: Seq<char>, minimal: bool)
    requires
        spec_always_kept(conv, rel),
    ensures
        spec_included_by_convention(conv, rel, minimal),
{
}

/// Law: a directory protected by an `always_include` prefix is never
/// dropped whole, even named in `full_mode_only` under minimal mode.
pub proof fn lemma_always_kept_wins_dir(
    m: TemplateMetadata,
    name: Seq<char>,
    at_root: bool,
    entries: Seq<(String, ContextValue)>,
)
    requires
        spec_always_kept(m.file_conventions, name),
    ensures
        !spec_prune_dir(Some(m), name, at_root, entries),
{
}

#[verifier::loop_isolation(false)]
fn always_kept(conv: &FileConventions, rel: &str) -> (r: bool)
    ensures
        r == spec_always_kept(*conv, rel@),
{
    let n = conv.always_include.len();
    let mut i: usize = 0;
    while i < n
        invariant
            0 <= i <= n,
            forall|j: int| 0 <= j < i ==> !(#[trigger] conv.always_include@[j])@.is_prefix_of(rel@),
        decreases n - i,
    {
        if str_starts_with(rel, conv.always_include[i].as_str()) {
            proof {
                assert((#[trigger] conv.always_include@[i as int])@.is_prefix_of(rel@));
            }
            return true;
        }
        i = i + 1;
    }
    false
}

#[verifier::loop_isolation(false)]
fn full_mode_entry(conv: &FileConventions, name: &str) -> (r: bool)
    ensures
        r == spec_full_mode_entry(*conv, name@),
{
    let n = conv.full_mode_only.len();
    let mut i: usize = 0;
    while i < n
        invariant
            0 <= i <= n,
            forall|j: int| 0 <= j < i ==> (#[trigger] conv.full_mode_only@[j])@ != name@,
        decreases n - i,
    {
        if str_eq(conv.full_mode_only[i].as_str(), name) {
            proof {
                assert((#[trigger] conv.full_mode_only@[i as int])@ == name@);
            }
            return true;
        }
        i = i + 1;
    }
    false
}

#[verifier::loop_isolation(false)]
fn extension_of(name: &str) -> (r: Option<&str>)
    ensures
        match r {
            Some(e) => spec_extension(name@) == Some(e@),
            None => spec_extension(name@) is None,
        },
{
    let n = name.unicode_len();
    proof {
        assert(name@.subrange(0, n as int) =~= name@);
    }
    let mut i: usize = n;
    while i > 0
        invariant
            0 <= i <= n,
            n == name@.len(),
            last_dot(name@) == last_dot(name@.subrange(0, i as int)),
        decreases i,
    {
        proof {
            assert(name@.subrange(0, i as int).drop_last() =~= name@.subrange(0, i as int - 1));
            assert(name@.subrange(0, i as int).last() == name@[i as int - 1]);
        }
        if name.get_char(i - 1) == '.' {
            return Some(name.substring_char(i, n));
        }
        i = i - 1;
    }
    proof {
        assert(name@.subrange(0, 0) =~= Seq::<char>::empty());
    }
    None
}

#[verifier::loop_isolation(false)]
fn ext_in_list(list: &Vec<String>, name: &str) -> (r: bool)
    ensures
        r == spec_ext_in(list@, name@),
{
    match extension_of(name) {
        None => false,
        Some(e) => {
            let n = list.len();
            let mut i: usize = 0;
            while i < n
                invariant
                    0 <= i <= n,
                    forall|j: int| 0 <= j < i ==> (#[trigger] list@[j])@ != e@,
                decreases n - i,
            {
                if str_eq(list[i].as_str(), e) {
                    proof {
                        assert((#[trigger] list@[i as int])@ == e@);
                    }
                    return true;
                }
                i = i + 1;
            }
            false
        },
    }
}

fn text_by_heuristic(name: &str) -> (r: bool)
    ensures
        r == spec_text_by_heuristic(name@),
{
    if str_eq(name, "Makefile") || str_eq(name, "CMakeLists.txt") || str_eq(name, "Dockerfile")
        || str_eq(name, "README") || str_eq(name, "LICENSE") || str_eq(name, ".gitignore")
        || str_eq(name, ".clang-format") {
        return true;
    }
    match extension_of(name) {
        None => false,
        Some(e) => str_eq(e, "c") || str_eq(e, "h") || str_eq(e, "cpp") || str_eq(e, "hpp")
            || str_eq(e, "cc") || str_eq(e, "hh") || str_eq(e, "cxx") || str_eq(e, "rs") || str_eq(
            e,
            "py",
        ) || str_eq(e, "go") || str_eq(e, "java") || str_eq(e, "js") || str_eq(e, "ts") || str_eq(
            e,
            "txt",
        ) || str_eq(e, "md") || str_eq(e, "toml") || str_eq(e, "yaml") || str_eq(e, "yml")
            || str_eq(e, "json") || str_eq(e, "xml") || str_eq(e, "html") || str_eq(e, "css")
            || str_eq(e, "sh") || str_eq(e, "bash") || str_eq(e, "mk") || str_eq(e, "cmake")
            || str_eq(e, "cfg") || str_eq(e, "conf") || str_eq(e, "ini") || str_eq(e, "in")
            || str_eq(e, "options") || str_eq(e, "dict"),
    }
}

/// Decides inclusion, substitution, and the executable mark for the file at
/// `rel` named `name`; `source_executable` is the source file's own
/// permission bit, which decides last.
pub fn decide_file(
    metadata: Option<&TemplateMetadata>,
    rel: &str,
    name: &str,
    ctx: &RenderContext,
    source_executable: bool,
) -> (d: RenderDecision)
    ensures
        d == spec_decide_file(opt_meta(metadata), rel@, name@, ctx.entries@, source_executable),
{
    let included = match get_file_config(metadata, rel) {
        Some(fc) => {
            match fc.condition() {
                Some(c) => evaluate_condition(c.as_str(), ctx),
                None => {
                    match metadata {
                        Some(m) => {
                            if always_kept(&m.file_conventions, rel) {
                                true
                            } else if ctx.minimal() && full_mode_entry(&m.file_conventions, rel) {
                                false
                            } else {
                                true
                            }
                        },
                        None => true,
                    }
                },
            }
        },
        None => {
            match metadata {
                Some(m) => {
                    if always_kept(&m.file_conventions, rel) {
                        true
                    } else if ctx.minimal() && full_mode_entry(&m.file_conventions, rel) {
                        false
                    } else {
                        true
                    }
                },
                None => true,
            }
        },
    };
    let template_content = match get_file_config(metadata, rel) {
        Some(fc) => fc.should_template(),
        None => {
            match metadata {
                Some(m) => {
                    if ext_in_list(&m.file_conventions.no_template_extensions, name) {
                        false
                    } else if ext_in_list(&m.file_conventions.template_extensions, name) {
                        true
                    } else if m.file_conventions.template_extensions.len() > 0 {
                        false
                    } else {
                        text_by_heuristic(name)
                    }
                },
                None => text_by_heuristic(name),
            }
        },
    };
    let executable = match get_file_config(metadata, rel) {
        Some(fc) => fc.is_executable(),
        None => {
            match metadata {
                Some(m) => {
                    if ext_in_list(&m.file_conventions.executable_extensions, name) {
                        true
                    } else {
                        source_executable
                    }
                },
                None => source_executable,
            }
        },
    };
    RenderDecision { included, template_content, template_filename: template_content, executable }
}

/// Whether the subdirectory `name` is dropped whole before descending.
pub fn should_prune_dir(
    metadata: Option<&TemplateMetadata>,
    name: &str,
    at_root: bool,
    ctx: &RenderContext,
) -> (r: bool)
    ensures
        r == spec_prune_dir(opt_meta(metadata), name@, at_root, ctx.entries@),
{
    match metadata {
        Some(m) => at_root && ctx.minimal() && full_mode_entry(&m.file_conventions, name)
            && !always_kept(&m.file_conventions, name),
        None => false,
    }
}

} // verus!
