//! The template repository, as the library sees it: resolving a template
//! name against the enumerated registry, and parsing a remote repository
//! spec. Listing the registry and fetching an archive are the caller's
//! side of the boundary.

use vstd::prelude::*;

use crate::condition::find_char;
use crate::errors::ScaffoldError;
use crate::strutil::{str_eq, str_starts_with};

verus! {

/// What lower-casing produces for this text; one value per input.
pub uninterp spec fn lower_of(s: Seq<char>) -> Seq<char>;

/// Relies on `str::to_lowercase`: the result depends on the characters
/// alone.
#[verifier::external_body]
fn lowercase(s: &str) -> (r: String)
    ensures
        r@ == lower_of(s@),
{
    s.to_lowercase()
}

/// The first registry entry equal to the input under case folding.
pub open spec fn spec_find_ci(available: Seq<String>, input: Seq<char>) -> Option<Seq<char>>
    decreases available.len(),
{
    if available.len() == 0 {
        None
    } else if lower_of(available[0]@) == lower_of(input) {
        Some(available[0]@)
    } else {
        spec_find_ci(available.drop_first(), input)
    }
}

/// Finds a template name case-insensitively and returns the name as the
/// registry spells it.
#[verifier::loop_isolation(false)]
pub fn find_template_case_insensitive(input_name: &str, available_templates: &Vec<String>) -> (r:
    Option<String>)
    ensures
        match r {
            Some(s) => spec_find_ci(available_templates@, input_name@) == Some(s@),
            None => spec_find_ci(available_templates@, input_name@) is None,
        },
{
    let want = lowercase(input_name);
    let n = available_templates.len();
    proof {
        assert(available_templates@.subrange(0, n as int) =~= available_templates@);
    }
    let mut i: usize = 0;
    while i < n
        invariant
            0 <= i <= n,
            want@ == lower_of(input_name@),
            spec_find_ci(available_templates@, input_name@) == spec_find_ci(
                available_templates@.subrange(i as int, n as int),
                input_name@,
            ),
        decreases n - i,
    {
        proof {
            assert(available_templates@.subrange(i as int, n as int)[0]
                == available_templates@[i as int]);
            assert(available_templates@.subrange(i as int, n as int).drop_first()
                =~= available_templates@.subrange(i as int + 1, n as int));
        }
        let cand = lowercase(available_templates[i].as_str());
        if str_eq(cand.as_str(), want.as_str()) {
            return Some(available_templates[i].clone());
        }
        i = i + 1;
    }
    proof {
        assert(available_templates@.subrange(n as int, n as int) =~= Seq::<String>::empty());
    }
    None
}

/// Whether the registry holds exactly this name.
pub open spec fn spec_name_known(available: Seq<String>, name: Seq<char>) -> bool {
    exists|i: int| 0 <= i < available.len() && (#[trigger] available[i])@ == name
}

/// Checks a local template name against the registry before any tree is
/// touched; an unknown name is the resolution error.
#[verifier::loop_isolation(false)]
pub fn validate_local_template(name: &str, available_templates: &Vec<String>) -> (r: Result<
    (),
    ScaffoldError,
>)
    ensures
        match r {
            Ok(()) => spec_name_known(available_templates@, name@),
            Err(e) => !spec_name_known(available_templates@, name@) && e
                == ScaffoldError::TemplateNotFound,
        },
{
    let n = available_templates.len();
    let mut i: usize = 0;
    while i < n
        invariant
            0 <= i <= n,
            forall|j: int| 0 <= j < i ==> (#[trigger] available_templates@[j])@ != name@,
        decreases n - i,
    {
        if str_eq(available_templates[i].as_str(), name) {
            proof {
                assert((#[trigger] available_templates@[i as int])@ == name@);
            }
            return Ok(());
        }
        i = i + 1;
    }
    Err(ScaffoldError::TemplateNotFound)
}

/// The organization and repository named by a remote template spec of the
/// form `github:org/repo[/...]` or `@org/repo[/...]`; `None` when the spec
/// is in neither form or names no repository.
pub open spec fn spec_parse_remote(s: Seq<char>) -> Option<(Seq<char>, Seq<char>)> {
    let body = if "github:"@.is_prefix_of(s) {
        Some(s.subrange(7, s.len() as int))
    } else if s.len() >= 1 && s[0] == '@' {
        Some(s.subrange(1, s.len() as int))
    } else {
        None
    };
    match body {
        None => None,
        Some(b) => {
            let k = find_char(b, '/', 0);
            if k < 0 {
                None
            } else {
                let rest = b.subrange(k + 1, b.len() as int);
                let k2 = find_char(rest, '/', 0);
                if k2 < 0 {
                    Some((b.subrange(0, k), rest))
                } else {
                    Some((b.subrange(0, k), rest.subrange(0, k2)))
                }
            }
        },
    }
}

fn exec_find_slash(s: &str, from: usize) -> (r: Option<usize>)
    requires
        from <= s@.len(),
    ensures
        match r {
            Some(q) => from <= q < s@.len() && q as int == find_char(s@, '/', from as int),
            None => find_char(s@, '/', from as int) == -1,
        },
{
    let n = s.unicode_len();
    let mut i: usize = from;
    while i < n
        invariant
            from <= i <= n,
            n == s@.len(),
            find_char(s@, '/', from as int) == find_char(s@, '/', i as int),
        decreases n - i,
    {
        if s.get_char(i) == '/' {
            return Some(i);
        }
        i = i + 1;
    }
    None
}

/// Splits a remote template spec into organization and repository; a spec
/// in neither recognized form is the resolution error.
pub fn parse_github_spec(spec: &str) -> (r: Result<(String, String), ScaffoldError>)
    ensures
        match r {
            Ok(p) => spec_parse_remote(spec@) == Some((p.0@, p.1@)),
            Err(e) => spec_parse_remote(spec@) is None && e == ScaffoldError::TemplateNotFound,
        },
{
    let n = spec.unicode_len();
    let body: &str = if str_starts_with(spec, "github:") {
        proof {
            reveal_strlit("github:");
        }
        spec.substring_char(7, n)
    } else if n >= 1 && spec.get_char(0) == '@' {
        proof {
            reveal_strlit("github:");
        }
        spec.substring_char(1, n)
    } else {
        proof {
            reveal_strlit("github:");
        }
        return Err(ScaffoldError::TemplateNotFound);
    };
    let bn = body.unicode_len();
    match exec_find_slash(body, 0) {
        None => Err(ScaffoldError::TemplateNotFound),
        Some(k) => {
            let org = body.substring_char(0, k).to_owned();
            let rest = body.substring_char(k + 1, bn);
            match exec_find_slash(rest, 0) {
                None => Ok((org, rest.to_owned())),
                Some(k2) => Ok((org, rest.substring_char(0, k2).to_owned())),
            }
        },
    }
}

} // verus!
