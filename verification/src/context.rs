//! The rendering context: a flat bag of named string and boolean values,
//! supplied once per materialization run and read by every substitution and
//! condition evaluation in that run.

use vstd::prelude::*;

use crate::strutil::str_eq;

verus! {

/// A value bound to a variable name: either text or a flag.
#[derive(Debug, Clone)]
pub enum ContextValue {
    Text(String),
    Flag(bool),
}

/// The variable bindings for one materialization run. A name bound twice
/// means the later binding; that is what a plain key-value document would
/// hold as well.
#[derive(Debug, Clone)]
pub struct RenderContext {
    pub entries: Vec<(String, ContextValue)>,
}

/// The binding of `name`, later entries overriding earlier ones.
pub open spec fn lookup(entries: Seq<(String, ContextValue)>, name: Seq<char>) -> Option<
    ContextValue,
>
    decreases entries.len(),
{
    if entries.len() == 0 {
        None
    } else if entries.last().0@ == name {
        Some(entries.last().1)
    } else {
        lookup(entries.drop_last(), name)
    }
}

/// The text bound to `name`, if its binding is text.
pub open spec fn text_of(entries: Seq<(String, ContextValue)>, name: Seq<char>) -> Option<
    Seq<char>,
> {
    match lookup(entries, name) {
        Some(ContextValue::Text(s)) => Some(s@),
        _ => None,
    }
}

/// The flag bound to `name`, if its binding is a flag.
pub open spec fn flag_of(entries: Seq<(String, ContextValue)>, name: Seq<char>) -> Option<bool> {
    match lookup(entries, name) {
        Some(ContextValue::Flag(b)) => Some(b),
        _ => None,
    }
}

/// The text bindings, as a map; a later binding of the same name wins, and a
/// name bound to a flag has no text.
pub open spec fn text_map(entries: Seq<(String, ContextValue)>) -> Map<Seq<char>, Seq<char>> {
    Map::new(
        |k: Seq<char>| text_of(entries, k) is Some,
        |k: Seq<char>| text_of(entries, k)->Some_0,
    )
}

/// The flag bindings, as a map.
pub open spec fn flag_map(entries: Seq<(String, ContextValue)>) -> Map<Seq<char>, bool> {
    Map::new(
        |k: Seq<char>| flag_of(entries, k) is Some,
        |k: Seq<char>| flag_of(entries, k)->Some_0,
    )
}

/// Whether this run asks for a minimal project: the `minimal` flag, absent
/// meaning false.
pub open spec fn minimal_of(entries: Seq<(String, ContextValue)>) -> bool {
    flag_of(entries, "minimal"@) == Some(true)
}

impl RenderContext {
    pub fn new() -> (r: RenderContext)
        ensures
            r.entries@ =~= Seq::<(String, ContextValue)>::empty(),
    {
        RenderContext { entries: Vec::new() }
    }

    pub fn push_text(&mut self, name: String, value: String)
        ensures
            final(self).entries@ == old(self).entries@.push((name, ContextValue::Text(value))),
    {
        self.entries.push((name, ContextValue::Text(value)));
    }

    pub fn push_flag(&mut self, name: String, value: bool)
        ensures
            final(self).entries@ == old(self).entries@.push((name, ContextValue::Flag(value))),
    {
        self.entries.push((name, ContextValue::Flag(value)));
    }

    /// The binding of `name`, later entries overriding earlier ones.
    pub fn get(&self, name: &str) -> (r: Option<&ContextValue>)
        ensures
            match r {
                Some(v) => lookup(self.entries@, name@) == Some(*v),
                None => lookup(self.entries@, name@) is None,
            },
    {
        let n = self.entries.len();
        proof {
            assert(self.entries@.subrange(0, n as int) =~= self.entries@);
        }
        let mut i: usize = n;
        while i > 0
            invariant
                0 <= i <= n,
                n == self.entries@.len(),
                lookup(self.entries@, name@) == lookup(self.entries@.subrange(0, i as int), name@),
            decreases i,
        {
            proof {
                assert(self.entries@.subrange(0, i as int).drop_last() =~= self.entries@.subrange(
                    0,
                    i as int - 1,
                ));
                assert(self.entries@.subrange(0, i as int).last() == self.entries@[i as int - 1]);
            }
            if str_eq(self.entries[i - 1].0.as_str(), name) {
                return Some(&self.entries[i - 1].1);
            }
            i = i - 1;
        }
        proof {
            assert(self.entries@.subrange(0, 0) =~= Seq::<(String, ContextValue)>::empty());
        }
        None
    }

    /// Whether this run asks for a minimal project.
    pub fn minimal(&self) -> (r: bool)
        ensures
            r == minimal_of(self.entries@),
    {
        match self.get("minimal") {
            Some(ContextValue::Flag(b)) => *b,
            _ => false,
        }
    }
}

/// The context that one generation run renders with: the project name, the
/// target name, the chosen build integration, and the minimal flag.
pub fn make_render_context(
    project_name: String,
    target_name: String,
    integration: String,
    minimal: bool,
) -> (r: RenderContext)
    ensures
        r.entries@.len() == 4,
        r.entries@[0].0@ == "project_name"@ && r.entries@[0].1 == ContextValue::Text(project_name),
        r.entries@[1].0@ == "target_name"@ && r.entries@[1].1 == ContextValue::Text(target_name),
        r.entries@[2].0@ == "integration"@ && r.entries@[2].1 == ContextValue::Text(integration),
        r.entries@[3].0@ == "minimal"@ && r.entries@[3].1 == ContextValue::Flag(minimal),
{
    let mut ctx = RenderContext::new();
    ctx.push_text(String::from_str("project_name"), project_name);
    ctx.push_text(String::from_str("target_name"), target_name);
    ctx.push_text(String::from_str("integration"), integration);
    ctx.push_flag(String::from_str("minimal"), minimal);
    ctx
}

} // verus!
