//! The variable-substitution engine, as the library sees it: a mustache-
//! style templating pass over text and names, with `{{#if}}` blocks and
//! comparison helpers. The engine itself is an outside crate; its result is
//! a function of the template and the bindings alone, named `rendered_of`.

use vstd::prelude::*;

use crate::context::{flag_map, text_map, ContextValue, RenderContext};

verus! {

/// What the templating engine produces for this template over these
/// bindings: the rendered text, or nothing when the template is rejected
/// (an unclosed block, an unknown helper). One value per input: rendering
/// neither reads the clock nor draws randomness.
pub uninterp spec fn rendered_of(
    template: Seq<char>,
    strs: Map<Seq<char>, Seq<char>>,
    flags: Map<Seq<char>, bool>,
) -> Option<Seq<char>>;

/// Relies on handlebars' `render_template` over a fresh default registry:
/// it compiles and renders the template string against the data, and both
/// the outcome and the text depend on those two alone.
#[verifier::external_body]
pub fn render_template_text(template: &str, ctx: &RenderContext) -> (r: Option<String>)
    ensures
        match r {
            Some(s) => rendered_of(template@, text_map(ctx.entries@), flag_map(ctx.entries@))
                == Some(s@),
            None => rendered_of(template@, text_map(ctx.entries@), flag_map(ctx.entries@)) is None,
        },
{
    let engine = handlebars::Handlebars::new();
    let mut data = serde_json::Map::new();
    for (k, v) in ctx.entries.iter() {
        let jv = match v {
            ContextValue::Text(s) => serde_json::Value::String(s.clone()),
            ContextValue::Flag(b) => serde_json::Value::Bool(*b),
        };
        data.insert(k.clone(), jv);
    }
    engine.render_template(template, &serde_json::Value::Object(data)).ok()
}

/// Relies on `String::from_utf8`: it succeeds exactly on valid UTF-8 and
/// returns the text those bytes encode.
#[verifier::external_body]
pub fn decode_utf8_bytes(bytes: &Vec<u8>) -> (r: Option<String>)
    ensures
        match r {
            Some(s) => vstd::utf8::valid_utf8(bytes@) && s@ == vstd::utf8::decode_utf8(bytes@),
            None => !vstd::utf8::valid_utf8(bytes@),
        },
{
    String::from_utf8(bytes.clone()).ok()
}

} // verus!
