use vstd::prelude::*;

use crate::params::{map_of, ParamMap};

verus! {

/// What handlebars makes of a template and a parameter mapping: the
/// rendered text, or nothing when the template is rejected.  Unknown
/// keys render as the empty string, so the result is a function of the
/// template and the mapping alone.
pub uninterp spec fn hb_rendered(template: Seq<char>, parameters: Map<Seq<char>, Seq<char>>) -> Option<
    Seq<char>,
>;

/// Relies on handlebars::Handlebars::render_template, with escaping
/// disabled through handlebars::no_escape (the output is shell text,
/// not markup).  The registry is fresh and the data a plain map, so the
/// result depends on the template text and the mapping alone.
#[verifier::external_body]
fn hb_render(template: &str, pairs: &Vec<(String, String)>) -> (r: Option<String>)
    ensures
        match r {
            Some(s) => hb_rendered(template@, map_of(pairs@)) == Some(s@),
            None => hb_rendered(template@, map_of(pairs@)) is None,
        },
{
    let mut hb = handlebars::Handlebars::new();
    hb.register_escape_fn(handlebars::no_escape);
    let mut data = std::collections::BTreeMap::new();
    for (k, v) in pairs.iter() {
        data.insert(k.clone(), v.clone());
    }
    match hb.render_template(template, &data) {
        Ok(s) => Some(s),
        Err(_) => None,
    }
}

/// The rendering a caller sees: the handlebars result, or the template
/// itself when rendering fails.
pub open spec fn spec_rendered(template: Seq<char>, parameters: Map<Seq<char>, Seq<char>>) -> Seq<
    char,
> {
    match hb_rendered(template, parameters) {
        Some(s) => s,
        None => template,
    }
}

/// Substitute `{{name}}`-style placeholders in `template` from
/// `parameters`.  Rendering never fails the caller: a malformed
/// template comes back unchanged.
pub fn render(template: &str, parameters: &ParamMap) -> (r: String)
    ensures
        r@ == spec_rendered(template@, parameters@),
{
    match hb_render(template, parameters.entries()) {
        Some(s) => s,
        None => String::from_str(template),
    }
}

} // verus!
