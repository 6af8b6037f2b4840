use std::collections::HashMap;

use new_string_template::template::Template;
use vstd::prelude::*;

use crate::params::{pairs_view, ParamView};

verus! {

/// The map that collecting `(name, value)` pairs into a `HashMap` builds: a
/// later pair with the same name replaces an earlier one.
pub open spec fn pairs_to_map(s: Seq<ParamView>) -> Map<Seq<char>, Seq<char>>
    decreases s.len(),
{
    if s.len() == 0 {
        Map::empty()
    } else {
        pairs_to_map(s.drop_last()).insert(s.last().0, s.last().1)
    }
}

/// What `Template::new(template).render(values)` of the `new_string_template`
/// crate gives: the rendered text, or `None` where rendering fails.
pub uninterp spec fn rendered_template(template: Seq<char>, values: Map<Seq<char>, Seq<char>>) -> Option<Seq<char>>;

/// Renders `template`, replacing each `{name}` placeholder by the value of
/// `name`, with `Template::new` and `Template::render` of `new_string_template`.
///
/// Trusted: the outcome is `rendered_template` of the template text and of the
/// map of values, with `None` for an error. From the crate's source it also
/// claims that a template without any `{` has no placeholder and renders to
/// itself. How placeholders are recognised (a regular expression) is left
/// unsaid.
#[verifier::external_body]
pub(crate) fn render_template(template: &str, values: &Vec<(&str, &str)>) -> (r: Option<String>)
    ensures
        r.is_some() == rendered_template(template@, pairs_to_map(pairs_view(values@))).is_some(),
        r.is_some() ==> rendered_template(template@, pairs_to_map(pairs_view(values@))) == Some(r.unwrap()@),
        !template@.contains('{') ==> r.is_some() && r.unwrap()@ == template@,
{
    let map: HashMap<&str, &str> = values.iter().copied().collect();
    match Template::new(template).render(&map) {
        Ok(text) => Some(text),
        Err(_) => None,
    }
}

} // verus!
