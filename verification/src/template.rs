//! Templates for greetings and error replies, rendered with minijinja.
use vstd::prelude::*;

verus! {

/// The text of a list of (name, text) pairs.
pub open spec fn pairs_view(p: Seq<(String, String)>) -> Seq<(Seq<char>, Seq<char>)> {
    p.map_values(|e: (String, String)| (e.0@, e.1@))
}

/// The text of an optional string.
pub open spec fn opt_string_view(o: Option<String>) -> Option<Seq<char>> {
    match o {
        Some(s) => Some(s@),
        None => None,
    }
}

/// What minijinja renders: the template `name` of an environment that holds
/// `templates` (added in order), rendered with a context that maps each name
/// of `context` to its text; nothing when a template does not compile, when
/// `name` is not among them, or when rendering fails.
pub uninterp spec fn rendered(
    templates: Seq<(Seq<char>, Seq<char>)>,
    name: Seq<char>,
    context: Seq<(Seq<char>, Seq<char>)>,
) -> Option<Seq<char>>;

/// Builds a `minijinja::Environment` with `Environment::new`, adds each
/// template with `add_template_owned`, takes `name` with `get_template` and
/// renders it with `Template::render` on a map of the context's pairs. Its
/// result is named `rendered`; nothing more is claimed of it.
#[verifier::external_body]
fn render_with(
    templates: &Vec<(String, String)>,
    name: &str,
    context: &Vec<(String, String)>,
) -> (r: Option<String>)
    ensures
        opt_string_view(r) == rendered(pairs_view(templates@), name@, pairs_view(context@)),
{
    let mut env = minijinja::Environment::new();
    for (n, text) in templates.iter() {
        if env.add_template_owned(n.clone(), text.clone()).is_err() {
            return None;
        }
    }
    let ctx: std::collections::BTreeMap<String, String> = context.iter().cloned().collect();
    env.get_template(name).ok()?.render(ctx).ok()
}

/// Whether minijinja accepts every one of these templates: each compiles
/// when added to an environment, in order.
pub uninterp spec fn templates_compile(templates: Seq<(Seq<char>, Seq<char>)>) -> bool;

/// Adds each template to a fresh `minijinja::Environment` with
/// `add_template_owned`, which compiles it, and tells whether all were
/// accepted. Its result is named `templates_compile`; nothing more is
/// claimed of it.
#[verifier::external_body]
fn compile_all(templates: &Vec<(String, String)>) -> (r: bool)
    ensures
        r == templates_compile(pairs_view(templates@)),
{
    let mut env = minijinja::Environment::new();
    for (n, text) in templates.iter() {
        if env.add_template_owned(n.clone(), text.clone()).is_err() {
            return false;
        }
    }
    true
}

/// What minijinja renders for the template `source` named `name`, with the
/// JSON document `payload` (given as text) as its context; nothing when the
/// payload is not JSON, the template does not compile, or rendering fails.
pub uninterp spec fn rendered_json(name: Seq<char>, source: Seq<char>, payload: Seq<char>) -> Option<Seq<char>>;

/// Parses `payload` with `serde_json::from_str` into a `serde_json::Value`,
/// adds `source` as template `name` to a fresh `minijinja::Environment` with
/// `add_template_owned`, takes it back with `get_template` and renders it
/// with `Template::render` on the parsed value. Its result is named
/// `rendered_json`; nothing more is claimed of it.
#[verifier::external_body]
fn render_json(name: &str, source: &str, payload: &str) -> (r: Option<String>)
    ensures
        opt_string_view(r) == rendered_json(name@, source@, payload@),
{
    let ctx: serde_json::Value = serde_json::from_str(payload).ok()?;
    let mut env = minijinja::Environment::new();
    let _ = env.add_template_owned(name.to_string(), source.to_string());
    env.get_template(name).ok()?.render(ctx).ok()
}

/// Renders a template text, named `name`, with a JSON payload as its context:
/// what the debugging endpoint does with a template file and a request body.
pub fn render_payload(name: &String, source: &String, payload: &String) -> (r: Option<String>)
    ensures
        opt_string_view(r) == rendered_json(name@, source@, payload@),
{
    render_json(name.as_str(), source.as_str(), payload.as_str())
}

/// The templates that greetings and replies are rendered from, by name.
pub struct Tmpls {
    pub templates: Vec<(String, String)>,
}

/// Whether a template of this name is among the pairs.
pub open spec fn has_template(templates: Seq<(Seq<char>, Seq<char>)>, name: Seq<char>) -> bool {
    exists|i: int| 0 <= i < templates.len() && templates[i].0 == name
}

impl Tmpls {
    /// The names and texts of the templates.
    pub open spec fn model(&self) -> Seq<(Seq<char>, Seq<char>)> {
        pairs_view(self.templates@)
    }

    /// The templates given as (name, text) pairs, when minijinja compiles
    /// them all; nothing otherwise.
    pub fn new(templates: Vec<(String, String)>) -> (r: Option<Tmpls>)
        ensures
            r is Some == templates_compile(pairs_view(templates@)),
            r matches Some(t) ==> t.templates == templates,
    {
        if compile_all(&templates) {
            Some(Tmpls { templates })
        } else {
            None
        }
    }

    /// Whether there is a template of this name.
    pub fn contains(&self, name: &String) -> (r: bool)
        ensures
            r == has_template(self.model(), name@),
    {
        let mut i: usize = 0;
        while i < self.templates.len()
            invariant
                i <= self.templates.len(),
                forall|j: int| 0 <= j < i ==> self.model()[j].0 != name@,
            decreases self.templates.len() - i,
        {
            if self.templates[i].0 == *name {
                assert(self.model()[i as int].0 == name@);
                return true;
            }
            i = i + 1;
        }
        false
    }

    /// Renders the template `name` with the given context.
    pub fn render(&self, name: &String, context: &Vec<(String, String)>) -> (r: Option<String>)
        requires
            has_template(self.model(), name@),
        ensures
            opt_string_view(r) == rendered(self.model(), name@, pairs_view(context@)),
    {
        render_with(&self.templates, name.as_str(), context)
    }
}

} // verus!
