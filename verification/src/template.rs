//! Rendering of step commands, written as Jinja templates, against the
//! collected answers.
use vstd::prelude::*;
use crate::context::{ContextValue, InputContext, ValueView};
use minijinja::{Environment, ErrorKind, Value};
use std::collections::BTreeMap;

verus! {

/// Why a command template could not be rendered.
#[derive(Debug, Clone)]
pub enum TemplateError {
    /// The template text is not valid template syntax.
    Syntax { detail: String },
    /// The template is valid but rendering it failed.
    Render { detail: String },
}

/// The flag "is a syntax error" and the detail text of a template error.
pub open spec fn template_error_view(e: TemplateError) -> (bool, Seq<char>) {
    match e {
        TemplateError::Syntax { detail } => (true, detail@),
        TemplateError::Render { detail } => (false, detail@),
    }
}

/// What minijinja gives for `template`, named `cmd`, rendered against the
/// variables `context` in a default environment: the output text, or whether the
/// failure was a syntax error together with the error's text.
pub uninterp spec fn rendered_template(
    template: Seq<char>,
    context: Map<Seq<char>, ValueView>,
) -> Result<Seq<char>, (bool, Seq<char>)>;

/// A result of rendering agrees with the named outcome.
pub open spec fn render_agrees(
    r: Result<String, TemplateError>,
    expected: Result<Seq<char>, (bool, Seq<char>)>,
) -> bool {
    match (r, expected) {
        (Ok(s), Ok(out)) => s@ == out,
        (Err(e), Err(fail)) => template_error_view(e) == fail,
        _ => false,
    }
}

/// Calls `minijinja::Environment::render_named_str` with the template name
/// `cmd` on a fresh default `Environment`, with the context's entries as the template variables (a
/// later entry for an id wins, as in the context's map). The contract claims
/// only that the outcome is the named `rendered_template` of the template text
/// and the context's map, and that a failure is marked as a syntax error
/// exactly when minijinja reports `ErrorKind::SyntaxError`.
#[verifier::external_body]
fn minijinja_render_str(template: &str, context: &InputContext) -> (r: Result<String, TemplateError>)
    ensures
        render_agrees(r, rendered_template(template@, context@)),
{
    let vars: BTreeMap<&str, Value> = context.entries.iter().map(|(k, v)| (k.as_str(), match v {
        ContextValue::Text(s) => Value::from(s.as_str()),
        ContextValue::Number(n) => Value::from(*n),
        ContextValue::Bool(b) => Value::from(*b),
    })).collect();
    match Environment::new().render_named_str("cmd", template, vars) {
        Ok(s) => Ok(s),
        Err(e) if e.kind() == ErrorKind::SyntaxError => Err(TemplateError::Syntax { detail: e.to_string() }),
        Err(e) => Err(TemplateError::Render { detail: e.to_string() }),
    }
}

/// Renders command templates.
pub struct TemplateEngine;

impl TemplateEngine {
    /// Renders `template_str` with the answers in `context` as its variables.
    pub fn render_str(template_str: &str, context: &InputContext) -> (r: Result<String, TemplateError>)
        ensures
            render_agrees(r, rendered_template(template_str@, context@)),
    {
        minijinja_render_str(template_str, context)
    }
}

} // verus!
