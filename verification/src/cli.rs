//! The command line: its commands, and the decisions the commands make before
//! any prompt or output.
use vstd::prelude::*;
use crate::recipe::Recipe;
use crate::registry::{category_filter, opt_text, RecipeRegistry, RecipeSummary};
use crate::text::{concat, concat3, first_word, first_word_of, nat_digits, owned, pad_right, pad_right_spec, u64_to_text, views};

verus! {

/// The parsed command line.
#[derive(Debug, Clone)]
pub struct Cli {
    pub command: Option<Commands>,
}

/// The subcommands.
#[derive(Debug, Clone)]
pub enum Commands {
    /// Run a recipe (form wizard, then its steps).
    Run { service: Option<String>, file: Option<String>, dry_run: bool },
    /// List the available recipes, optionally of one category.
    List { category: Option<String> },
    /// Check that a recipe file parses.
    Validate { file: String },
}

/// What `run` is asked to run.
#[derive(Debug, Clone)]
pub enum RunTarget {
    /// Resolve this identifier, with this explicit recipe file if any.
    Resolve { identifier: String, custom_file: Option<String> },
    /// Nothing given: let the user choose from the list.
    Choose,
}

/// Why no recipe can be chosen.
#[derive(Debug, Clone, Copy, PartialEq, Eq, Structural)]
pub enum SelectionError {
    /// The list, after filtering, is empty.
    NoRecipes,
}

/// Whether `run` goes on to the steps.
#[derive(Debug, Clone, Copy, PartialEq, Eq, Structural)]
pub enum RunDecision {
    /// Ask the user to confirm the summary first.
    AskConfirmation,
    /// Run (or show) the steps.
    Proceed,
    /// The user declined: stop before any step.
    Cancel,
}

/// How a category is coloured in the listing.
#[derive(Debug, Clone, Copy, PartialEq, Eq, Structural)]
pub enum CategoryColor {
    Magenta,
    Cyan,
    White,
}

/// The line offered for a recipe in the chooser:
/// `format!("{:<16} [{}] - {}", name, category, description)`.
pub open spec fn choice_line_spec(s: RecipeSummary) -> Seq<char> {
    pad_right_spec(s.name@, 16) + " ["@ + s.category@ + "] - "@ + s.description@
}

/// The chooser lines of a list of summaries.
pub open spec fn choice_lines(s: Seq<RecipeSummary>) -> Seq<Seq<char>> {
    s.map_values(|x: RecipeSummary| choice_line_spec(x))
}

/// What `run` does with its service name and file option.
pub fn run_target(service: Option<String>, file: Option<String>) -> (t: RunTarget)
    ensures
        match (service, file) {
            (Some(s), f) => t == RunTarget::Resolve { identifier: s, custom_file: f },
            (None, Some(f)) => t matches RunTarget::Resolve { identifier, custom_file }
                && identifier@ == Seq::<char>::empty() && custom_file == Some(f),
            (None, None) => t is Choose,
        },
{
    match (service, file) {
        (Some(s), f) => RunTarget::Resolve { identifier: s, custom_file: f },
        (None, Some(f)) => {
            let e = String::new();
            RunTarget::Resolve { identifier: e, custom_file: Some(f) }
        },
        (None, None) => RunTarget::Choose,
    }
}

/// The chooser line of a recipe summary.
pub fn choice_line(s: &RecipeSummary) -> (r: String)
    ensures
        r@ == choice_line_spec(*s),
{
    let name = pad_right(s.name.as_str(), 16);
    let a = concat3(name.as_str(), " [", s.category.as_str());
    concat3(a.as_str(), "] - ", s.description.as_str())
}

/// The lines offered in the chooser: one per recipe of the category (all
/// when none is given), or an error when there is none.
pub fn service_choices(available: Vec<RecipeSummary>, category: Option<&str>) -> (r: Result<
    Vec<String>,
    SelectionError,
>)
    ensures
        category_filter(available@, opt_text(category)).len() == 0 ==> r == Err::<Vec<String>, SelectionError>(
            SelectionError::NoRecipes,
        ),
        category_filter(available@, opt_text(category)).len() > 0 ==> (r matches Ok(lines) && views(
            lines@,
        ) == choice_lines(category_filter(available@, opt_text(category)))),
{
    let filtered = RecipeRegistry::filter_by_category(available, category);
    if filtered.len() == 0 {
        return Err(SelectionError::NoRecipes);
    }
    let mut lines: Vec<String> = Vec::new();
    let mut i: usize = 0;
    while i < filtered.len()
        invariant
            i <= filtered.len(),
            views(lines@) == choice_lines(filtered@.take(i as int)),
        decreases filtered.len() - i,
    {
        let ghost before = lines@;
        lines.push(choice_line(&filtered[i]));
        assert(filtered@.take(i + 1) =~= filtered@.take(i as int).push(filtered@[i as int]));
        assert(views(lines@) =~= views(before).push(choice_line_spec(filtered@[i as int])));
        i = i + 1;
    }
    assert(filtered@.take(filtered.len() as int) =~= filtered@);
    Ok(lines)
}

/// The recipe name in a chosen line: its first word.
pub fn chosen_service(selection: &str) -> (r: String)
    ensures
        r@ == first_word(selection@),
{
    first_word_of(selection)
}

/// The colour of a category in the listing.
pub fn category_color(category: &str) -> (c: CategoryColor)
    ensures
        category@ == "system"@ ==> c == CategoryColor::Magenta,
        category@ == "service"@ ==> c == CategoryColor::Cyan,
        category@ != "system"@ && category@ != "service"@ ==> c == CategoryColor::White,
{
    proof {
        reveal_strlit("system");
        reveal_strlit("service");
        assert("system"@[1] != "service"@[1]);
    }
    let c = owned(category);
    if c.eq(&owned("system")) {
        CategoryColor::Magenta
    } else if c.eq(&owned("service")) {
        CategoryColor::Cyan
    } else {
        CategoryColor::White
    }
}

/// The report of `validate` for a recipe that parsed: its name and version,
/// category, and how many inputs and steps it defines.
pub fn validation_report(recipe: &Recipe) -> (lines: Vec<String>)
    ensures
        lines@.len() == 4,
        lines@[0]@ == "Recipe '"@ + recipe.name@ + "' (v"@ + recipe.version@ + ") is valid!"@,
        lines@[1]@ == "  Category: "@ + recipe.category@,
        lines@[2]@ == "  Inputs:   "@ + nat_digits(recipe.inputs@.len()) + " defined"@,
        lines@[3]@ == "  Steps:    "@ + nat_digits(recipe.steps@.len()) + " defined"@,
{
    let mut lines: Vec<String> = Vec::new();
    let a = concat3("Recipe '", recipe.name.as_str(), "' (v");
    lines.push(concat3(a.as_str(), recipe.version.as_str(), ") is valid!"));
    lines.push(concat("  Category: ", recipe.category.as_str()));
    let n = u64_to_text(recipe.inputs.len() as u64);
    lines.push(concat3("  Inputs:   ", n.as_str(), " defined"));
    let m = u64_to_text(recipe.steps.len() as u64);
    lines.push(concat3("  Steps:    ", m.as_str(), " defined"));
    lines
}

/// The decision of `run` before the steps: a dry run proceeds at once; a
/// real run asks for confirmation, then proceeds on yes and cancels on no.
pub open spec fn run_decision_spec(dry_run: bool, confirmed: Option<bool>) -> RunDecision {
    if dry_run {
        RunDecision::Proceed
    } else {
        match confirmed {
            None => RunDecision::AskConfirmation,
            Some(true) => RunDecision::Proceed,
            Some(false) => RunDecision::Cancel,
        }
    }
}

/// Whether `run` goes on: a dry run proceeds without asking; otherwise the
/// summary must be confirmed (`confirmed` is the answer, once asked), and a
/// refusal cancels before any step.
pub fn run_decision(dry_run: bool, confirmed: Option<bool>) -> (d: RunDecision)
    ensures
        d == run_decision_spec(dry_run, confirmed),
        dry_run ==> d == RunDecision::Proceed,
        !dry_run && confirmed is None ==> d == RunDecision::AskConfirmation,
        !dry_run && confirmed == Some(true) ==> d == RunDecision::Proceed,
        !dry_run && confirmed == Some(false) ==> d == RunDecision::Cancel,
{
    if dry_run {
        RunDecision::Proceed
    } else {
        match confirmed {
            None => RunDecision::AskConfirmation,
            Some(true) => RunDecision::Proceed,
            Some(false) => RunDecision::Cancel,
        }
    }
}

} // verus!
