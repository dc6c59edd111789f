//! Properties that hold across the library's operations.
use vstd::prelude::*;
use crate::cli::{choice_line_spec, choice_lines, run_decision_spec, RunDecision};
use crate::context::{entries_map, ContextValue, InputContext, ValueView};
use crate::executor::{
    action_spec, advance_spec, allows_failure, directive_spec, outcome_spec, shows_output, Directive, RunControl,
    StepAction, StepEvent, StepOutcome,
};
use crate::prompt::{
    answers_map, complaint_spec, display_spec, lookup, option_index, plan_spec, PromptKind, PromptPlan,
};
use crate::recipe::{os_platform_name, platform_admits, InputSpec, InputType, Recipe, StepSpec};
use crate::registry::{
    category_filter, clean_name_spec, first_named, has_named, is_remote_at, is_url, lists_available,
    lists_builtin, lists_fetched, parsed_only, raw_recipe_url_spec, recipe_urls_spec, resolve_spec, route_spec,
    stable_sort_of, summarizes, GithubContentItem, RecipeSource, RecipeSummary, ResolveError, ResolveRoute,
};
use crate::template::{render_agrees, rendered_template};
use crate::text::{
    ascii_lower, digit_char, eq_ignore_case, first_word, has_prefix, has_suffix, int_decimal, is_space, line_end,
    lines_spec, nat_digits, pad_right_spec, run_len, strip_suffixes, text_lt, views,
};

verus! {

/// An answer recorded for an id is the one read back for it, and recording it
/// leaves the answers for other ids as they were.
pub proof fn law_answer_read_back(entries: Seq<(String, ContextValue)>, id: String, value: ContextValue, other: Seq<char>)
    requires
        other != id@,
    ensures
        entries_map(entries.push((id, value))).contains_key(id@),
        entries_map(entries.push((id, value)))[id@] == value@,
        entries_map(entries.push((id, value))).contains_key(other) == entries_map(entries).contains_key(other),
        entries_map(entries).contains_key(other) ==> entries_map(entries.push((id, value)))[other]
            == entries_map(entries)[other],
{
    assert(entries.push((id, value)).drop_last() =~= entries);
}

/// With distinct input ids, the collected answers hold, for every input, the
/// answer given to it, so the summary shows exactly the answers given.
pub proof fn law_summary_shows_given_answers(inputs: Seq<InputSpec>, answers: Seq<ContextValue>, i: int)
    requires
        inputs.len() == answers.len(),
        0 <= i < inputs.len(),
        forall|a: int, b: int| 0 <= a < b < inputs.len() ==> (#[trigger] inputs[a]).id@ != (#[trigger] inputs[b]).id@,
    ensures
        lookup(answers_map(inputs, answers), inputs[i].id@) == Some(answers[i]@),
        display_spec(inputs[i].input_type, lookup(answers_map(inputs, answers), inputs[i].id@))
            == display_spec(inputs[i].input_type, Some(answers[i]@)),
    decreases inputs.len(),
{
    let n = inputs.len();
    if i < n - 1 {
        let ins = inputs.drop_last();
        let ans = answers.drop_last();
        assert forall|a: int, b: int| 0 <= a < b < ins.len() implies (#[trigger] ins[a]).id@ != (#[trigger] ins[b]).id@ by {
            assert(ins[a] == inputs[a] && ins[b] == inputs[b]);
        }
        law_summary_shows_given_answers(ins, ans, i);
        assert(ins[i] == inputs[i]);
        assert(inputs[i].id@ != inputs[n - 1].id@);
    }
}

/// A password answer is never shown: the summary shows a mask whatever the
/// answer is.
pub proof fn law_password_masked(answer: Seq<char>)
    ensures
        display_spec(InputType::Password, Some(ValueView::Text(answer))) == "••••••••"@,
{
}

/// A dry run runs no command: every step is previewed or skipped.
pub proof fn law_dry_run_executes_nothing(step: StepSpec, os: Seq<char>)
    ensures
        action_spec(step, os, true) != StepAction::Execute,
{
}

/// A dry run of a recipe never directs a command to run.
pub proof fn law_dry_run_directs_no_execution(
    recipe: Recipe,
    context: InputContext,
    os: Seq<char>,
    index: usize,
    d: Directive,
)
    requires
        directive_spec(recipe, context, os, true, index, d),
    ensures
        !(d is Execute),
{
}

/// A step without a platform list is never skipped.
pub proof fn law_unrestricted_step_runs(step: StepSpec, os: Seq<char>, dry_run: bool)
    requires
        step.platforms is None,
    ensures
        action_spec(step, os, dry_run) != StepAction::Skip,
{
}

/// Listing without a category shows every recipe, in order.
pub proof fn law_no_category_keeps_all(s: Seq<RecipeSummary>)
    ensures
        category_filter(s, None) == s,
    decreases s.len(),
{
    if s.len() > 0 {
        law_no_category_keeps_all(s.drop_last());
        assert(s.drop_last().push(s.last()) =~= s);
    }
}

/// Listing with a category shows only recipes of that category (up to ASCII
/// case), and every such recipe.
pub proof fn law_category_filter_exact(s: Seq<RecipeSummary>, c: Seq<char>, x: RecipeSummary)
    ensures
        category_filter(s, Some(c)).contains(x) <==> (s.contains(x) && eq_ignore_case(x.category@, c)),
    decreases s.len(),
{
    if s.len() > 0 {
        law_category_filter_exact(s.drop_last(), c, x);
        let rest = category_filter(s.drop_last(), Some(c));
        if s.contains(x) {
            let k = choose|k: int| 0 <= k < s.len() && s[k] == x;
            if k < s.len() - 1 {
                assert(s.drop_last()[k] == x);
            }
        }
        if s.drop_last().contains(x) {
            let k = choose|k: int| 0 <= k < s.drop_last().len() && s.drop_last()[k] == x;
            assert(s[k] == x);
        }
        if eq_ignore_case(s.last().category@, c) {
            if rest.push(s.last()).contains(x) && x != s.last() {
                let k = choose|k: int| 0 <= k < rest.push(s.last()).len() && rest.push(s.last())[k] == x;
                assert(rest[k] == x);
            }
            if x == s.last() {
                assert(rest.push(s.last())[rest.len() as int] == x);
            }
            if rest.contains(x) {
                let k = choose|k: int| 0 <= k < rest.len() && rest[k] == x;
                assert(rest.push(s.last())[k] == x);
            }
        } else {
            assert(s.last() == s[s.len() - 1]);
        }
    }
}

/// A registry name that cannot be fetched from the repository, but is one of
/// the built-in recipes, resolves to the built-in recipe.
pub proof fn law_offline_falls_back_to_builtin(
    identifier: Seq<char>,
    route: ResolveRoute,
    fetch_error: String,
    embedded: Seq<Recipe>,
    i: int,
    result: Result<(Recipe, RecipeSource), crate::registry::ResolveError>,
)
    requires
        !is_url(identifier),
        route_spec(identifier, None, false, route),
        0 <= i < embedded.len(),
        embedded[i].name@ == clean_name_spec(identifier),
        forall|j: int| 0 <= j < i ==> (#[trigger] embedded[j]).name@ != clean_name_spec(identifier),
        resolve_spec(route, identifier, Err(fetch_error), embedded, result),
    ensures
        result matches Ok((rec, RecipeSource::Remote(label))) && rec == embedded[i]
            && label@ == "embedded:"@ + clean_name_spec(identifier),
{
    let name = clean_name_spec(identifier);
    assert(first_named(embedded, name, i));
    assert(has_named(embedded, name));
    if let Ok((rec, _)) = result {
        let j = choose|j: int| first_named(embedded, name, j) && rec == embedded[j];
        if j < i {
            assert(embedded[j].name@ != name);
        } else if i < j {
            assert(embedded[i].name@ != name);
        }
    }
}

/// Removing the endings of `n + y` once strips `y` back to `n`'s own ending.
proof fn lemma_strip_appended(n: Seq<char>, y: Seq<char>)
    requires
        y.len() > 0,
    ensures
        strip_suffixes(n + y, y) == strip_suffixes(n, y),
{
    let s = n + y;
    assert(s.skip(s.len() - y.len()) =~= y);
    assert(s.take(s.len() - y.len()) =~= n);
}

/// Text without the ending `y` keeps nothing to strip.
proof fn lemma_strip_absent(n: Seq<char>, y: Seq<char>)
    requires
        !has_suffix(n, y),
    ensures
        strip_suffixes(n, y) == n,
{
}

/// A text ending in `.yml` does not end in `.yaml`.
proof fn lemma_yml_not_yaml(n: Seq<char>)
    ensures
        !has_suffix(n + ".yml"@, ".yaml"@),
{
    reveal_strlit(".yml");
    reveal_strlit(".yaml");
    let s = n + ".yml"@;
    if has_suffix(s, ".yaml"@) {
        let t = s.skip(s.len() - 5);
        assert(t[2] == s[n.len() as int + 1]);
        assert(s[n.len() as int + 1] == ".yml"@[1]);
        assert(t[2] == ".yaml"@[2]);
    }
}

/// No character of the URL schemes is a dot.
proof fn lemma_scheme_has_no_dot(k: int)
    ensures
        0 <= k < 7 ==> "http://"@[k] != '.',
        0 <= k < 8 ==> "https://"@[k] != '.',
{
    reveal_strlit("http://");
    reveal_strlit("https://");
    if k == 0 {
    } else if k == 1 {
    } else if k == 2 {
    } else if k == 3 {
    } else if k == 4 {
    } else if k == 5 {
    } else if k == 6 {
    } else if k == 7 {
    }
}

/// Appending a text that starts with a dot does not make a URL.
proof fn lemma_dot_suffix_not_url(n: Seq<char>, y: Seq<char>)
    requires
        y.len() > 0,
        y[0] == '.',
        !is_url(n),
    ensures
        !is_url(n + y),
{
    reveal_strlit("http://");
    reveal_strlit("https://");
    let s = n + y;
    lemma_scheme_has_no_dot(n.len() as int);
    if has_prefix(s, "http://"@) {
        if n.len() < 7 {
            assert(s.take(7)[n.len() as int] == y[0]);
        } else {
            assert(n.take(7) =~= s.take(7));
        }
    }
    if has_prefix(s, "https://"@) {
        if n.len() < 8 {
            assert(s.take(8)[n.len() as int] == y[0]);
        } else {
            assert(n.take(8) =~= s.take(8));
        }
    }
}

/// A recipe name `n`, `n.yaml` and `n.yml` lead to the same registry entry:
/// the ending is removed before the raw URL `.../recipes/n.yaml` is built.
pub proof fn law_yaml_endings_route_alike(
    n: Seq<char>,
    r0: ResolveRoute,
    r1: ResolveRoute,
    r2: ResolveRoute,
)
    requires
        !has_suffix(n, ".yaml"@),
        !has_suffix(n, ".yml"@),
        !is_url(n),
        route_spec(n, None, false, r0),
        route_spec(n + ".yaml"@, None, false, r1),
        route_spec(n + ".yml"@, None, false, r2),
    ensures
        r0 matches ResolveRoute::Registry { name, url } && name@ == n,
        r1 matches ResolveRoute::Registry { name, url } && name@ == n,
        r2 matches ResolveRoute::Registry { name, url } && name@ == n,
        registry_key(r0) == registry_key(r1),
        registry_key(r0) == registry_key(r2),
{
    reveal_strlit(".yaml");
    reveal_strlit(".yml");
    lemma_dot_suffix_not_url(n, ".yaml"@);
    lemma_dot_suffix_not_url(n, ".yml"@);
    lemma_strip_absent(n, ".yaml"@);
    lemma_strip_absent(n, ".yml"@);
    lemma_strip_appended(n, ".yaml"@);
    lemma_strip_appended(n, ".yml"@);
    lemma_yml_not_yaml(n);
    lemma_strip_absent(n + ".yml"@, ".yaml"@);
    assert(clean_name_spec(n) == n);
    assert(clean_name_spec(n + ".yaml"@) == n);
    assert(clean_name_spec(n + ".yml"@) == n);
}

/// The registry name and URL of a registry route.
pub open spec fn registry_key(r: ResolveRoute) -> (Seq<char>, Seq<char>) {
    match r {
        ResolveRoute::Registry { name, url } => (name@, url@),
        _ => (Seq::empty(), Seq::empty()),
    }
}

/// The text of a recipe source.
pub open spec fn source_text(s: RecipeSource) -> Seq<char> {
    match s {
        RecipeSource::Remote(u) => u@,
        RecipeSource::Local(p) => p@,
    }
}

/// Two registry routes with the same name and URL resolve alike, given the
/// same fetch outcome and built-in recipes: both succeed with the same recipe
/// and the same source, or both fail.
pub proof fn law_same_registry_entry_resolves_alike(
    r0: ResolveRoute,
    r1: ResolveRoute,
    id0: Seq<char>,
    id1: Seq<char>,
    loaded: Result<Recipe, String>,
    embedded: Seq<Recipe>,
    res0: Result<(Recipe, RecipeSource), ResolveError>,
    res1: Result<(Recipe, RecipeSource), ResolveError>,
)
    requires
        r0 is Registry,
        r1 is Registry,
        registry_key(r0) == registry_key(r1),
        resolve_spec(r0, id0, loaded, embedded, res0),
        resolve_spec(r1, id1, loaded, embedded, res1),
    ensures
        res0 is Ok <==> res1 is Ok,
        res0 matches Ok((a, sa)) ==> (res1 matches Ok((b, sb)) && a == b && source_text(sa) == source_text(sb)),
{
    if let (Ok((a, _)), Ok((b, _)), Err(_)) = (res0, res1, loaded) {
        let name = registry_key(r0).0;
        let i = choose|i: int| first_named(embedded, name, i) && a == embedded[i];
        let j = choose|j: int| first_named(embedded, name, j) && b == embedded[j];
        if i < j {
            assert(embedded[i].name@ != name);
        } else if j < i {
            assert(embedded[j].name@ != name);
        }
    }
}

/// The run of non-blank characters of a chooser line from position `i` on
/// ends at the end of the recipe name.
proof fn lemma_choice_word_run(s: RecipeSummary, i: int)
    requires
        0 <= i <= s.name@.len(),
        forall|k: int| 0 <= k < s.name@.len() ==> !is_space(#[trigger] s.name@[k]),
    ensures
        run_len(choice_line_spec(s), i, false) == s.name@.len() - i,
    decreases s.name@.len() - i,
{
    let line = choice_line_spec(s);
    let name = s.name@;
    reveal_strlit(" [");
    let padded = pad_right_spec(name, 16);
    let a = padded + " ["@;
    let b = a + s.category@;
    let c = b + "] - "@;
    assert(line == c + s.description@);
    assert(padded.len() >= name.len());
    assert(line[i] == a[i]) by {
        assert(c[i] == b[i]);
        assert(b[i] == a[i]);
    }
    if i == name.len() {
        if name.len() < 16 {
            assert(a[i] == padded[i]);
            assert(padded[i] == ' ');
        } else {
            assert(a[i] == " ["@[0]);
        }
        assert(is_space(line[i]));
    } else {
        assert(a[i] == padded[i]);
        assert(padded[i] == name[i]);
        lemma_choice_word_run(s, i + 1);
    }
}

/// The first word of a recipe's chooser line is the recipe's name, when the
/// name is not empty and has no whitespace; so choosing a line selects that
/// recipe.
pub proof fn law_choice_line_names_recipe(s: RecipeSummary)
    requires
        s.name@.len() > 0,
        forall|k: int| 0 <= k < s.name@.len() ==> !is_space(#[trigger] s.name@[k]),
    ensures
        first_word(choice_line_spec(s)) == s.name@,
{
    let line = choice_line_spec(s);
    let padded = pad_right_spec(s.name@, 16);
    let a = padded + " ["@;
    let b = a + s.category@;
    let c = b + "] - "@;
    assert(line == c + s.description@);
    assert forall|k: int| 0 <= k < s.name@.len() implies line[k] == s.name@[k] by {
        assert(line[k] == c[k]);
        assert(c[k] == b[k]);
        assert(b[k] == a[k]);
        assert(a[k] == padded[k]);
    }
    assert(run_len(line, 0, true) == 0);
    lemma_choice_word_run(s, 0);
    assert(line.subrange(0, s.name@.len() as int) =~= s.name@);
}


/// A step whose command succeeded has succeeded, whatever its
/// `allow_failure` says.
pub proof fn law_successful_step_succeeds(step: StepSpec, stderr: Seq<String>, r: StepOutcome)
    requires
        outcome_spec(step, true, stderr, r),
    ensures
        r is Succeeded,
{
}

/// A failed step that sets `allow_failure: true` is tolerated: the
/// deployment goes on.
pub proof fn law_tolerated_failure_continues(step: StepSpec, stderr: Seq<String>, r: StepOutcome, index: usize)
    requires
        outcome_spec(step, false, stderr, r),
        step.allow_failure == Some(true),
        index < usize::MAX,
    ensures
        r is FailureIgnored,
        advance_spec(index, StepEvent::Ran(r)) == (RunControl::Next { index: (index + 1) as usize }),
{
}

/// A failed step that does not set `allow_failure: true` stops the
/// deployment with an error; the error lines shown are the last (at most 15)
/// lines of its stderr, in order, when its output was hidden
/// (`show_output: false`), and none otherwise.
pub proof fn law_failed_step_stops(step: StepSpec, stderr: Seq<String>, r: StepOutcome, index: usize)
    requires
        outcome_spec(step, false, stderr, r),
        step.allow_failure != Some(true),
    ensures
        r matches StepOutcome::Failed { error_tail } && {
            let n = stderr.len() as int;
            let t = if n <= 15 { n } else { 15 };
            &&& step.show_output == Some(false) ==> error_tail@ == stderr.subrange(n - t, n)
            &&& step.show_output != Some(false) ==> error_tail@.len() == 0
        },
        advance_spec(index, StepEvent::Ran(r)) == (RunControl::Stop { failed: true }),
{
    let n = stderr.len() as int;
    if n > 15 {
        assert(stderr.skip(n - 15) =~= stderr.subrange(n - 15, n));
    } else {
        assert(stderr.subrange(0, n) =~= stderr);
    }
}

/// A run goes on with the next step after a skipped, previewed or successful
/// step, ends without error when no step is left, and stops with an error
/// when a command could not be rendered.
pub proof fn law_run_goes_on(index: usize)
    requires
        index < usize::MAX,
    ensures
        advance_spec(index, StepEvent::Skipped) == (RunControl::Next { index: (index + 1) as usize }),
        advance_spec(index, StepEvent::Previewed) == (RunControl::Next { index: (index + 1) as usize }),
        advance_spec(index, StepEvent::Ran(StepOutcome::Succeeded)) == (RunControl::Next {
            index: (index + 1) as usize,
        }),
        advance_spec(index, StepEvent::Finished) == (RunControl::Stop { failed: false }),
        advance_spec(index, StepEvent::RenderFailed) == (RunControl::Stop { failed: true }),
{
}

/// Past the last step the run is finished, and only there.
pub proof fn law_finished_only_past_last_step(
    recipe: Recipe,
    context: InputContext,
    os: Seq<char>,
    dry_run: bool,
    index: usize,
    d: Directive,
)
    requires
        directive_spec(recipe, context, os, dry_run, index, d),
    ensures
        (d is Finished) <==> index >= recipe.steps@.len(),
{
}

/// A step whose platform list does not admit the current system is skipped,
/// in a dry run or not.
pub proof fn law_foreign_step_skipped(
    recipe: Recipe,
    context: InputContext,
    os: Seq<char>,
    dry_run: bool,
    index: usize,
    d: Directive,
)
    requires
        directive_spec(recipe, context, os, dry_run, index, d),
        index < recipe.steps@.len(),
        !platform_admits(recipe.steps@[index as int].platforms, os),
    ensures
        d == (Directive::Skip { index }),
{
}

/// Outside a dry run, a step for this platform whose command renders runs
/// the whole rendered text of its command.
pub proof fn law_executes_whole_rendered_command(
    recipe: Recipe,
    context: InputContext,
    os: Seq<char>,
    index: usize,
    out: Seq<char>,
    d: Directive,
)
    requires
        directive_spec(recipe, context, os, false, index, d),
        index < recipe.steps@.len(),
        platform_admits(recipe.steps@[index as int].platforms, os),
        rendered_template(recipe.steps@[index as int].command@, context@) == Ok::<Seq<char>, (bool, Seq<char>)>(out),
    ensures
        d matches Directive::Execute { index: i, command } && i == index && command@ == out,
{
}

/// A step for this platform whose command cannot be rendered stops with the
/// rendering error, in a dry run or not, and runs nothing.
pub proof fn law_render_failure_reported(
    recipe: Recipe,
    context: InputContext,
    os: Seq<char>,
    dry_run: bool,
    index: usize,
    fail: (bool, Seq<char>),
    d: Directive,
)
    requires
        directive_spec(recipe, context, os, dry_run, index, d),
        index < recipe.steps@.len(),
        platform_admits(recipe.steps@[index as int].platforms, os),
        rendered_template(recipe.steps@[index as int].command@, context@) == Err::<Seq<char>, (bool, Seq<char>)>(fail),
    ensures
        d matches Directive::RenderFailed { index: i, error } && i == index
            && crate::template::template_error_view(error) == fail,
{
}

/// A dry run shows the lines of exactly the command that a real run of the
/// same step executes.
pub proof fn law_preview_shows_executed_command(
    recipe: Recipe,
    context: InputContext,
    os: Seq<char>,
    index: usize,
    preview: Directive,
    run: Directive,
)
    requires
        directive_spec(recipe, context, os, true, index, preview),
        directive_spec(recipe, context, os, false, index, run),
        run is Execute,
    ensures
        preview is Preview,
        preview->Preview_index == index,
        run->Execute_index == index,
        views(preview->lines@) == lines_spec(run->command@),
{
}

/// A one-line rendered command (no line break) is previewed as that single
/// line.
pub proof fn law_one_line_preview(
    recipe: Recipe,
    context: InputContext,
    os: Seq<char>,
    index: usize,
    out: Seq<char>,
    d: Directive,
)
    requires
        directive_spec(recipe, context, os, true, index, d),
        index < recipe.steps@.len(),
        platform_admits(recipe.steps@[index as int].platforms, os),
        rendered_template(recipe.steps@[index as int].command@, context@) == Ok::<Seq<char>, (bool, Seq<char>)>(out),
        out.len() > 0,
        !out.contains('\n'),
    ensures
        d matches Directive::Preview { index: i, lines } && i == index && views(lines@) == seq![out],
{
    crate::text::lemma_line_end_bounds(out, 0);
    if line_end(out, 0) < out.len() {
        assert(out[line_end(out, 0)] == '\n');
    }
    assert(out.subrange(0, out.len() as int) =~= out);
    assert(lines_spec(out) =~= seq![out]);
}


/// Every prompt shows the input's prompt text after the `"│  "` margin and
/// the input's help text.
pub proof fn law_prompt_message_and_help(input: InputSpec, plan: PromptPlan)
    requires
        plan_spec(input, plan),
    ensures
        plan.message@ == "│  "@ + input.prompt@,
        plan.help is Some <==> input.help is Some,
        plan.help matches Some(h) ==> h@ == input.help->0@,
{
}

/// A password input is asked with a password prompt that rejects an empty
/// answer exactly when the input sets `required: true`.
pub proof fn law_password_required_as_declared(input: InputSpec, plan: PromptPlan)
    requires
        plan_spec(input, plan),
        input.input_type == InputType::Password,
    ensures
        plan.kind matches PromptKind::Password { required } && (required <==> input.required == Some(true)),
{
}

/// A text input is asked with a text prompt that rejects a blank answer
/// exactly when the input sets `required: true`, offering the default text
/// where the input has one.
pub proof fn law_text_prompt_as_declared(input: InputSpec, plan: PromptPlan)
    requires
        plan_spec(input, plan),
        input.input_type == InputType::Text,
    ensures
        plan.kind matches PromptKind::Text { default, required } && (required <==> input.required == Some(true))
            && (default is Some <==> (input.default matches Some(d) && d.text is Some))
            && (default matches Some(t) ==> t@ == input.default->0.text->0@),
{
}

/// A number input offers the input's integer default, and none when the
/// default is not an integer.
pub proof fn law_number_prompt_default(input: InputSpec, plan: PromptPlan)
    requires
        plan_spec(input, plan),
        input.input_type == InputType::Number,
    ensures
        plan.kind matches PromptKind::Number { default } && (default is Some <==> (input.default matches Some(
            d,
        ) && d.integer is Some)) && (default matches Some(n) ==> n == input.default->0.integer->0),
{
}

/// A yes/no input defaults to yes unless its default is the flag `false`.
pub proof fn law_confirm_default_yes(input: InputSpec, plan: PromptPlan)
    requires
        plan_spec(input, plan),
        input.input_type == InputType::Confirm,
    ensures
        plan.kind matches PromptKind::Confirm { default } && (!default <==> (input.default matches Some(d)
            && d.boolean == Some(false))),
{
}

/// Where an option equals `d`, `option_index` is the position of the first
/// such option; otherwise it is 0.
proof fn lemma_option_index(options: Seq<String>, d: Seq<char>)
    ensures
        (exists|k: int| 0 <= k < options.len() && (#[trigger] options[k])@ == d) ==> {
            let i = option_index(options, d);
            &&& 0 <= i < options.len()
            &&& options[i]@ == d
            &&& forall|j: int| 0 <= j < i ==> (#[trigger] options[j])@ != d
        },
        !(exists|k: int| 0 <= k < options.len() && (#[trigger] options[k])@ == d) ==> option_index(options, d)
            == 0,
    decreases options.len(),
{
    if options.len() > 0 && options[0]@ != d {
        let rest = options.drop_first();
        lemma_option_index(rest, d);
        if exists|k: int| 0 <= k < options.len() && (#[trigger] options[k])@ == d {
            let k = choose|k: int| 0 <= k < options.len() && (#[trigger] options[k])@ == d;
            assert(rest[k - 1] == options[k]);
            let i = option_index(rest, d);
            assert(rest[i] == options[i + 1]);
            assert forall|j: int| 0 <= j < i + 1 implies (#[trigger] options[j])@ != d by {
                if j > 0 {
                    assert(rest[j - 1] == options[j]);
                }
            }
        }
    }
}

/// A choice input lists the input's options; when there are any, the cursor
/// starts on the first option equal to the default text, or on the first
/// option when none is; with no options there is no starting cursor.
pub proof fn law_select_cursor(input: InputSpec, plan: PromptPlan)
    requires
        plan_spec(input, plan),
        input.input_type == InputType::Select,
    ensures
        plan.kind matches PromptKind::Select { options, starting_cursor } && {
            &&& input.options is None ==> options@.len() == 0 && starting_cursor is None
            &&& input.options matches Some(o) ==> options@ == o@
            &&& (input.options matches Some(o) && o.len() == 0) ==> starting_cursor is None
            &&& (input.options matches Some(o) && o.len() > 0) ==> (starting_cursor matches Some(c) && {
                let o = input.options->0@;
                let wanted = if input.default matches Some(dv) && dv.text is Some {
                    Some(input.default->0.text->0@)
                } else {
                    None
                };
                &&& 0 <= c < o.len()
                &&& (wanted matches Some(t) && exists|k: int| 0 <= k < o.len() && (#[trigger] o[k])@ == t) ==> (o[c
                    as int]@ == wanted->0 && forall|j: int| 0 <= j < c ==> (#[trigger] o[j])@ != wanted->0)
                &&& !(wanted matches Some(t) && exists|k: int| 0 <= k < o.len() && (#[trigger] o[k])@ == t) ==> c
                    == 0
            })
        },
{
    if let Some(o) = input.options {
        if let Some(dv) = input.default {
            if let Some(t) = dv.text {
                lemma_option_index(o@, t@);
            }
        }
    }
}

/// The summary shows a number in decimal, a flag as `yes`/`no`, the text of
/// a non-password answer as given, and `-` for an input without an answer.
pub proof fn law_summary_values(t: InputType, text: Seq<char>, n: int, b: bool)
    ensures
        display_spec(t, Some(ValueView::Number(n))) == int_decimal(n),
        display_spec(t, Some(ValueView::Bool(b))) == (if b { "yes"@ } else { "no"@ }),
        t != InputType::Password ==> display_spec(t, Some(ValueView::Text(text))) == text,
        display_spec(t, None) == "-"@,
{
}


/// A recipe's summary shows the recipe's own name, version, description and
/// category, and where it was found.
pub proof fn law_summary_shows_recipe(summary: RecipeSummary, recipe: Recipe, source: RecipeSource)
    requires
        summarizes(summary, recipe, source),
    ensures
        summary.name@ == recipe.name@,
        summary.version@ == recipe.version@,
        summary.description@ == recipe.description@,
        summary.category@ == recipe.category@,
        source_text(summary.source) == source_text(source),
{
}

/// An explicitly given recipe file is used whatever the identifier is.
pub proof fn law_custom_file_first(identifier: Seq<char>, file: String, is_file: bool, r: ResolveRoute)
    requires
        route_spec(identifier, Some(file), is_file, r),
    ensures
        r matches ResolveRoute::LocalFile { path } && path@ == file@,
{
}

/// Without an explicit file, an identifier that names an existing file is
/// read from that file, even when it looks like a URL.
pub proof fn law_existing_file_read_locally(identifier: Seq<char>, r: ResolveRoute)
    requires
        route_spec(identifier, None, true, r),
    ensures
        r matches ResolveRoute::LocalFile { path } && path@ == identifier,
{
}

/// Without an explicit file, an identifier that is not a file and starts
/// with `http://` or `https://` is fetched from that URL as it is.
pub proof fn law_url_fetched_as_given(identifier: Seq<char>, r: ResolveRoute)
    requires
        route_spec(identifier, None, false, r),
        ("http://"@).is_prefix_of(identifier) || ("https://"@).is_prefix_of(identifier),
    ensures
        r matches ResolveRoute::RemoteUrl { url } && url@ == identifier,
{
    if ("http://"@).is_prefix_of(identifier) {
        assert(identifier.take(("http://"@).len() as int) =~= "http://"@);
    } else {
        assert(identifier.take(("https://"@).len() as int) =~= "https://"@);
    }
}

/// Any other identifier is a registry name, fetched from the repository's
/// raw recipe directory as `<name>.yaml`.
pub proof fn law_registry_url(identifier: Seq<char>, r: ResolveRoute)
    requires
        route_spec(identifier, None, false, r),
        !("http://"@).is_prefix_of(identifier),
        !("https://"@).is_prefix_of(identifier),
    ensures
        r matches ResolveRoute::Registry { name, url }
            && url@ == "https://raw.githubusercontent.com/yunhai-dev/dpilot/main/recipes/"@ + name@ + ".yaml"@,
{
    if has_prefix(identifier, "http://"@) {
        assert(("http://"@).is_prefix_of(identifier));
    }
    if has_prefix(identifier, "https://"@) {
        assert(("https://"@).is_prefix_of(identifier));
    }
    if let ResolveRoute::Registry { name, url } = r {
        assert(url@ =~= "https://raw.githubusercontent.com/yunhai-dev/dpilot/main/recipes/"@ + name@ + ".yaml"@);
    }
}

/// A file or URL route gives the loaded recipe, with its path or URL as its
/// source, and a loading failure as a load error carrying its message: such
/// routes never fall back to a built-in recipe.
pub proof fn law_file_and_url_routes_load(
    route: ResolveRoute,
    identifier: Seq<char>,
    loaded: Result<Recipe, String>,
    embedded: Seq<Recipe>,
    r: Result<(Recipe, RecipeSource), ResolveError>,
)
    requires
        !(route is Registry),
        resolve_spec(route, identifier, loaded, embedded, r),
    ensures
        loaded matches Ok(rec) ==> (r matches Ok((got, src)) && got == rec && source_text(src) == match route {
            ResolveRoute::LocalFile { path } => path@,
            ResolveRoute::RemoteUrl { url } => url@,
            _ => Seq::empty(),
        } && (route is LocalFile <==> src is Local)),
        loaded matches Err(m) ==> (r matches Err(ResolveError::Load { message }) && message == m),
{
}

/// A registry recipe that is fetched is used with its URL as its source; one
/// that cannot be fetched and is not built in is reported as not found, with
/// the identifier and the URL that was tried.
pub proof fn law_registry_fetch_or_not_found(
    route: ResolveRoute,
    identifier: Seq<char>,
    loaded: Result<Recipe, String>,
    embedded: Seq<Recipe>,
    r: Result<(Recipe, RecipeSource), ResolveError>,
)
    requires
        route is Registry,
        resolve_spec(route, identifier, loaded, embedded, r),
    ensures
        loaded matches Ok(rec) ==> (r matches Ok((got, RecipeSource::Remote(u))) && got == rec && u@
            == route->Registry_url@),
        (loaded is Err && forall|i: int| 0 <= i < embedded.len() ==> (#[trigger] embedded[i]).name@
            != route->Registry_name@) ==> (r matches Err(ResolveError::NotFound { identifier: id, url }) && id@
            == identifier && url@ == route->Registry_url@),
{
}

/// Only YAML entries of a repository listing are fetched, each from its
/// download URL when it has one and otherwise from the raw URL of its name;
/// the URLs come in listing order.
pub proof fn law_listing_urls(items: Seq<GithubContentItem>, item: GithubContentItem)
    ensures
        recipe_urls_spec(items.push(item)) == if has_suffix(item.name@, ".yaml"@) || has_suffix(item.name@, ".yml"@) {
            recipe_urls_spec(items).push(
                match item.download_url {
                    Some(u) => u@,
                    None => "https://raw.githubusercontent.com/yunhai-dev/dpilot/main/recipes/"@ + item.name@,
                },
            )
        } else {
            recipe_urls_spec(items)
        },
{
    assert(items.push(item).drop_last() =~= items);
}


/// A step shows its output unless it sets `show_output: false`, and
/// tolerates its failure only when it sets `allow_failure: true`.
pub proof fn law_step_flag_defaults(step: StepSpec)
    ensures
        shows_output(step) <==> step.show_output != Some(false),
        allows_failure(step) <==> step.allow_failure == Some(true),
{
}

/// A platform list admits a system when there is no list, when the list is
/// empty, or when an entry names the system up to ASCII case; a non-empty
/// list without such an entry does not.
pub proof fn law_platform_rules(list: Vec<String>, os: Seq<char>)
    ensures
        platform_admits(None, os),
        list@.len() == 0 ==> platform_admits(Some(list), os),
        (exists|i: int| 0 <= i < list@.len() && (#[trigger] list@[i])@.len() == os.len() && forall|k: int|
            0 <= k < os.len() ==> ascii_lower(list@[i]@[k]) == ascii_lower(#[trigger] os[k])) ==> platform_admits(
            Some(list),
            os,
        ),
        (list@.len() > 0 && forall|i: int| 0 <= i < list@.len() ==> !eq_ignore_case(#[trigger] list@[i]@, os))
            ==> !platform_admits(Some(list), os),
{
    if exists|i: int| 0 <= i < list@.len() && (#[trigger] list@[i])@.len() == os.len() && forall|k: int|
        0 <= k < os.len() ==> ascii_lower(list@[i]@[k]) == ascii_lower(#[trigger] os[k]) {
        let i = choose|i: int| 0 <= i < list@.len() && (#[trigger] list@[i])@.len() == os.len() && forall|k: int|
            0 <= k < os.len() ==> ascii_lower(list@[i]@[k]) == ascii_lower(#[trigger] os[k]);
        assert(eq_ignore_case(list@[i]@, os));
    }
}

/// `macos` is called `darwin` in recipes; every other system keeps its name.
pub proof fn law_darwin_name(target_os: Seq<char>)
    ensures
        target_os == "macos"@ ==> os_platform_name(target_os) == "darwin"@,
        target_os != "macos"@ ==> os_platform_name(target_os) == target_os,
{
}

/// A built-in recipe is listed as found at its raw URL `<name>.yaml` in the
/// repository.
pub proof fn law_builtin_listed_at_raw_url(source: RecipeSource, name: Seq<char>)
    requires
        is_remote_at(source, raw_recipe_url_spec(name + ".yaml"@)),
    ensures
        source matches RecipeSource::Remote(u)
            && u@ == "https://raw.githubusercontent.com/yunhai-dev/dpilot/main/recipes/"@ + name + ".yaml"@,
{
    if let RecipeSource::Remote(u) = source {
        assert(u@ =~= "https://raw.githubusercontent.com/yunhai-dev/dpilot/main/recipes/"@ + name + ".yaml"@);
    }
}

/// Fetched contents that did not parse as a recipe are left out of the
/// remote listing; those that did are kept, with their URL, in fetch order.
pub proof fn law_unparsed_left_out(fetched: Seq<(String, Option<Recipe>)>, url: String, recipe: Recipe)
    ensures
        parsed_only(fetched.push((url, None))) == parsed_only(fetched),
        parsed_only(fetched.push((url, Some(recipe)))) == parsed_only(fetched).push((url, recipe)),
        parsed_only(Seq::<(String, Option<Recipe>)>::empty()).len() == 0,
{
    assert(fetched.push((url, None)).drop_last() =~= fetched);
    assert(fetched.push((url, Some(recipe))).drop_last() =~= fetched);
}


/// A required text or password input refuses an answer made only of
/// whitespace, with its kind's message, and accepts any answer holding a
/// non-whitespace character; an input not marked required accepts any
/// answer.
pub proof fn law_required_answers(input: InputSpec, answer: Seq<char>)
    ensures
        (input.required == Some(true) && input.input_type == InputType::Text && forall|k: int|
            0 <= k < answer.len() ==> is_space(#[trigger] answer[k])) ==> complaint_spec(input, answer) == Some(
            "This field cannot be empty"@,
        ),
        (input.required == Some(true) && input.input_type == InputType::Password && forall|k: int|
            0 <= k < answer.len() ==> is_space(#[trigger] answer[k])) ==> complaint_spec(input, answer) == Some(
            "Password cannot be empty"@,
        ),
        (exists|k: int| 0 <= k < answer.len() && !is_space(#[trigger] answer[k])) ==> complaint_spec(
            input,
            answer,
        ) is None,
        input.required != Some(true) ==> complaint_spec(input, answer) is None,
        (input.input_type != InputType::Text && input.input_type != InputType::Password) ==> complaint_spec(
            input,
            answer,
        ) is None,
{
}

/// A dry run goes to the steps without asking; a real run asks first, and
/// goes on only after a yes: a no cancels it before any step.
pub proof fn law_real_run_needs_confirmation(confirmed: Option<bool>)
    ensures
        run_decision_spec(true, confirmed) == RunDecision::Proceed,
        run_decision_spec(false, None) == RunDecision::AskConfirmation,
        run_decision_spec(false, Some(true)) == RunDecision::Proceed,
        run_decision_spec(false, Some(false)) == RunDecision::Cancel,
{
}


/// Sorting a listing by name loses and invents nothing: it has as many
/// summaries as were given, each listed summary is a given one, and each
/// given summary is listed; the names come in non-decreasing order.
pub proof fn law_sorting_keeps_every_summary(
    out: Seq<RecipeSummary>,
    inp: Seq<RecipeSummary>,
    p: Seq<int>,
    j: int,
)
    requires
        stable_sort_of(out, inp, p),
        0 <= j < inp.len(),
    ensures
        out.len() == inp.len(),
        exists|k: int| 0 <= k < out.len() && out[k] == inp[j],
        forall|k: int| 0 <= k < out.len() ==> inp.contains(#[trigger] out[k]),
        forall|a: int, b: int| 0 <= a < b < out.len() ==> !text_lt(#[trigger] out[b].name@, #[trigger] out[a].name@),
{
    broadcast use vstd::seq_lib::seq_to_set_is_finite;
    let n = inp.len() as int;
    assert(p.no_duplicates()) by {
        assert forall|a: int, b: int| 0 <= a < p.len() && 0 <= b < p.len() && a != b implies p[a] != p[b] by {
            assert(p[a] != p[b]);
        }
    }
    p.unique_seq_to_set();
    vstd::set_lib::lemma_int_range(0, n);
    assert(p.to_set().subset_of(vstd::set_lib::set_int_range(0, n))) by {
        assert forall|x: int| p.to_set().contains(x) implies vstd::set_lib::set_int_range(0, n).contains(x) by {
            let k = choose|k: int| 0 <= k < p.len() && p[k] == x;
            assert(0 <= p[k] < n);
        }
    }
    vstd::set_lib::lemma_subset_equality(p.to_set(), vstd::set_lib::set_int_range(0, n));
    assert(vstd::set_lib::set_int_range(0, n).contains(j));
    assert(p.to_set().contains(j));
    let k = choose|k: int| 0 <= k < p.len() && p[k] == j;
    assert(out[k] == inp[j]);
    assert forall|k: int| 0 <= k < out.len() implies inp.contains(#[trigger] out[k]) by {
        assert(0 <= p[k] < n);
        assert(out[k] == inp[p[k]]);
    }
}

/// Names are ordered as in a dictionary, by character code: a proper prefix
/// comes before the longer name, at the first differing position the
/// smaller character comes first, and no name comes before itself.
pub proof fn law_name_order(a: Seq<char>, b: Seq<char>, k: int)
    ensures
        (a.len() < b.len() && b.take(a.len() as int) == a) ==> text_lt(a, b),
        (0 <= k < a.len() && k < b.len() && a.take(k) == b.take(k) && a[k] != b[k]) ==> (text_lt(a, b) <==> (
        a[k] as int) < (b[k] as int)),
        !text_lt(a, a),
    decreases a.len(),
{
    crate::text::lemma_text_lt_irreflexive(a);
    if a.len() > 0 && b.len() > 0 {
        if a.len() < b.len() && b.take(a.len() as int) == a {
            assert(a[0] == b.take(a.len() as int)[0]);
            assert(b.drop_first().take(a.drop_first().len() as int) =~= a.drop_first());
            law_name_order(a.drop_first(), b.drop_first(), k - 1);
        }
        if 0 <= k < a.len() && k < b.len() && a.take(k) == b.take(k) && a[k] != b[k] {
            if k > 0 {
                assert(a[0] == a.take(k)[0] && b[0] == b.take(k)[0]);
                assert(a.drop_first().take(k - 1) =~= b.drop_first().take(k - 1)) by {
                    assert forall|m: int| 0 <= m < k - 1 implies a.drop_first()[m] == b.drop_first()[m] by {
                        assert(a.take(k)[m + 1] == b.take(k)[m + 1]);
                    }
                }
                law_name_order(a.drop_first(), b.drop_first(), k - 1);
            }
        }
    }
}


/// Digits are written with their ASCII codes, most significant first, with
/// no leading zero; a negative number gets a minus sign.
pub proof fn law_decimal_digits(n: nat, d: int, m: int)
    ensures
        0 <= d < 10 ==> (digit_char(d) as int) == 48 + d,
        n < 10 ==> nat_digits(n) == seq![digit_char(n as int)],
        n >= 10 ==> nat_digits(n) == nat_digits(n / 10) + seq![digit_char((n % 10) as int)],
        n > 0 ==> nat_digits(n)[0] != '0',
        nat_digits(n).len() > 0,
        m < 0 ==> int_decimal(m) == seq!['-'] + nat_digits((-m) as nat),
        m >= 0 ==> int_decimal(m) == nat_digits(m as nat),
    decreases n,
{
    if n >= 10 {
        law_decimal_digits(n / 10, d, m);
        assert(nat_digits(n)[0] == nat_digits(n / 10)[0]);
    }
}

/// The line structure of a text depends only on the text from the given
/// position on.
proof fn lemma_lines_shift(x: Seq<char>, y: Seq<char>, i: int)
    requires
        0 <= i <= y.len(),
    ensures
        line_end(x + y, x.len() + i) == x.len() + line_end(y, i),
        crate::text::lines_from(x + y, x.len() + i) == crate::text::lines_from(y, i),
    decreases y.len() - i,
{
    let s = x + y;
    if i < y.len() {
        assert(s[x.len() + i] == y[i]);
        lemma_lines_shift(x, y, i + 1);
        crate::text::lemma_line_end_bounds(y, i);
        let e = line_end(y, i);
        assert(s.subrange(x.len() + i, x.len() + e) =~= y.subrange(i, e));
        if e < y.len() {
            lemma_lines_shift(x, y, e + 1);
        }
    }
}

/// A preview shows one line per line break: the text before the first break
/// (without a carriage return before the break), then the lines of the
/// rest; a text without a break is one line, and the empty text none.
pub proof fn law_preview_lines(a: Seq<char>, b: Seq<char>)
    requires
        !a.contains('\n'),
    ensures
        lines_spec(a + seq!['\n'] + b) == seq![
            if a.len() > 0 && a.last() == '\r' {
                a.drop_last()
            } else {
                a
            },
        ] + lines_spec(b),
        a.len() > 0 ==> lines_spec(a) == seq![a],
        lines_spec(Seq::<char>::empty()).len() == 0,
{
    let x = a + seq!['\n'];
    let s = x + b;
    assert(a + seq!['\n'] + b == s);
    crate::text::lemma_line_end_bounds(s, 0);
    assert forall|j: int| 0 <= j < a.len() implies s[j] != '\n' by {
        assert(s[j] == a[j]);
    }
    assert(s[a.len() as int] == '\n');
    assert(line_end(s, 0) == a.len());
    assert(s.subrange(0, a.len() as int) =~= a);
    lemma_lines_shift(x, b, 0);
    if a.len() > 0 {
        crate::text::lemma_line_end_bounds(a, 0);
        if line_end(a, 0) < a.len() {
            assert(a[line_end(a, 0)] == '\n');
        }
        assert(a.subrange(0, a.len() as int) =~= a);
    }
}


/// The chooser line of a recipe is its name left-aligned in a column of 16
/// characters (longer names are kept whole), then its category in brackets,
/// then its description.
pub proof fn law_choice_line_layout(s: RecipeSummary)
    ensures
        exists|pad: Seq<char>|
            {
                &&& pad.len() == if s.name@.len() >= 16 { s.name@.len() } else { 16 }
                &&& pad.take(s.name@.len() as int) == s.name@
                &&& forall|k: int| s.name@.len() <= k < pad.len() ==> #[trigger] pad[k] == ' '
                &&& choice_line_spec(s) == pad + " ["@ + s.category@ + "] - "@ + s.description@
            },
{
    let pad = pad_right_spec(s.name@, 16);
    assert(pad.take(s.name@.len() as int) =~= s.name@);
}

/// The chooser offers one line per listed recipe, in listing order.
pub proof fn law_one_choice_per_recipe(list: Seq<RecipeSummary>)
    ensures
        choice_lines(list).len() == list.len(),
        forall|i: int| 0 <= i < list.len() ==> #[trigger] choice_lines(list)[i] == choice_line_spec(list[i]),
{
}

/// A rendering result agrees with minijinja's outcome when both are the same
/// text, or both are failures of the same kind with the same message; a
/// syntax error is marked as one, any other failure is not.
pub proof fn law_render_result_agrees(
    s: String,
    e: crate::template::TemplateError,
    out: Seq<char>,
    fail: (bool, Seq<char>),
    detail: String,
)
    ensures
        render_agrees(Ok(s), Ok::<Seq<char>, (bool, Seq<char>)>(out)) <==> s@ == out,
        !render_agrees(Ok(s), Err::<Seq<char>, (bool, Seq<char>)>(fail)),
        !render_agrees(Err(e), Ok::<Seq<char>, (bool, Seq<char>)>(out)),
        render_agrees(Err(e), Err::<Seq<char>, (bool, Seq<char>)>(fail)) <==> crate::template::template_error_view(e)
            == fail,
        crate::template::template_error_view(crate::template::TemplateError::Syntax { detail }) == (true, detail@),
        crate::template::template_error_view(crate::template::TemplateError::Render { detail }) == (false, detail@),
{
}


/// The listing of the built-in recipes has one summary per recipe, in name
/// order; each recipe is listed with its own name, version, description and
/// category, as found at its raw URL `<name>.yaml` in the repository.
pub proof fn law_builtin_listing(embedded: Seq<Recipe>, r: Seq<RecipeSummary>, i: int)
    requires
        lists_builtin(embedded, r),
        0 <= i < embedded.len(),
    ensures
        r.len() == embedded.len(),
        exists|k: int|
            0 <= k < r.len() && {
                let s = #[trigger] r[k];
                &&& s.name@ == embedded[i].name@
                &&& s.version@ == embedded[i].version@
                &&& s.description@ == embedded[i].description@
                &&& s.category@ == embedded[i].category@
                &&& s.source matches RecipeSource::Remote(u) && u@
                    == "https://raw.githubusercontent.com/yunhai-dev/dpilot/main/recipes/"@ + embedded[i].name@
                    + ".yaml"@
            },
        forall|a: int, b: int| 0 <= a < b < r.len() ==> !text_lt(#[trigger] r[b].name@, #[trigger] r[a].name@),
{
    let (inp, p) = choose|inp: Seq<RecipeSummary>, p: Seq<int>|
        {
            &&& inp.len() == embedded.len()
            &&& forall|i: int|
                0 <= i < inp.len() ==> {
                    &&& summarizes(#[trigger] inp[i], embedded[i], inp[i].source)
                    &&& is_remote_at(inp[i].source, raw_recipe_url_spec(embedded[i].name@ + ".yaml"@))
                }
            &&& stable_sort_of(r, inp, p)
        };
    law_sorting_keeps_every_summary(r, inp, p, i);
    let k = choose|k: int| 0 <= k < r.len() && r[k] == inp[i];
    assert(summarizes(inp[i], embedded[i], inp[i].source));
    law_builtin_listed_at_raw_url(inp[i].source, embedded[i].name@);
    assert(r[k] == inp[i]);
}

/// An entry whose content parsed is among the parsed entries, in its place.
proof fn lemma_parsed_entry_kept(fetched: Seq<(String, Option<Recipe>)>, i: int)
    requires
        0 <= i < fetched.len(),
        fetched[i].1 is Some,
    ensures
        exists|j: int|
            0 <= j < parsed_only(fetched).len() && #[trigger] parsed_only(fetched)[j] == (
            fetched[i].0,
            fetched[i].1->0,
        ),
    decreases fetched.len(),
{
    let last = fetched.len() - 1;
    let rest = fetched.drop_last();
    if i < last {
        assert(rest[i] == fetched[i]);
        lemma_parsed_entry_kept(rest, i);
        let j = choose|j: int|
            0 <= j < parsed_only(rest).len() && #[trigger] parsed_only(rest)[j] == (rest[i].0, rest[i].1->0);
        match fetched.last().1 {
            Some(rc) => {
                assert(parsed_only(fetched) == parsed_only(rest).push((fetched.last().0, rc)));
                assert(parsed_only(fetched)[j] == parsed_only(rest)[j]);
            },
            None => {
                assert(parsed_only(fetched) == parsed_only(rest));
            },
        }
        assert(parsed_only(fetched)[j] == (fetched[i].0, fetched[i].1->0));
    } else {
        assert(fetched.last() == fetched[i]);
        assert(parsed_only(fetched) == parsed_only(rest).push((fetched[i].0, fetched[i].1->0)));
        assert(parsed_only(fetched)[parsed_only(rest).len() as int] == (fetched[i].0, fetched[i].1->0));
    }
}

/// The listing read from the repository shows every fetched recipe that
/// parsed, with its own name, description and category and with the URL it
/// was fetched from as its source, and nothing else, in name order.
pub proof fn law_fetched_listing(fetched: Seq<(String, Option<Recipe>)>, r: Seq<RecipeSummary>, i: int)
    requires
        lists_fetched(fetched, r),
        0 <= i < fetched.len(),
        fetched[i].1 is Some,
    ensures
        r.len() == parsed_only(fetched).len(),
        exists|k: int|
            0 <= k < r.len() && {
                let s = #[trigger] r[k];
                let rec = fetched[i].1->0;
                &&& s.name@ == rec.name@
                &&& s.version@ == rec.version@
                &&& s.description@ == rec.description@
                &&& s.category@ == rec.category@
                &&& s.source matches RecipeSource::Remote(u) && u@ == fetched[i].0@
            },
        forall|a: int, b: int| 0 <= a < b < r.len() ==> !text_lt(#[trigger] r[b].name@, #[trigger] r[a].name@),
{
    let (inp, p) = choose|inp: Seq<RecipeSummary>, p: Seq<int>|
        {
            &&& inp.len() == parsed_only(fetched).len()
            &&& forall|i: int|
                0 <= i < inp.len() ==> summarizes(
                    #[trigger] inp[i],
                    parsed_only(fetched)[i].1,
                    RecipeSource::Remote(parsed_only(fetched)[i].0),
                )
            &&& stable_sort_of(r, inp, p)
        };
    lemma_parsed_entry_kept(fetched, i);
    let j = choose|j: int|
        0 <= j < parsed_only(fetched).len() && #[trigger] parsed_only(fetched)[j] == (fetched[i].0, fetched[i].1->0);
    law_sorting_keeps_every_summary(r, inp, p, j);
    let k = choose|k: int| 0 <= k < r.len() && r[k] == inp[j];
    assert(summarizes(inp[j], parsed_only(fetched)[j].1, RecipeSource::Remote(parsed_only(fetched)[j].0)));
    assert(r[k] == inp[j]);
}

/// The listing is the repository's when the repository gave any summary,
/// and otherwise that of the built-in recipes (offline, or nothing found).
pub proof fn law_listing_source(
    remote: Option<Vec<RecipeSummary>>,
    embedded: Seq<Recipe>,
    r: Seq<RecipeSummary>,
)
    requires
        lists_available(remote, embedded, r),
    ensures
        (remote matches Some(list) && list@.len() > 0) ==> r == remote->0@,
        (remote is None || remote->0@.len() == 0) ==> lists_builtin(embedded, r) && r.len() == embedded.len(),
{
    if remote is None || remote->0@.len() == 0 {
        if embedded.len() > 0 {
            law_builtin_listing(embedded, r, 0);
        } else {
            let (inp, p) = choose|inp: Seq<RecipeSummary>, p: Seq<int>|
                {
                    &&& inp.len() == embedded.len()
                    &&& forall|i: int|
                        0 <= i < inp.len() ==> {
                            &&& summarizes(#[trigger] inp[i], embedded[i], inp[i].source)
                            &&& is_remote_at(inp[i].source, raw_recipe_url_spec(embedded[i].name@ + ".yaml"@))
                        }
                    &&& stable_sort_of(r, inp, p)
                };
        }
    }
}

} // verus!
