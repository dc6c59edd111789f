//! The question-and-answer form of a recipe: what each prompt shows and
//! accepts, the answers it produces, and the summary shown before deploying.
use vstd::prelude::*;
use crate::context::{ContextValue, InputContext, ValueView};
use crate::recipe::{InputSpec, InputType, Recipe};
use crate::text::{concat, concat3, i64_to_text, int_decimal, is_blank, is_blank_seq, owned};

verus! {

/// How a single input is asked.
#[derive(Debug, Clone)]
pub enum PromptKind {
    Text { default: Option<String>, required: bool },
    Number { default: Option<i64> },
    Password { required: bool },
    Confirm { default: bool },
    Select { options: Vec<String>, starting_cursor: Option<usize> },
}

/// A prompt to show: its message, help text and kind.
#[derive(Debug, Clone)]
pub struct PromptPlan {
    pub message: String,
    pub help: Option<String>,
    pub kind: PromptKind,
}

/// Asks a recipe's questions and summarises the answers.
pub struct PromptWizard;

/// The position of the first option equal to `d`, or 0 when there is none.
pub open spec fn option_index(options: Seq<String>, d: Seq<char>) -> int
    decreases options.len(),
{
    if options.len() == 0 {
        0
    } else if options[0]@ == d {
        0
    } else if exists|k: int| 0 <= k < options.len() && (#[trigger] options[k])@ == d {
        1 + option_index(options.drop_first(), d)
    } else {
        0
    }
}

/// The text of an optional string.
pub open spec fn opt_string_view(o: Option<String>) -> Option<Seq<char>> {
    match o {
        Some(s) => Some(s@),
        None => None,
    }
}

/// The prompt for `input`: message `"│  <prompt>"`, the input's help, and per
/// kind the default taken from the input's `default` and whether an answer is
/// required.
pub open spec fn plan_spec(input: InputSpec, plan: PromptPlan) -> bool {
    &&& plan.message@ == "│  "@ + input.prompt@
    &&& opt_string_view(plan.help) == opt_string_view(input.help)
    &&& match input.input_type {
        InputType::Text => plan.kind matches PromptKind::Text { default, required }
            && required == input.required.unwrap_or(false)
            && opt_string_view(default) == match input.default {
                Some(d) => opt_string_view(d.text),
                None => None,
            },
        InputType::Number => plan.kind matches PromptKind::Number { default }
            && default == match input.default {
                Some(d) => d.integer,
                None => None,
            },
        InputType::Password => plan.kind matches PromptKind::Password { required }
            && required == input.required.unwrap_or(false),
        InputType::Confirm => plan.kind matches PromptKind::Confirm { default }
            && default == match input.default {
                Some(d) => d.boolean.unwrap_or(true),
                None => true,
            },
        InputType::Select => plan.kind matches PromptKind::Select { options, starting_cursor }
            && options@ == match input.options {
                Some(o) => o@,
                None => Seq::empty(),
            }
            && starting_cursor == match input.options {
                Some(o) if o.len() > 0 => Some(
                    match input.default {
                        Some(d) => match d.text {
                            Some(t) => option_index(o@, t@) as usize,
                            None => 0usize,
                        },
                        None => 0usize,
                    },
                ),
                _ => None,
            },
    }
}

/// The answers of `inputs`, one per input in order, as a map from input id to
/// value (a later input with the same id wins).
pub open spec fn answers_map(inputs: Seq<InputSpec>, answers: Seq<ContextValue>) -> Map<Seq<char>, ValueView>
    decreases inputs.len(),
{
    if inputs.len() == 0 || answers.len() == 0 {
        Map::empty()
    } else {
        answers_map(inputs.drop_last(), answers.drop_last()).insert(inputs.last().id@, answers.last()@)
    }
}

/// What the summary shows for an input of type `t` whose answer is `v`:
/// a password as a mask, numbers in decimal, flags as yes/no, and `-` when
/// there is no answer.
pub open spec fn display_spec(t: InputType, v: Option<ValueView>) -> Seq<char> {
    match v {
        Some(ValueView::Text(s)) => if t == InputType::Password {
            "••••••••"@
        } else {
            s
        },
        Some(ValueView::Number(n)) => int_decimal(n),
        Some(ValueView::Bool(b)) => if b {
            "yes"@
        } else {
            "no"@
        },
        None => "-"@,
    }
}

/// The answer recorded for `id`, if any.
pub open spec fn lookup(m: Map<Seq<char>, ValueView>, id: Seq<char>) -> Option<ValueView> {
    if m.contains_key(id) {
        Some(m[id])
    } else {
        None
    }
}

/// The complaint about `answer` to `input`: a blank answer to a required
/// text or password input is refused with that kind's message; every other
/// answer is accepted.
pub open spec fn complaint_spec(input: InputSpec, answer: Seq<char>) -> Option<Seq<char>> {
    if input.required == Some(true) && is_blank_seq(answer) {
        match input.input_type {
            InputType::Text => Some("This field cannot be empty"@),
            InputType::Password => Some("Password cannot be empty"@),
            _ => None,
        }
    } else {
        None
    }
}

impl PromptWizard {
    /// How `input` is asked.
    pub fn plan_prompt(input: &InputSpec) -> (plan: PromptPlan)
        ensures
            plan_spec(*input, plan),
    {
        let message = concat("│  ", input.prompt.as_str());
        let help = match &input.help {
            Some(h) => Some(h.clone()),
            None => None,
        };
        let required = match input.required {
            Some(b) => b,
            None => false,
        };
        let kind = match input.input_type {
            InputType::Text => {
                let default = match &input.default {
                    Some(d) => match &d.text {
                        Some(t) => Some(t.clone()),
                        None => None,
                    },
                    None => None,
                };
                PromptKind::Text { default, required }
            },
            InputType::Number => {
                let default = match &input.default {
                    Some(d) => d.integer,
                    None => None,
                };
                PromptKind::Number { default }
            },
            InputType::Password => PromptKind::Password { required },
            InputType::Confirm => {
                let default = match &input.default {
                    Some(d) => match d.boolean {
                        Some(b) => b,
                        None => true,
                    },
                    None => true,
                };
                PromptKind::Confirm { default }
            },
            InputType::Select => {
                let options = match &input.options {
                    Some(o) => copy_strings(o),
                    None => Vec::new(),
                };
                let starting_cursor = match &input.options {
                    Some(o) => {
                        if o.len() > 0 {
                            let idx = match &input.default {
                                Some(d) => match &d.text {
                                    Some(t) => first_position(o, t),
                                    None => 0,
                                },
                                None => 0,
                            };
                            Some(idx)
                        } else {
                            None
                        }
                    },
                    None => None,
                };
                PromptKind::Select { options, starting_cursor }
            },
        };
        PromptPlan { message, help, kind }
    }

    /// The complaint about `answer` to `input`, if any: a required text or
    /// password input must not be blank.
    pub fn check_required(input: &InputSpec, answer: &str) -> (r: Option<String>)
        ensures
            r matches Some(m) ==> {
                &&& input.input_type == InputType::Text || input.input_type == InputType::Password
                &&& input.required == Some(true)
                &&& is_blank_seq(answer@)
                &&& input.input_type == InputType::Text ==> m@ == "This field cannot be empty"@
                &&& input.input_type == InputType::Password ==> m@ == "Password cannot be empty"@
            },
            r is None ==> !(input.required == Some(true) && is_blank_seq(answer@) && (
            input.input_type == InputType::Text || input.input_type == InputType::Password)),
            opt_string_view(r) == complaint_spec(*input, answer@),
    {
        let required = match input.required {
            Some(b) => b,
            None => false,
        };
        if !required {
            return None;
        }
        match input.input_type {
            InputType::Text => if is_blank(answer) {
                Some(owned("This field cannot be empty"))
            } else {
                None
            },
            InputType::Password => if is_blank(answer) {
                Some(owned("Password cannot be empty"))
            } else {
                None
            },
            _ => None,
        }
    }

    /// The answers of a recipe's inputs, `answers[i]` being the answer to
    /// `recipe.inputs[i]`, as a map by input id.
    pub fn collect_inputs(recipe: &Recipe, answers: Vec<ContextValue>) -> (c: InputContext)
        requires
            answers.len() == recipe.inputs.len(),
        ensures
            c@ == answers_map(recipe.inputs@, answers@),
    {
        let mut c = InputContext::new();
        let mut rest = answers;
        let ghost all = rest@;
        let n = rest.len();
        let mut i: usize = 0;
        assert(all.skip(0) =~= all);
        assert(answers_map(recipe.inputs@.take(0), all.take(0)) == Map::<Seq<char>, ValueView>::empty());
        while i < n
            invariant
                n == all.len(),
                n == recipe.inputs.len(),
                i <= n,
                rest@ == all.skip(i as int),
                c@ == answers_map(recipe.inputs@.take(i as int), all.take(i as int)),
            decreases n - i,
        {
            let v = rest.remove(0);
            let id = recipe.inputs[i].id.clone();
            proof {
                let ins = recipe.inputs@.take(i + 1);
                let ans = all.take(i + 1);
                assert(ins.drop_last() =~= recipe.inputs@.take(i as int));
                assert(ans.drop_last() =~= all.take(i as int));
                assert(ans.last() == v);
            }
            c.insert(id, v);
            assert(rest@ =~= all.skip(i + 1));
            i = i + 1;
        }
        assert(recipe.inputs@.take(n as int) =~= recipe.inputs@);
        assert(all.take(n as int) =~= all);
        c
    }

    /// The banner shown before a recipe's questions: its name and version, its
    /// description, its author when it has one, and a closing bar.
    pub fn banner_lines(recipe: &Recipe) -> (lines: Vec<String>)
        ensures
            lines@.len() == if recipe.author is Some { 4int } else { 3int },
            lines@[0]@ == "◆ Deploying: "@ + recipe.name@ + " (v"@ + recipe.version@ + ")"@,
            lines@[1]@ == "│ "@ + recipe.description@,
            recipe.author matches Some(a) ==> lines@[2]@ == "│ Author: "@ + a@,
            lines@[lines@.len() - 1]@ == "│"@,
    {
        let mut lines: Vec<String> = Vec::new();
        let a = concat3("◆ Deploying: ", recipe.name.as_str(), " (v");
        lines.push(concat3(a.as_str(), recipe.version.as_str(), ")"));
        lines.push(concat("│ ", recipe.description.as_str()));
        if let Some(author) = &recipe.author {
            lines.push(concat("│ Author: ", author.as_str()));
        }
        lines.push(owned("│"));
        lines
    }

    /// What the summary shows for an input of type `t` answered with `v`.
    pub fn display_value(t: InputType, v: Option<&ContextValue>) -> (r: String)
        ensures
            r@ == display_spec(
                t,
                match v {
                    Some(x) => Some(x@),
                    None => None,
                },
            ),
    {
        match v {
            Some(ContextValue::Text(s)) => if t == InputType::Password {
                owned("••••••••")
            } else {
                s.clone()
            },
            Some(ContextValue::Number(n)) => i64_to_text(*n),
            Some(ContextValue::Bool(b)) => if *b {
                owned("yes")
            } else {
                owned("no")
            },
            None => owned("-"),
        }
    }

    /// The rows of the configuration summary: one per input, in order, with
    /// the input's id and what is shown for its answer.
    pub fn summary_rows(recipe: &Recipe, values: &InputContext) -> (rows: Vec<(String, String)>)
        ensures
            rows@.len() == recipe.inputs@.len(),
            forall|i: int|
                0 <= i < rows@.len() ==> {
                    &&& (#[trigger] rows@[i]).0@ == recipe.inputs@[i].id@
                    &&& rows@[i].1@ == display_spec(
                        recipe.inputs@[i].input_type,
                        lookup(values@, recipe.inputs@[i].id@),
                    )
                },
    {
        let mut rows: Vec<(String, String)> = Vec::new();
        let mut i: usize = 0;
        while i < recipe.inputs.len()
            invariant
                i <= recipe.inputs.len(),
                rows@.len() == i,
                forall|k: int|
                    0 <= k < i ==> {
                        &&& (#[trigger] rows@[k]).0@ == recipe.inputs@[k].id@
                        &&& rows@[k].1@ == display_spec(
                            recipe.inputs@[k].input_type,
                            lookup(values@, recipe.inputs@[k].id@),
                        )
                    },
            decreases recipe.inputs.len() - i,
        {
            let input = &recipe.inputs[i];
            let v = values.get(input.id.as_str());
            let shown = Self::display_value(input.input_type, v);
            rows.push((input.id.clone(), shown));
            i = i + 1;
        }
        rows
    }
}

/// A copy of a list of strings.
fn copy_strings(v: &Vec<String>) -> (r: Vec<String>)
    ensures
        r@ == v@,
{
    let mut r: Vec<String> = Vec::new();
    let mut i: usize = 0;
    while i < v.len()
        invariant
            i <= v.len(),
            r@ == v@.take(i as int),
        decreases v.len() - i,
    {
        r.push(v[i].clone());
        assert(r@ =~= v@.take(i + 1));
        i = i + 1;
    }
    assert(v@.take(v.len() as int) =~= v@);
    r
}

/// The position of the first option equal to `d`, or 0.
fn first_position(options: &Vec<String>, d: &String) -> (r: usize)
    ensures
        r == option_index(options@, d@),
{
    let mut i: usize = 0;
    while i < options.len()
        invariant
            i <= options.len(),
            forall|k: int| 0 <= k < i ==> (#[trigger] options@[k])@ != d@,
        decreases options.len() - i,
    {
        if options[i].eq(d) {
            proof {
                lemma_option_index_found(options@, d@, i as int);
            }
            return i;
        }
        i = i + 1;
    }
    proof {
        lemma_option_index_absent(options@, d@);
    }
    0
}

/// The first match decides `option_index`.
proof fn lemma_option_index_found(options: Seq<String>, d: Seq<char>, i: int)
    requires
        0 <= i < options.len(),
        options[i]@ == d,
        forall|k: int| 0 <= k < i ==> (#[trigger] options[k])@ != d,
    ensures
        option_index(options, d) == i,
    decreases i,
{
    if i > 0 {
        let rest = options.drop_first();
        assert(rest[i - 1] == options[i]);
        assert forall|k: int| 0 <= k < i - 1 implies (#[trigger] rest[k])@ != d by {
            assert(rest[k] == options[k + 1]);
        }
        lemma_option_index_found(rest, d, i - 1);
        assert(exists|k: int| 0 <= k < options.len() && (#[trigger] options[k])@ == d);
    }
}

/// Without a match, `option_index` is 0.
proof fn lemma_option_index_absent(options: Seq<String>, d: Seq<char>)
    requires
        forall|k: int| 0 <= k < options.len() ==> (#[trigger] options[k])@ != d,
    ensures
        option_index(options, d) == 0,
{
}

} // verus!
