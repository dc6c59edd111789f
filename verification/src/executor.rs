//! The decisions of running a recipe's steps: which steps run, what a dry run
//! shows, and what a finished step means for the deployment.
use vstd::prelude::*;
use crate::context::InputContext;
use crate::recipe::{platform_admits, Recipe, StepSpec};
use crate::template::{rendered_template, TemplateEngine, TemplateError};
use crate::text::{concat3, lines_of, lines_spec, nat_digits, owned, u64_to_text, views};

verus! {

/// What to do with one step.
#[derive(Debug, Clone, Copy, PartialEq, Eq, Structural)]
pub enum StepAction {
    /// The step does not run on this platform.
    Skip,
    /// Dry run: show the rendered command only.
    Preview,
    /// Run the rendered command.
    Execute,
}

/// What a finished step means.
#[derive(Debug, Clone)]
pub enum StepOutcome {
    /// The command succeeded.
    Succeeded,
    /// The command failed, and the step allows that.
    FailureIgnored,
    /// The command failed and the deployment stops; `error_tail` holds the
    /// error lines to show (empty when there are none to show).
    Failed { error_tail: Vec<String> },
}

/// What to do next while running a recipe's steps.
#[derive(Debug, Clone)]
pub enum Directive {
    /// Step `index` does not run on this platform.
    Skip { index: usize },
    /// Dry run: show these lines of step `index`'s rendered command.
    Preview { index: usize, lines: Vec<String> },
    /// Run step `index` with this rendered command.
    Execute { index: usize, command: String },
    /// Step `index`'s command could not be rendered; the run stops.
    RenderFailed { index: usize, error: TemplateError },
    /// Every step has been handled.
    Finished,
}

/// What happened with the current step of a run.
#[derive(Debug, Clone)]
pub enum StepEvent {
    /// There was no step left.
    Finished,
    /// The step was skipped for this platform.
    Skipped,
    /// The step's command was shown (dry run).
    Previewed,
    /// The step's command could not be rendered.
    RenderFailed,
    /// The step's command ran, with this outcome.
    Ran(StepOutcome),
}

/// How a run goes on after a step.
#[derive(Debug, Clone, Copy, PartialEq, Eq, Structural)]
pub enum RunControl {
    /// Continue with the step at `index`.
    Next { index: usize },
    /// The run is over; `failed` tells whether it stopped on an error.
    Stop { failed: bool },
}

/// How a run goes on after `event` at step `index`: it ends when no step is
/// left, and stops with an error on a render failure or a failed step;
/// otherwise it goes on with the next step.
pub open spec fn advance_spec(index: usize, event: StepEvent) -> RunControl {
    match event {
        StepEvent::Finished => RunControl::Stop { failed: false },
        StepEvent::RenderFailed => RunControl::Stop { failed: true },
        StepEvent::Ran(StepOutcome::Failed { .. }) => RunControl::Stop { failed: true },
        _ => RunControl::Next { index: (index + 1) as usize },
    }
}

/// Runs recipes.
pub struct ExecutionEngine;

/// What to do with step `index` of `recipe`: past the last step the run is
/// finished; a step not for this platform is skipped; otherwise its command
/// is rendered against `context`, and shown (dry run) or run, unless the
/// rendering failed.
pub open spec fn directive_spec(
    recipe: Recipe,
    context: InputContext,
    os: Seq<char>,
    dry_run: bool,
    index: usize,
    d: Directive,
) -> bool {
    if index >= recipe.steps@.len() {
        d is Finished
    } else {
        let step = recipe.steps@[index as int];
        let rendered = rendered_template(step.command@, context@);
        match action_spec(step, os, dry_run) {
            StepAction::Skip => d == Directive::Skip { index },
            StepAction::Preview => match rendered {
                Ok(out) => d matches Directive::Preview { index: i, lines } && i == index && views(lines@)
                    == lines_spec(out),
                Err(fail) => d matches Directive::RenderFailed { index: i, error } && i == index
                    && crate::template::template_error_view(error) == fail,
            },
            StepAction::Execute => match rendered {
                Ok(out) => d matches Directive::Execute { index: i, command } && i == index && command@
                    == out,
                Err(fail) => d matches Directive::RenderFailed { index: i, error } && i == index
                    && crate::template::template_error_view(error) == fail,
            },
        }
    }
}

/// Whether a step shows its output while running (shown unless it says not).
pub open spec fn shows_output(step: StepSpec) -> bool {
    step.show_output.unwrap_or(true)
}

/// Whether a failure of the step is tolerated (not unless it says so).
pub open spec fn allows_failure(step: StepSpec) -> bool {
    step.allow_failure.unwrap_or(false)
}

/// The last `min(15, len)` lines, in order.
pub open spec fn last_lines(lines: Seq<String>) -> Seq<String> {
    if lines.len() <= 15 {
        lines
    } else {
        lines.skip(lines.len() - 15)
    }
}

/// The action for a step on platform `os`.
pub open spec fn action_spec(step: StepSpec, os: Seq<char>, dry_run: bool) -> StepAction {
    if !platform_admits(step.platforms, os) {
        StepAction::Skip
    } else if dry_run {
        StepAction::Preview
    } else {
        StepAction::Execute
    }
}

/// The meaning of a finished step.
pub open spec fn outcome_spec(step: StepSpec, success: bool, stderr: Seq<String>, r: StepOutcome) -> bool {
    if success {
        r is Succeeded
    } else if allows_failure(step) {
        r is FailureIgnored
    } else {
        r matches StepOutcome::Failed { error_tail } && error_tail@ == if !shows_output(step) {
            last_lines(stderr)
        } else {
            Seq::empty()
        }
    }
}

impl ExecutionEngine {
    /// What to do with `step` on platform `os`.
    pub fn step_action(step: &StepSpec, os: &str, dry_run: bool) -> (a: StepAction)
        ensures
            a == action_spec(*step, os@, dry_run),
    {
        if !Recipe::supports_platform(&step.platforms, os) {
            StepAction::Skip
        } else if dry_run {
            StepAction::Preview
        } else {
            StepAction::Execute
        }
    }

    /// The lines a dry run shows for a rendered command.
    pub fn preview_lines(rendered: &str) -> (lines: Vec<String>)
        ensures
            views(lines@) == lines_spec(rendered@),
    {
        lines_of(rendered)
    }

    /// Whether `step` shows its output while running.
    pub fn show_output(step: &StepSpec) -> (b: bool)
        ensures
            b == shows_output(*step),
    {
        match step.show_output {
            Some(b) => b,
            None => true,
        }
    }

    /// Whether a failure of `step` is tolerated.
    pub fn allow_failure(step: &StepSpec) -> (b: bool)
        ensures
            b == allows_failure(*step),
    {
        match step.allow_failure {
            Some(b) => b,
            None => false,
        }
    }

    /// What it means that `step` finished (`success` tells whether the command
    /// exited successfully; `stderr_lines` are its error lines).
    pub fn step_outcome(step: &StepSpec, success: bool, stderr_lines: &Vec<String>) -> (r: StepOutcome)
        ensures
            outcome_spec(*step, success, stderr_lines@, r),
    {
        if success {
            return StepOutcome::Succeeded;
        }
        if Self::allow_failure(step) {
            return StepOutcome::FailureIgnored;
        }
        let mut tail: Vec<String> = Vec::new();
        if !Self::show_output(step) {
            let n = stderr_lines.len();
            let start: usize = if n <= 15 {
                0
            } else {
                n - 15
            };
            let mut k: usize = start;
            while k < n
                invariant
                    n == stderr_lines@.len(),
                    start <= k <= n,
                    tail@ == stderr_lines@.subrange(start as int, k as int),
                decreases n - k,
            {
                tail.push(stderr_lines[k].clone());
                assert(tail@ =~= stderr_lines@.subrange(start as int, k + 1));
                k = k + 1;
            }
            assert(tail@ =~= last_lines(stderr_lines@));
        }
        StepOutcome::Failed { error_tail: tail }
    }

    /// The position label of a step, `[<step_num>/<total>]`.
    pub fn step_label(step_num: usize, total: usize) -> (r: String)
        ensures
            r@ == "["@ + nat_digits(step_num as nat) + "/"@ + nat_digits(total as nat) + "]"@,
    {
        let a = u64_to_text(step_num as u64);
        let b = u64_to_text(total as u64);
        let l = concat3("[", a.as_str(), "/");
        concat3(l.as_str(), b.as_str(), "]")
    }

    /// The note shown for a skipped step.
    pub fn skip_note(os: &str) -> (r: String)
        ensures
            r@ == "(跳过：不支持当前系统 "@ + os@ + ")"@,
    {
        concat3("(跳过：不支持当前系统 ", os, ")")
    }

    /// The heading shown before running the steps.
    pub fn start_heading(total: usize) -> (r: String)
        ensures
            r@ == "🚀 开始执行部署: 共 "@ + nat_digits(total as nat) + " 个步骤"@,
    {
        let n = u64_to_text(total as u64);
        concat3("🚀 开始执行部署: 共 ", n.as_str(), " 个步骤")
    }

    /// The closing line: a dry-run notice, or the success message for the
    /// recipe `name`.
    pub fn finish_message(name: &str, dry_run: bool) -> (r: String)
        ensures
            dry_run ==> r@ == "✔ 演练模式执行完成。未在系统执行任何真实命令。"@,
            !dry_run ==> r@ == "✔ 配方 ["@ + name@ + "] 已成功部署完成！"@,
    {
        if dry_run {
            owned("✔ 演练模式执行完成。未在系统执行任何真实命令。")
        } else {
            concat3("✔ 配方 [", name, "] 已成功部署完成！")
        }
    }
}

impl ExecutionEngine {
    /// What to do with step `index` of `recipe` on platform `os`, with the
    /// answers `context`.
    pub fn next_directive(recipe: &Recipe, context: &InputContext, os: &str, dry_run: bool, index: usize) -> (d: Directive)
        ensures
            directive_spec(*recipe, *context, os@, dry_run, index, d),
    {
        if index >= recipe.steps.len() {
            return Directive::Finished;
        }
        let step = &recipe.steps[index];
        match Self::step_action(step, os, dry_run) {
            StepAction::Skip => Directive::Skip { index },
            StepAction::Preview => match TemplateEngine::render_str(step.command.as_str(), context) {
                Ok(out) => Directive::Preview { index, lines: lines_of(out.as_str()) },
                Err(error) => Directive::RenderFailed { index, error },
            },
            StepAction::Execute => match TemplateEngine::render_str(step.command.as_str(), context) {
                Ok(command) => Directive::Execute { index, command },
                Err(error) => Directive::RenderFailed { index, error },
            },
        }
    }
}

impl ExecutionEngine {
    /// How a run goes on after `event` at step `index`.
    pub fn advance(index: usize, event: &StepEvent) -> (c: RunControl)
        requires
            index < usize::MAX,
        ensures
            c == advance_spec(index, *event),
    {
        match event {
            StepEvent::Finished => RunControl::Stop { failed: false },
            StepEvent::RenderFailed => RunControl::Stop { failed: true },
            StepEvent::Ran(StepOutcome::Failed { .. }) => RunControl::Stop { failed: true },
            _ => RunControl::Next { index: index + 1 },
        }
    }
}

} // verus!
