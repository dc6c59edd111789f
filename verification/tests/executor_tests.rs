use dpilot::executor::{RunControl, StepEvent};
use dpilot::context::{ContextValue, InputContext};
use dpilot::executor::Directive;
use dpilot::executor::{ExecutionEngine, StepAction, StepOutcome};
use dpilot::recipe::StepSpec;

fn plain_step(platforms: Option<Vec<&str>>, allow_failure: Option<bool>, show_output: Option<bool>) -> StepSpec {
    StepSpec {
        name: "s".to_string(),
        command: "true".to_string(),
        working_dir: None,
        env: None,
        allow_failure,
        show_output,
        platforms: platforms.map(|p| p.into_iter().map(|s| s.to_string()).collect()),
    }
}

#[test]
fn steps_for_other_platforms_are_skipped() {
    let s = plain_step(Some(vec!["Linux"]), None, None);
    assert_eq!(ExecutionEngine::step_action(&s, "linux", false), StepAction::Execute);
    assert_eq!(ExecutionEngine::step_action(&s, "darwin", false), StepAction::Skip);
    assert_eq!(ExecutionEngine::step_action(&s, "darwin", true), StepAction::Skip);
    let any = plain_step(None, None, None);
    assert_eq!(ExecutionEngine::step_action(&any, "windows", true), StepAction::Preview);
    let empty = plain_step(Some(Vec::new()), None, None);
    assert_eq!(ExecutionEngine::step_action(&empty, "windows", false), StepAction::Execute);
}

#[test]
fn preview_splits_lines_like_str_lines() {
    let text = "docker run\r\n  --name x\n\nlast\r";
    let expected: Vec<String> = text.lines().map(|l| l.to_string()).collect();
    assert_eq!(ExecutionEngine::preview_lines(text), expected);
    assert_eq!(ExecutionEngine::preview_lines("a\n"), vec!["a".to_string()]);
    assert!(ExecutionEngine::preview_lines("").is_empty());
}

#[test]
fn failures_follow_the_step_settings() {
    let errs: Vec<String> = (1..=20).map(|i| format!("e{}", i)).collect();
    assert!(matches!(ExecutionEngine::step_outcome(&plain_step(None, None, None), true, &errs), StepOutcome::Succeeded));
    assert!(matches!(
        ExecutionEngine::step_outcome(&plain_step(None, Some(true), None), false, &errs),
        StepOutcome::FailureIgnored
    ));
    match ExecutionEngine::step_outcome(&plain_step(None, None, Some(false)), false, &errs) {
        StepOutcome::Failed { error_tail } => {
            assert_eq!(error_tail.len(), 15);
            assert_eq!(error_tail[0], "e6");
            assert_eq!(error_tail[14], "e20");
        }
        other => panic!("unexpected {:?}", other),
    }
    match ExecutionEngine::step_outcome(&plain_step(None, None, None), false, &errs) {
        StepOutcome::Failed { error_tail } => assert!(error_tail.is_empty()),
        other => panic!("unexpected {:?}", other),
    }
    let few = vec!["only".to_string()];
    match ExecutionEngine::step_outcome(&plain_step(None, Some(false), Some(false)), false, &few) {
        StepOutcome::Failed { error_tail } => assert_eq!(error_tail, few),
        other => panic!("unexpected {:?}", other),
    }
}

#[test]
fn labels_and_messages() {
    assert_eq!(ExecutionEngine::step_label(3, 12), "[3/12]");
    assert_eq!(ExecutionEngine::skip_note("darwin"), "(跳过：不支持当前系统 darwin)");
    assert_eq!(ExecutionEngine::start_heading(4), "🚀 开始执行部署: 共 4 个步骤");
    assert_eq!(ExecutionEngine::finish_message("redis", false), "✔ 配方 [redis] 已成功部署完成！");
    assert_eq!(ExecutionEngine::finish_message("redis", true), "✔ 演练模式执行完成。未在系统执行任何真实命令。");
}

fn directive_recipe() -> dpilot::recipe::Recipe {
    let mut linux_only = plain_step(Some(vec!["linux"]), None, None);
    linux_only.command = "echo {{ name }}".to_string();
    let mut broken = plain_step(None, None, None);
    broken.command = "echo {% if %}".to_string();
    let mut multi = plain_step(None, None, None);
    multi.command = "echo {{ name }}\necho done".to_string();
    dpilot::recipe::Recipe {
        name: "r".to_string(),
        version: "1.0.0".to_string(),
        description: "d".to_string(),
        category: "service".to_string(),
        author: None,
        platforms: None,
        inputs: Vec::new(),
        steps: vec![linux_only, multi, broken],
    }
}

#[test]
fn directives_walk_the_steps() {
    let r = directive_recipe();
    let mut ctx = InputContext::new();
    ctx.insert("name".to_string(), ContextValue::Text("web".to_string()));
    match ExecutionEngine::next_directive(&r, &ctx, "linux", false, 0) {
        Directive::Execute { index, command } => {
            assert_eq!(index, 0);
            assert_eq!(command, "echo web");
        }
        other => panic!("unexpected {:?}", other),
    }
    assert!(matches!(ExecutionEngine::next_directive(&r, &ctx, "darwin", false, 0), Directive::Skip { index: 0 }));
    match ExecutionEngine::next_directive(&r, &ctx, "darwin", true, 1) {
        Directive::Preview { index, lines } => {
            assert_eq!(index, 1);
            assert_eq!(lines, vec!["echo web".to_string(), "echo done".to_string()]);
        }
        other => panic!("unexpected {:?}", other),
    }
    assert!(matches!(
        ExecutionEngine::next_directive(&r, &ctx, "linux", true, 2),
        Directive::RenderFailed { index: 2, error: dpilot::template::TemplateError::Syntax { .. } }
    ));
    assert!(matches!(ExecutionEngine::next_directive(&r, &ctx, "linux", false, 3), Directive::Finished));
}

#[test]
fn run_advances_until_a_failure() {

    assert_eq!(ExecutionEngine::advance(0, &StepEvent::Skipped), RunControl::Next { index: 1 });
    assert_eq!(ExecutionEngine::advance(4, &StepEvent::Previewed), RunControl::Next { index: 5 });
    assert_eq!(
        ExecutionEngine::advance(2, &StepEvent::Ran(StepOutcome::FailureIgnored)),
        RunControl::Next { index: 3 }
    );
    assert_eq!(ExecutionEngine::advance(2, &StepEvent::Ran(StepOutcome::Succeeded)), RunControl::Next { index: 3 });
    assert_eq!(
        ExecutionEngine::advance(2, &StepEvent::Ran(StepOutcome::Failed { error_tail: Vec::new() })),
        RunControl::Stop { failed: true }
    );
    assert_eq!(ExecutionEngine::advance(1, &StepEvent::RenderFailed), RunControl::Stop { failed: true });
    assert_eq!(ExecutionEngine::advance(7, &StepEvent::Finished), RunControl::Stop { failed: false });
}
