use dpilot::context::{ContextValue, InputContext};
use dpilot::prompt::{PromptKind, PromptWizard};
use dpilot::recipe::{DefaultValue, InputSpec, InputType, Recipe};

fn input_spec(id: &str, t: InputType, default: Option<DefaultValue>) -> InputSpec {
    InputSpec {
        id: id.to_string(),
        input_type: t,
        prompt: format!("{}?", id),
        default,
        options: None,
        required: None,
        help: None,
    }
}

fn sample_recipe(inputs: Vec<InputSpec>, author: Option<&str>) -> Recipe {
    Recipe {
        name: "postgres".to_string(),
        version: "1.0.0".to_string(),
        description: "PostgreSQL".to_string(),
        category: "service".to_string(),
        author: author.map(|a| a.to_string()),
        platforms: None,
        inputs,
        steps: Vec::new(),
    }
}

#[test]
fn text_prompt_takes_string_default_and_required() {
    let mut input = input_spec(
        "container_name",
        InputType::Text,
        Some(DefaultValue { text: Some("my-postgres".to_string()), integer: None, boolean: None }),
    );
    input.required = Some(true);
    input.help = Some("the name".to_string());
    let plan = PromptWizard::plan_prompt(&input);
    assert_eq!(plan.message, "│  container_name?");
    assert_eq!(plan.help.as_deref(), Some("the name"));
    match plan.kind {
        PromptKind::Text { default, required } => {
            assert_eq!(default.as_deref(), Some("my-postgres"));
            assert!(required);
        }
        other => panic!("unexpected kind {:?}", other),
    }
}

#[test]
fn number_prompt_uses_integer_default_only() {
    let input = input_spec("port", InputType::Number, Some(DefaultValue { text: Some("x".to_string()), integer: Some(5432), boolean: None }));
    match PromptWizard::plan_prompt(&input).kind {
        PromptKind::Number { default } => assert_eq!(default, Some(5432)),
        other => panic!("unexpected kind {:?}", other),
    }
    let input = input_spec("port", InputType::Number, Some(DefaultValue { text: Some("5432".to_string()), integer: None, boolean: None }));
    match PromptWizard::plan_prompt(&input).kind {
        PromptKind::Number { default } => assert_eq!(default, None),
        other => panic!("unexpected kind {:?}", other),
    }
}

#[test]
fn confirm_prompt_defaults_to_yes() {
    match PromptWizard::plan_prompt(&input_spec("v", InputType::Confirm, None)).kind {
        PromptKind::Confirm { default } => assert!(default),
        other => panic!("unexpected kind {:?}", other),
    }
    let input = input_spec("v", InputType::Confirm, Some(DefaultValue { text: None, integer: None, boolean: Some(false) }));
    match PromptWizard::plan_prompt(&input).kind {
        PromptKind::Confirm { default } => assert!(!default),
        other => panic!("unexpected kind {:?}", other),
    }
}

#[test]
fn select_prompt_starts_at_the_default_option() {
    let mut input = input_spec(
        "version_tag",
        InputType::Select,
        Some(DefaultValue { text: Some("16-alpine".to_string()), integer: None, boolean: None }),
    );
    input.options = Some(vec!["17-alpine".to_string(), "16-alpine".to_string(), "15-alpine".to_string()]);
    match PromptWizard::plan_prompt(&input).kind {
        PromptKind::Select { options, starting_cursor } => {
            assert_eq!(options.len(), 3);
            assert_eq!(starting_cursor, Some(1));
        }
        other => panic!("unexpected kind {:?}", other),
    }
    input.default = Some(DefaultValue { text: Some("9".to_string()), integer: None, boolean: None });
    match PromptWizard::plan_prompt(&input).kind {
        PromptKind::Select { starting_cursor, .. } => assert_eq!(starting_cursor, Some(0)),
        other => panic!("unexpected kind {:?}", other),
    }
    input.options = None;
    match PromptWizard::plan_prompt(&input).kind {
        PromptKind::Select { options, starting_cursor } => {
            assert!(options.is_empty());
            assert_eq!(starting_cursor, None);
        }
        other => panic!("unexpected kind {:?}", other),
    }
}

#[test]
fn required_answers_must_not_be_blank() {
    let mut text = input_spec("name", InputType::Text, None);
    assert_eq!(PromptWizard::check_required(&text, "   "), None);
    text.required = Some(true);
    assert_eq!(PromptWizard::check_required(&text, " \t\u{3000}").as_deref(), Some("This field cannot be empty"));
    assert_eq!(PromptWizard::check_required(&text, " a "), None);
    let mut pass = input_spec("pw", InputType::Password, None);
    pass.required = Some(true);
    assert_eq!(PromptWizard::check_required(&pass, "").as_deref(), Some("Password cannot be empty"));
    let mut num = input_spec("n", InputType::Number, None);
    num.required = Some(true);
    assert_eq!(PromptWizard::check_required(&num, ""), None);
}

#[test]
fn collected_answers_are_keyed_by_input_id() {
    let r = sample_recipe(
        vec![input_spec("a", InputType::Text, None), input_spec("b", InputType::Number, None), input_spec("c", InputType::Confirm, None)],
        None,
    );
    let ctx = PromptWizard::collect_inputs(
        &r,
        vec![ContextValue::Text("x".to_string()), ContextValue::Number(-7), ContextValue::Bool(true)],
    );
    match ctx.get("b") {
        Some(ContextValue::Number(n)) => assert_eq!(*n, -7),
        other => panic!("unexpected {:?}", other),
    }
    match ctx.get("a") {
        Some(ContextValue::Text(s)) => assert_eq!(s, "x"),
        other => panic!("unexpected {:?}", other),
    }
}

#[test]
fn summary_masks_passwords_and_formats_values() {
    let r = sample_recipe(
        vec![
            input_spec("pw", InputType::Password, None),
            input_spec("port", InputType::Number, None),
            input_spec("vol", InputType::Confirm, None),
            input_spec("off", InputType::Confirm, None),
            input_spec("name", InputType::Text, None),
            input_spec("missing", InputType::Text, None),
        ],
        None,
    );
    let mut values = InputContext::new();
    values.insert("pw".to_string(), ContextValue::Text("secret".to_string()));
    values.insert("port".to_string(), ContextValue::Number(5432));
    values.insert("vol".to_string(), ContextValue::Bool(true));
    values.insert("off".to_string(), ContextValue::Bool(false));
    values.insert("name".to_string(), ContextValue::Text("db".to_string()));
    let rows = PromptWizard::summary_rows(&r, &values);
    let shown: Vec<(&str, &str)> = rows.iter().map(|(a, b)| (a.as_str(), b.as_str())).collect();
    assert_eq!(
        shown,
        vec![("pw", "••••••••"), ("port", "5432"), ("vol", "yes"), ("off", "no"), ("name", "db"), ("missing", "-")]
    );
}

#[test]
fn negative_numbers_are_shown_in_decimal() {
    assert_eq!(PromptWizard::display_value(InputType::Number, Some(&ContextValue::Number(i64::MIN))), i64::MIN.to_string());
    assert_eq!(PromptWizard::display_value(InputType::Number, Some(&ContextValue::Number(0))), "0");
}

#[test]
fn banner_has_author_line_only_when_known() {
    let lines = PromptWizard::banner_lines(&sample_recipe(Vec::new(), Some("dpilot")));
    assert_eq!(
        lines,
        vec![
            "◆ Deploying: postgres (v1.0.0)".to_string(),
            "│ PostgreSQL".to_string(),
            "│ Author: dpilot".to_string(),
            "│".to_string(),
        ]
    );
    assert_eq!(PromptWizard::banner_lines(&sample_recipe(Vec::new(), None)).len(), 3);
}
