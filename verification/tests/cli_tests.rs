use dpilot::cli::{run_decision, RunDecision};
use dpilot::cli::{category_color, choice_line, chosen_service, run_target, service_choices, CategoryColor, RunTarget, SelectionError};
use dpilot::recipe::{default_allow_failure, default_category, default_show_output, default_version, Recipe};
use dpilot::registry::{RecipeRegistry, RecipeSource, RecipeSummary};

fn cli_summary(name: &str, category: &str) -> RecipeSummary {
    RecipeSummary {
        name: name.to_string(),
        version: "1.0.0".to_string(),
        description: "desc".to_string(),
        category: category.to_string(),
        source: RecipeSource::Remote("u".to_string()),
    }
}

#[test]
fn run_targets() {
    match run_target(Some("nginx".to_string()), None) {
        RunTarget::Resolve { identifier, custom_file } => {
            assert_eq!(identifier, "nginx");
            assert!(custom_file.is_none());
        }
        other => panic!("unexpected {:?}", other),
    }
    match run_target(None, Some("f.yaml".to_string())) {
        RunTarget::Resolve { identifier, custom_file } => {
            assert_eq!(identifier, "");
            assert_eq!(custom_file.as_deref(), Some("f.yaml"));
        }
        other => panic!("unexpected {:?}", other),
    }
    assert!(matches!(run_target(None, None), RunTarget::Choose));
}

#[test]
fn chooser_lines_and_choice() {
    let line = choice_line(&cli_summary("redis", "service"));
    assert_eq!(line, format!("{:<16} [{}] - {}", "redis", "service", "desc"));
    assert_eq!(chosen_service(&line), "redis");
    assert_eq!(chosen_service("   "), "");
    assert_eq!(chosen_service("\u{3000}uptime-kuma\tx"), "uptime-kuma");
    let long = choice_line(&cli_summary("a-very-long-recipe-name", "system"));
    assert_eq!(long, "a-very-long-recipe-name [system] - desc");
}

#[test]
fn chooser_filters_and_refuses_empty() {
    let lines = service_choices(vec![cli_summary("a", "service"), cli_summary("b", "system")], Some("Service")).unwrap();
    assert_eq!(lines.len(), 1);
    assert!(lines[0].starts_with("a "));
    assert_eq!(service_choices(Vec::new(), None).unwrap_err(), SelectionError::NoRecipes);
    assert_eq!(service_choices(vec![cli_summary("a", "service")], Some("system")).unwrap_err(), SelectionError::NoRecipes);
}

#[test]
fn category_colors() {
    assert_eq!(category_color("system"), CategoryColor::Magenta);
    assert_eq!(category_color("service"), CategoryColor::Cyan);
    assert_eq!(category_color("System"), CategoryColor::White);
}

#[test]
fn recipe_defaults() {
    assert_eq!(default_allow_failure(), Some(false));
    assert_eq!(default_show_output(), Some(true));
    assert_eq!(default_version(), "1.0.0");
    assert_eq!(default_category(), "service");
}

#[test]
fn platforms_and_os_names() {
    assert_eq!(Recipe::current_os("macos"), "darwin");
    assert_eq!(Recipe::current_os("linux"), "linux");
    assert!(Recipe::supports_platform(&None, "linux"));
    assert!(Recipe::supports_platform(&Some(vec!["linux".to_string(), "DARWIN".to_string()]), "darwin"));
    assert!(!Recipe::supports_platform(&Some(vec!["windows".to_string()]), "linux"));
    let builtin = RecipeRegistry::embedded_recipe("install-docker.yaml").unwrap();
    assert!(!Recipe::supports_platform(&builtin.platforms, "windows"));
}

#[test]
fn validation_report_counts() {
    let r = RecipeRegistry::embedded_recipe("postgres.yaml").unwrap();
    let lines = dpilot::cli::validation_report(&r);
    assert_eq!(lines[0], "Recipe 'postgres' (v1.0.0) is valid!");
    assert_eq!(lines[1], "  Category: service");
    assert_eq!(lines[2], "  Inputs:   5 defined");
    assert_eq!(lines[3], "  Steps:    4 defined");
}

#[test]
fn run_asks_unless_dry() {

    assert_eq!(run_decision(true, None), RunDecision::Proceed);
    assert_eq!(run_decision(false, None), RunDecision::AskConfirmation);
    assert_eq!(run_decision(false, Some(true)), RunDecision::Proceed);
    assert_eq!(run_decision(false, Some(false)), RunDecision::Cancel);
}
