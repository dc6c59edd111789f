use dpilot::context::{ContextValue, InputContext};
use dpilot::template::{TemplateEngine, TemplateError};

#[test]
fn test_template_rendering() {
    let cmd = "docker run -d --name {{ container_name }} -p {{ port }}:5432 {% if enable_volume %}-v {{ container_name }}_data:/var/lib/postgresql/data{% endif %} postgres:{{ version_tag }}";
    let mut context = InputContext::new();
    context.insert("container_name".to_string(), ContextValue::Text("test-pg".to_string()));
    context.insert("port".to_string(), ContextValue::Number(5432));
    context.insert("enable_volume".to_string(), ContextValue::Bool(true));
    context.insert("version_tag".to_string(), ContextValue::Text("16-alpine".to_string()));

    let rendered = TemplateEngine::render_str(cmd, &context).unwrap();
    assert!(rendered.contains("--name test-pg"));
    assert!(rendered.contains("-p 5432:5432"));
    assert!(rendered.contains("-v test-pg_data:/var/lib/postgresql/data"));
    assert!(rendered.contains("postgres:16-alpine"));
}

#[test]
fn test_template_rendering_conditional_false() {
    let cmd = "docker run {% if enable_https %}-p 443:443{% endif %} nginx:latest";
    let mut context = InputContext::new();
    context.insert("enable_https".to_string(), ContextValue::Bool(false));

    let rendered = TemplateEngine::render_str(cmd, &context).unwrap();
    assert!(!rendered.contains("-p 443:443"));
}

#[test]
fn rendering_substitutes_exactly() {
    let mut context = InputContext::new();
    context.insert("name".to_string(), ContextValue::Text("web".to_string()));
    let rendered = TemplateEngine::render_str("docker rm -f {{ name }}", &context).unwrap();
    assert_eq!(rendered, "docker rm -f web");
}

#[test]
fn later_answer_replaces_earlier_one() {
    let mut context = InputContext::new();
    context.insert("port".to_string(), ContextValue::Number(80));
    context.insert("port".to_string(), ContextValue::Number(8080));
    let rendered = TemplateEngine::render_str("-p {{ port }}", &context).unwrap();
    assert_eq!(rendered, "-p 8080");
    match context.get("port") {
        Some(ContextValue::Number(n)) => assert_eq!(*n, 8080),
        other => panic!("unexpected value {:?}", other),
    }
    assert!(context.get("missing").is_none());
}

#[test]
fn syntax_error_is_reported_as_such() {
    let context = InputContext::new();
    match TemplateEngine::render_str("{% if %}", &context) {
        Err(TemplateError::Syntax { .. }) => {}
        other => panic!("expected a syntax error, got {:?}", other),
    }
}

#[test]
fn render_error_is_reported_as_such() {
    let context = InputContext::new();
    match TemplateEngine::render_str("{{ 1 + }}", &context) {
        Err(TemplateError::Syntax { .. }) => {}
        other => panic!("expected a syntax error, got {:?}", other),
    }
    match TemplateEngine::render_str("{{ missing.field }}", &context) {
        Err(TemplateError::Render { .. }) => {}
        other => panic!("expected a render error, got {:?}", other),
    }
}

#[test]
fn template_errors_name_the_command_template() {
    let context = InputContext::new();
    match TemplateEngine::render_str("{% if %}", &context) {
        Err(TemplateError::Syntax { detail }) => assert!(detail.contains("cmd"), "{}", detail),
        other => panic!("expected a syntax error, got {:?}", other),
    }
}
