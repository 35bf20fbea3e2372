use ulmcp::{PromptDef, StrMap};

#[test]
fn render_basic() {
    let p = PromptDef::new("greet", "Hello {{name}}, welcome to {{project}}!")
        .param("name", "User name", true)
        .param("project", "Project name", true);

    let mut args = StrMap::new();
    args.insert("name".into(), "Alice".into());
    args.insert("project".into(), "uldb".into());

    let rendered = p.render(&args).unwrap();
    assert_eq!(rendered, "Hello Alice, welcome to uldb!");
}

#[test]
fn render_missing_required() {
    let p = PromptDef::new("greet", "Hello {{name}}").param("name", "User name", true);

    let args = StrMap::new();
    assert!(p.render(&args).is_err());
}

#[test]
fn render_optional_missing() {
    let p = PromptDef::new("greet", "Hello {{name}} from {{city}}")
        .param("name", "User name", true)
        .param("city", "City", false);

    let mut args = StrMap::new();
    args.insert("name".into(), "Bob".into());

    // Optional param not provided: placeholder remains
    let rendered = p.render(&args).unwrap();
    assert!(rendered.contains("Bob"));
}

#[test]
fn render_optional_missing_keeps_placeholder() {
    let p = PromptDef::new("greet", "Hello {{name}} from {{city}}")
        .param("name", "User name", true)
        .param("city", "City", false);
    let mut args = StrMap::new();
    args.insert("name".into(), "Bob".into());
    assert_eq!(p.render(&args).unwrap(), "Hello Bob from {{city}}");
}

#[test]
fn render_missing_required_message() {
    let p = PromptDef::new("greet", "Hello {{name}}").param("name", "User name", true);
    let args: StrMap<String> = StrMap::new();
    assert_eq!(p.render(&args).unwrap_err(), "missing required parameter: \"name\"");
}

#[test]
fn render_replaces_every_occurrence() {
    let p = PromptDef::new("echo", "{{x}}-{{x}}-{{x}}").param("x", "X", true);
    let mut args = StrMap::new();
    args.insert("x".into(), "ab".into());
    assert_eq!(p.render(&args).unwrap(), "ab-ab-ab");
}

#[test]
fn render_is_sequential_by_parameter() {
    // The first parameter's value contains the second's placeholder, which
    // the second substitution then replaces.
    let p = PromptDef::new("chain", "{{a}}").param("a", "A", true).param("b", "B", true);
    let mut args = StrMap::new();
    args.insert("a".into(), "<{{b}}>".into());
    args.insert("b".into(), "done".into());
    assert_eq!(p.render(&args).unwrap(), "<done>");
}

#[test]
fn render_ignores_undeclared_placeholders_and_arguments() {
    let p = PromptDef::new("t", "{{a}} {{z}}").param("a", "A", false);
    let mut args = StrMap::new();
    args.insert("a".into(), "1".into());
    args.insert("q".into(), "unused".into());
    assert_eq!(p.render(&args).unwrap(), "1 {{z}}");
}

#[test]
fn prompt_builder_fields() {
    let p = PromptDef::new("review", "Review {{file}}").description("Code review").param("file", "File", true);
    assert_eq!(p.name, "review");
    assert_eq!(p.description, "Code review");
    assert_eq!(p.params.len(), 1);
    assert!(p.params[0].required);
}
