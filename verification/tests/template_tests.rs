//! Template parsing, token extraction and rendering.

use rust_cuts::command_definitions::{CommandDefinition, ParameterDefinition, TemplateParser};
use rust_cuts::errors::{Error, ParseErrorKind};
use rust_cuts::interpolation::{interpolate_command, render_template, TemplateContext};
use rust_cuts::template::Template;

fn cmd(templates: &[&str]) -> CommandDefinition {
    CommandDefinition {
        command: templates.iter().map(|t| t.to_string()).collect(),
        id: None,
        description: None,
        working_directory: None,
        parameters: None,
        environment: None,
        metadata: None,
    }
}

#[test]
fn test_template_parser_get_ordered_context_variables() {
    let cmd = cmd(&[
        "echo",
        "Hello {name}!",
        "You are {age} years old.",
        "Your name is {name} again.",
    ]);

    let variables = cmd.get_ordered_context_variables().unwrap();
    assert_eq!(variables.len(), 2);
    assert_eq!(variables.get_index(0).unwrap(), "name");
    assert_eq!(variables.get_index(1).unwrap(), "age");
}

#[test]
fn test_template_parser_no_variables() {
    let cmd = cmd(&["echo", "Hello World!"]);
    let variables = cmd.get_ordered_context_variables().unwrap();
    assert!(variables.is_empty());
}

#[test]
fn test_template_parser_complex_variables() {
    let cmd = cmd(&["ssh", "-i", "{key_path}", "{user}@{host}"]);

    let variables = cmd.get_ordered_context_variables().unwrap();
    assert_eq!(variables.len(), 3);
    assert_eq!(variables.get_index(0).unwrap(), "key_path");
    assert_eq!(variables.get_index(1).unwrap(), "user");
    assert_eq!(variables.get_index(2).unwrap(), "host");
}

#[test]
fn test_first_appearance_order_across_templates() {
    // Each distinct placeholder appears exactly once, in order of first
    // appearance across the whole template list.
    let cmd = cmd(&["Hello {name}!", "{age} {name}"]);
    let variables = cmd.get_ordered_context_variables().unwrap();
    assert_eq!(variables.len(), 2);
    assert_eq!(variables.get_index(0).unwrap(), "name");
    assert_eq!(variables.get_index(1).unwrap(), "age");
}

#[test]
fn test_keys_are_trimmed_and_escapes_respected() {
    let t = Template::parse("a { spaced key } b \\{literal\\}").unwrap();
    let keys = t.keys();
    assert_eq!(keys, vec!["spaced key".to_string()]);

    let mut ctx = TemplateContext::new();
    ctx.set("spaced key".to_string(), "X".to_string());
    let rendered = render_template(&t, &ctx).unwrap();
    assert_eq!(rendered, "a X b {literal}");
}

#[test]
fn test_parse_error_kinds() {
    assert!(matches!(
        Template::parse("{ open"),
        Err(Error::Parse(ParseErrorKind::UnbalancedBrace))
    ));
    assert!(matches!(
        Template::parse("open }"),
        Err(Error::Parse(ParseErrorKind::UnbalancedBrace))
    ));
    assert!(matches!(
        Template::parse("not \\a thing"),
        Err(Error::Parse(ParseErrorKind::BadEscape))
    ));
    assert!(matches!(
        Template::parse("forget me not \\"),
        Err(Error::Parse(ParseErrorKind::BadEscape))
    ));
    assert!(matches!(
        Template::parse("void: {}"),
        Err(Error::Parse(ParseErrorKind::EmptyKey))
    ));
    assert!(matches!(
        Template::parse("nothing: { }"),
        Err(Error::Parse(ParseErrorKind::EmptyKey))
    ));
    assert!(matches!(
        Template::parse("{ not \\} allowed }"),
        Err(Error::Parse(ParseErrorKind::KeyEscape))
    ));
}

#[test]
fn test_render_names_the_missing_key() {
    let t = Template::parse("hello {name} of {place}").unwrap();
    let mut ctx = TemplateContext::new();
    ctx.set("name".to_string(), "world".to_string());
    let result = render_template(&t, &ctx);
    assert!(matches!(result, Err(Error::Render(k)) if k == "place"));
}

#[test]
fn test_interpolate_command_renders_every_argument() {
    let templates = rust_cuts::interpolation::get_templates(&vec![
        "echo".to_string(),
        "{greeting}, {name}!".to_string(),
    ])
    .unwrap();
    let mut ctx = TemplateContext::new();
    ctx.set("greeting".to_string(), "Hi".to_string());
    ctx.set("name".to_string(), "you".to_string());
    let rendered = interpolate_command(&ctx, &templates).unwrap();
    assert_eq!(rendered, vec!["echo".to_string(), "Hi, you!".to_string()]);
}

#[test]
fn test_template_context_overwrites_values() {
    let mut ctx = TemplateContext::new();
    assert!(ctx.is_empty());
    ctx.set("k".to_string(), "one".to_string());
    ctx.set("k".to_string(), "two".to_string());
    assert_eq!(ctx.len(), 1);
    assert_eq!(ctx.get(&"k".to_string()), Some(&"two".to_string()));
    assert_eq!(ctx.get(&"missing".to_string()), None);
}

#[test]
fn test_build_default_lookup_keeps_only_defaults() {
    let defs = Some(vec![
        ParameterDefinition {
            id: "a".to_string(),
            default: Some("1".to_string()),
            description: None,
        },
        ParameterDefinition {
            id: "b".to_string(),
            default: None,
            description: None,
        },
    ]);
    let ctx = rust_cuts::prompting::build_default_lookup(&defs).unwrap();
    assert_eq!(ctx.get(&"a".to_string()), Some(&"1".to_string()));
    assert_eq!(ctx.get(&"b".to_string()), None);

    assert!(rust_cuts::prompting::build_default_lookup(&None).is_none());
}
