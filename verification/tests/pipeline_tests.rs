//! The whole resolution pipeline: merging, prompting decisions, the
//! confirmation loop, and end-to-end scenarios.

use indexmap::IndexSet;
use rust_cuts::arguments::{process_command_line, Style};
use rust_cuts::command_definitions::{
    CommandDefinition, CommandExecutionTemplate, ParameterDefinition, TemplateParser,
};
use rust_cuts::interpolation::TemplateContext;
use rust_cuts::prompting::{get_template_context, resolve_prompt_input};
use rust_cuts::confirm::{
    confirmation_decision, context_of_defaults, interpret_run_choice, resolve_command_selector,
    setup_execution_context, ConfirmOutcome,
};
use rust_cuts::errors::Error;
use rust_cuts::interpolation::interpolate_command;
use rust_cuts::params::ParamContext;
use rust_cuts::selection::{CommandChoice, RunChoice};

fn param(id: &str, default: Option<&str>) -> ParameterDefinition {
    ParameterDefinition {
        id: id.to_string(),
        default: default.map(|d| d.to_string()),
        description: None,
    }
}

fn ssh_command() -> CommandDefinition {
    CommandDefinition {
        command: vec![
            "ssh".to_string(),
            "-p".to_string(),
            "{port}".to_string(),
            "{user}@{host}".to_string(),
        ],
        id: Some("ssh_somewhere".to_string()),
        description: None,
        working_directory: None,
        parameters: Some(vec![param("port", Some("22")), param("user", Some("ubuntu"))]),
        environment: None,
        metadata: None,
    }
}

#[test]
fn test_positional_resolution_scenario() {
    // Declared defaults port=22 and user=ubuntu, positional values
    // 2222, admin, 10.0.0.5: the resolved command uses the values.
    let cmd = ssh_command();
    let template = CommandExecutionTemplate::from_command_definition(&cmd);
    let declared = rust_cuts::params::build_parameter_lookup(&cmd.parameters).unwrap();

    let style = Style::Positional(vec![
        "2222".to_string(),
        "admin".to_string(),
        "10.0.0.5".to_string(),
    ]);
    let merged = process_command_line(style, &template, Some(&declared))
        .unwrap()
        .unwrap();

    let ctx = context_of_defaults(&merged);
    let templates = template.get_templates().unwrap();
    let rendered = interpolate_command(&ctx, &templates).unwrap();
    assert_eq!(
        rendered,
        vec![
            "ssh".to_string(),
            "-p".to_string(),
            "2222".to_string(),
            "admin@10.0.0.5".to_string()
        ]
    );
}

#[test]
fn test_named_resolution_overwrites_defaults() {
    let cmd = ssh_command();
    let template = CommandExecutionTemplate::from_command_definition(&cmd);
    let declared = rust_cuts::params::build_parameter_lookup(&cmd.parameters).unwrap();

    let style = Style::Named(vec!["host=10.0.0.5".to_string(), "port=2222".to_string()]);
    let merged = process_command_line(style, &template, Some(&declared))
        .unwrap()
        .unwrap();

    let ctx = context_of_defaults(&merged);
    let templates = template.get_templates().unwrap();
    let rendered = interpolate_command(&ctx, &templates).unwrap();
    assert_eq!(
        rendered,
        vec![
            "ssh".to_string(),
            "-p".to_string(),
            "2222".to_string(),
            "ubuntu@10.0.0.5".to_string()
        ]
    );
}

#[test]
fn test_positional_count_mismatch_carries_both_lengths() {
    let cmd = ssh_command();
    let template = CommandExecutionTemplate::from_command_definition(&cmd);

    let style = Style::Positional(vec!["2222".to_string()]);
    let result = process_command_line(style, &template, None);
    assert!(matches!(
        result,
        Err(Error::ParameterCountMismatch(3, 1))
    ));
}

#[test]
fn test_named_unknown_key_is_named_in_the_error() {
    let cmd = ssh_command();
    let template = CommandExecutionTemplate::from_command_definition(&cmd);

    let style = Style::Named(vec!["bogus=1".to_string()]);
    let result = process_command_line(style, &template, None);
    assert!(matches!(result, Err(Error::MissingParameter(k)) if k == "bogus"));
}

#[test]
fn test_named_entry_must_split_on_equals() {
    let cmd = ssh_command();
    let template = CommandExecutionTemplate::from_command_definition(&cmd);

    let style = Style::Named(vec!["novalue".to_string()]);
    let result = process_command_line(style, &template, None);
    assert!(matches!(result, Err(Error::ParameterFormat(e)) if e == "novalue"));

    let style = Style::Named(vec!["a=b=c".to_string()]);
    let result = process_command_line(style, &template, None);
    assert!(matches!(result, Err(Error::ParameterFormat(e)) if e == "a=b=c"));
}

#[test]
fn test_merge_without_tokens_yields_nothing() {
    let template = CommandExecutionTemplate {
        command: vec!["ls".to_string(), "-la".to_string()],
        working_directory: None,
        template_context: None,
        environment: None,
    };
    let merged = process_command_line(Style::Unspecified, &template, None).unwrap();
    assert!(merged.is_none());
}

#[test]
fn test_fill_parameter_values_prompts_in_sorted_order() {
    // Tokens inserted out of order are prompted lexicographically, so
    // the answers line up with the sorted names.
    let mut tokens: IndexSet<String> = IndexSet::new();
    tokens.insert("zeta".to_string());
    tokens.insert("alpha".to_string());

    let entered = vec!["first-answer".to_string(), "second-answer".to_string()];
    let filled =
        rust_cuts::prompting::fill_parameter_values(&tokens, &None, &None, &entered).unwrap();

    let alpha = filled.get(&"alpha".to_string()).unwrap();
    assert_eq!(alpha.default, Some("first-answer".to_string()));
    let zeta = filled.get(&"zeta".to_string()).unwrap();
    assert_eq!(zeta.default, Some("second-answer".to_string()));
}

#[test]
fn test_fill_parameter_values_keeps_descriptions() {
    let mut tokens: IndexSet<String> = IndexSet::new();
    tokens.insert("name".to_string());

    let mut declared = ParamContext::new();
    declared.set(ParameterDefinition {
        id: "name".to_string(),
        default: Some("old".to_string()),
        description: Some("who to greet".to_string()),
    });

    let entered = vec!["new".to_string()];
    let filled =
        rust_cuts::prompting::fill_parameter_values(&tokens, &Some(declared), &None, &entered)
            .unwrap();
    let got = filled.get(&"name".to_string()).unwrap();
    assert_eq!(got.default, Some("new".to_string()));
    assert_eq!(got.description, Some("who to greet".to_string()));

    // No tokens: nothing to fill.
    let none = rust_cuts::prompting::fill_parameter_values(
        &IndexSet::new(),
        &None,
        &None,
        &vec![],
    );
    assert!(none.is_none());
}

#[test]
fn test_resolve_prompt_input_accepts_defaults() {

    let typed = resolve_prompt_input("  hello  ", &None, &None);
    assert_eq!(typed, Some("hello".to_string()));

    let previous = resolve_prompt_input("", &Some("prev".to_string()), &Some("decl".to_string()));
    assert_eq!(previous, Some("prev".to_string()));

    let declared = resolve_prompt_input("   ", &None, &Some("decl".to_string()));
    assert_eq!(declared, Some("decl".to_string()));

    let nothing = resolve_prompt_input("", &None, &None);
    assert_eq!(nothing, None);
}

#[test]
fn test_interpret_run_choice_answers() {
    assert_eq!(interpret_run_choice("", true), Some(RunChoice::Yes));
    assert_eq!(interpret_run_choice(" Y ", true), Some(RunChoice::Yes));
    assert_eq!(interpret_run_choice("n", true), Some(RunChoice::No));
    assert_eq!(
        interpret_run_choice("c", true),
        Some(RunChoice::ChangeParams)
    );
    // Changing parameters is offered only when there are parameters.
    assert_eq!(interpret_run_choice("c", false), None);
    assert_eq!(interpret_run_choice("maybe", true), None);
}

#[test]
fn test_confirmation_decision_order() {
    assert_eq!(
        confirmation_decision(true, true, &RunChoice::No),
        ConfirmOutcome::AbortDryRun
    );
    assert_eq!(
        confirmation_decision(false, true, &RunChoice::No),
        ConfirmOutcome::Execute
    );
    assert_eq!(
        confirmation_decision(false, false, &RunChoice::Yes),
        ConfirmOutcome::Execute
    );
    assert_eq!(
        confirmation_decision(false, false, &RunChoice::No),
        ConfirmOutcome::AbortDeclined
    );
    assert_eq!(
        confirmation_decision(false, false, &RunChoice::ChangeParams),
        ConfirmOutcome::Reprompt
    );
}

#[test]
fn test_resolve_command_selector_cases() {
    let by_index = resolve_command_selector(&"1".to_string(), 3).unwrap();
    assert!(matches!(by_index, CommandChoice::Index(1)));

    let out_of_range = resolve_command_selector(&"7".to_string(), 3);
    assert!(matches!(
        out_of_range,
        Err(Error::Misc(m)) if m == "Command index out of range: 7!"
    ));

    let by_id = resolve_command_selector(&"deploy".to_string(), 3).unwrap();
    assert!(matches!(by_id, CommandChoice::CommandId(id) if id == "deploy"));
}

#[test]
fn test_setup_execution_context_by_id_and_missing_id() {
    let commands = vec![ssh_command()];

    let ok = setup_execution_context(
        CommandChoice::CommandId("ssh_somewhere".to_string()),
        &commands,
    )
    .unwrap();
    assert_eq!(ok.0.command, commands[0].command);
    assert!(!ok.2);
    assert!(ok.1.is_some());

    let missing = setup_execution_context(
        CommandChoice::CommandId("nonexistent".to_string()),
        &commands,
    );
    assert!(matches!(
        missing,
        Err(Error::CommandNotFound(id)) if id == "nonexistent"
    ));
}

#[test]
fn test_setup_execution_context_rerun_keeps_context() {
    let mut stored = ParamContext::new();
    stored.set(param("host", Some("10.0.0.5")));
    let last = CommandExecutionTemplate {
        command: vec!["ping".to_string(), "{host}".to_string()],
        working_directory: Some("/tmp".to_string()),
        template_context: Some(stored),
        environment: None,
    };

    let (template, params, is_rerun) =
        setup_execution_context(CommandChoice::Rerun(last), &vec![]).unwrap();
    assert!(is_rerun);
    assert_eq!(template.command, vec!["ping".to_string(), "{host}".to_string()]);
    let params = params.unwrap();
    let host = params.get(&"host".to_string()).unwrap();
    assert_eq!(host.default, Some("10.0.0.5".to_string()));
}

#[test]
fn test_get_template_context_resolves_answers() {

    let mut tokens: IndexSet<String> = IndexSet::new();
    tokens.insert("a".to_string());
    tokens.insert("b".to_string());

    let mut defaults = TemplateContext::new();
    defaults.set("b".to_string(), "default-b".to_string());

    // An answer wins; no answer accepts the default.
    let entered = vec![Some("typed-a".to_string()), None];
    let ctx = get_template_context(&tokens, &Some(defaults.clone()), &entered).unwrap();
    assert_eq!(ctx.get(&"a".to_string()), Some(&"typed-a".to_string()));
    assert_eq!(ctx.get(&"b".to_string()), Some(&"default-b".to_string()));

    // A variable with neither answer nor default cannot be resolved.
    let entered = vec![None, None];
    assert!(get_template_context(&tokens, &Some(defaults), &entered).is_none());
}
