//! The data model: display names, template conversion, colors.

use rust_cuts::colors::{as_term_color, TermColor};
use rust_cuts::command_definitions::{
    ColorDefinition, CommandDefinition, CommandExecutionTemplate, ParameterDefinition,
};
use rust_cuts::errors::Error;

fn create_test_parameter() -> ParameterDefinition {
    ParameterDefinition {
        id: "test_param".to_string(),
        default: Some("default_value".to_string()),
        description: Some("Test parameter".to_string()),
    }
}

fn create_test_command() -> CommandDefinition {
    CommandDefinition {
        command: vec!["echo".to_string(), "Hello {name}!".to_string()],
        id: Some("test_command".to_string()),
        description: Some("Test command".to_string()),
        working_directory: Some("/tmp".to_string()),
        parameters: Some(vec![ParameterDefinition {
            id: "name".to_string(),
            default: Some("World".to_string()),
            description: Some("Name to greet".to_string()),
        }]),
        environment: Some(vec![("TEST_VAR".to_string(), "test_value".to_string())]),
        metadata: None,
    }
}

#[test]
fn test_parameter_definition_display() {
    let param = create_test_parameter();
    let display_str = param.display_label();
    assert_eq!(display_str, "`test_param` (Test parameter)");
}

#[test]
fn test_parameter_definition_display_no_description() {
    let param = ParameterDefinition {
        id: "no_desc".to_string(),
        default: None,
        description: None,
    };
    let display_str = param.display_label();
    assert_eq!(display_str, "`no_desc`");
}

#[test]
fn test_command_definition_display_with_id_and_description() {
    let cmd = create_test_command();
    let display_str = cmd.display_name();
    assert_eq!(display_str, "test_command (Test command)");
}

#[test]
fn test_command_definition_display_id_only() {
    let mut cmd = create_test_command();
    cmd.description = None;
    let display_str = cmd.display_name();
    assert_eq!(display_str, "test_command");
}

#[test]
fn test_command_definition_display_description_only() {
    let mut cmd = create_test_command();
    cmd.id = None;
    let display_str = cmd.display_name();
    assert_eq!(display_str, "Test command");
}

#[test]
fn test_command_definition_display_fallback_to_command() {
    let mut cmd = create_test_command();
    cmd.id = None;
    cmd.description = None;
    let display_str = cmd.display_name();
    assert_eq!(display_str, "echo Hello {name}!");
}

#[test]
fn test_command_execution_template_from_command_definition() {
    let cmd = create_test_command();
    let template = CommandExecutionTemplate::from_command_definition(&cmd);

    assert_eq!(template.command, cmd.command);
    assert_eq!(template.working_directory, cmd.working_directory);
    assert_eq!(template.environment, cmd.environment);
    assert!(template.template_context.is_none());
}

#[test]
fn test_command_execution_template_display() {
    let template = CommandExecutionTemplate {
        command: vec!["ls".to_string(), "-la".to_string()],
        working_directory: None,
        template_context: None,
        environment: None,
    };
    let display_str = template.display_name();
    assert_eq!(display_str, "ls -la");
}

#[test]
fn test_color_definition_variants() {

    let rgb_color = ColorDefinition {
        rgb: Some((255, 0, 0)),
        ansi: None,
        name: None,
    };
    assert_eq!(rgb_color.rgb, Some((255, 0, 0)));

    let ansi_color = ColorDefinition {
        rgb: None,
        ansi: Some(9),
        name: None,
    };
    assert_eq!(ansi_color.ansi, Some(9));

    let named_color = ColorDefinition {
        rgb: None,
        ansi: None,
        name: Some("red".to_string()),
    };
    assert_eq!(named_color.name, Some("red".to_string()));
}

#[test]
fn test_command_definition_to_execution_template_workflow() {
    let env = vec![("TEST_ENV".to_string(), "test_value".to_string())];

    let params = vec![ParameterDefinition {
        id: "target".to_string(),
        default: Some("localhost".to_string()),
        description: Some("Target host".to_string()),
    }];

    let cmd_def = CommandDefinition {
        command: vec![
            "ping".to_string(),
            "-c".to_string(),
            "3".to_string(),
            "{target}".to_string(),
        ],
        id: Some("ping_test".to_string()),
        description: Some("Ping a target host".to_string()),
        working_directory: Some("/tmp".to_string()),
        parameters: Some(params),
        environment: Some(env.clone()),
        metadata: None,
    };

    let exec_template = CommandExecutionTemplate::from_command_definition(&cmd_def);

    assert_eq!(exec_template.command, cmd_def.command);
    assert_eq!(exec_template.working_directory, cmd_def.working_directory);
    assert_eq!(exec_template.environment, Some(env));
    assert!(exec_template.template_context.is_none());
}

#[test]
fn test_display_formatting_workflow() {
    let cmd1 = CommandDefinition {
        command: vec!["ls".to_string(), "-la".to_string()],
        id: Some("list_files".to_string()),
        description: Some("List all files".to_string()),
        working_directory: None,
        parameters: None,
        environment: None,
        metadata: None,
    };
    assert_eq!(cmd1.display_name(), "list_files (List all files)");

    let cmd2 = CommandDefinition {
        command: vec!["pwd".to_string()],
        id: Some("show_dir".to_string()),
        description: None,
        working_directory: None,
        parameters: None,
        environment: None,
        metadata: None,
    };
    assert_eq!(cmd2.display_name(), "show_dir");

    let cmd3 = CommandDefinition {
        command: vec!["date".to_string()],
        id: None,
        description: Some("Show current date".to_string()),
        working_directory: None,
        parameters: None,
        environment: None,
        metadata: None,
    };
    assert_eq!(cmd3.display_name(), "Show current date");

    let cmd4 = CommandDefinition {
        command: vec!["whoami".to_string()],
        id: None,
        description: None,
        working_directory: None,
        parameters: None,
        environment: None,
        metadata: None,
    };
    assert_eq!(cmd4.display_name(), "whoami");

    let exec_template = CommandExecutionTemplate {
        command: vec!["git".to_string(), "status".to_string()],
        working_directory: None,
        template_context: None,
        environment: None,
    };
    assert_eq!(exec_template.display_name(), "git status");
}

#[test]
fn test_color_conversion_cases() {

    // An uppercase name still names its color: the comparison lowercases.
    let named = ColorDefinition {
        rgb: None,
        ansi: None,
        name: Some("RED".to_string()),
    };
    assert_eq!(as_term_color(&named).unwrap(), Some(TermColor::Red));

    let unknown = ColorDefinition {
        rgb: None,
        ansi: None,
        name: Some("mauve".to_string()),
    };
    assert!(matches!(
        as_term_color(&unknown),
        Err(Error::UnknownColorName(n)) if n == "mauve"
    ));

    let too_many = ColorDefinition {
        rgb: Some((1, 2, 3)),
        ansi: Some(7),
        name: None,
    };
    assert!(matches!(as_term_color(&too_many), Err(Error::MultipleColorTypes)));

    let nothing = ColorDefinition {
        rgb: None,
        ansi: None,
        name: None,
    };
    assert_eq!(as_term_color(&nothing).unwrap(), None);
}
