//! Id and configuration validation.

use rust_cuts::command_definitions::{CommandDefinition, ParameterDefinition};
use rust_cuts::errors::Error;
use rust_cuts::validation::{validate_command_ids, validate_id, validate_parameters};

use rust_cuts::validation::validate_command_definitions;
fn create_test_command_with_id(id: &str) -> CommandDefinition {
    CommandDefinition {
        command: vec!["echo".to_string(), "test".to_string()],
        id: Some(id.to_string()),
        description: None,
        working_directory: None,
        parameters: None,
        environment: None,
        metadata: None,
    }
}

fn create_test_command_with_param(param_id: &str, cmd_template: &str) -> CommandDefinition {
    CommandDefinition {
        command: vec!["echo".to_string(), cmd_template.to_string()],
        id: Some("test_cmd".to_string()),
        description: None,
        working_directory: None,
        parameters: Some(vec![ParameterDefinition {
            id: param_id.to_string(),
            default: None,
            description: None,
        }]),
        environment: None,
        metadata: None,
    }
}

#[test]
fn test_validate_id_valid() {
    assert!(validate_id("valid_id").is_ok());
    assert!(validate_id("test123").is_ok());
    assert!(validate_id("my-command").is_ok());
    assert!(validate_id("_underscore").is_ok());
}

#[test]
fn test_validate_id_empty() {
    let result = validate_id("");
    assert!(matches!(result, Err(Error::EmptyId)));
}

#[test]
fn test_validate_id_with_space() {
    let result = validate_id("has space");
    assert!(matches!(result, Err(Error::IdWithSpace(_))));
}

#[test]
fn test_validate_id_with_colon() {
    let result = validate_id("has:colon");
    assert!(matches!(result, Err(Error::IdWithColon(_))));
}

#[test]
fn test_validate_id_numeric_only() {
    let result = validate_id("123");
    assert!(matches!(result, Err(Error::NumericId(_))));
}

#[test]
fn test_validate_command_ids_unique() {
    let commands = vec![
        create_test_command_with_id("cmd1"),
        create_test_command_with_id("cmd2"),
        create_test_command_with_id("cmd3"),
    ];
    assert!(validate_command_ids(&commands).is_ok());
}

#[test]
fn test_validate_command_ids_duplicate() {
    let commands = vec![
        create_test_command_with_id("cmd1"),
        create_test_command_with_id("cmd2"),
        create_test_command_with_id("cmd1"), // Duplicate
    ];
    let result = validate_command_ids(&commands);
    assert!(matches!(result, Err(Error::NonUniqueCommandId(_))));
}

#[test]
fn test_validate_parameters_valid() {
    let cmd = create_test_command_with_param("name", "Hello {name}!");
    let params = cmd.parameters.as_ref().unwrap();
    assert!(validate_parameters(&cmd, params).is_ok());
}

#[test]
fn test_validate_parameters_duplicate_ids() {
    let cmd = CommandDefinition {
        command: vec!["echo".to_string(), "{param}".to_string()],
        id: Some("test".to_string()),
        description: None,
        working_directory: None,
        parameters: Some(vec![
            ParameterDefinition {
                id: "param".to_string(),
                default: None,
                description: None,
            },
            ParameterDefinition {
                id: "param".to_string(), // Duplicate
                default: None,
                description: None,
            },
        ]),
        environment: None,
        metadata: None,
    };

    let params = cmd.parameters.as_ref().unwrap();
    let result = validate_parameters(&cmd, params);
    assert!(matches!(result, Err(Error::NonUniqueParameterId(_, _))));
}

#[test]
fn test_validate_parameters_not_found_in_template() {
    let cmd = create_test_command_with_param("missing", "Hello World!"); // No {missing} template
    let params = cmd.parameters.as_ref().unwrap();
    let result = validate_parameters(&cmd, params);
    assert!(matches!(result, Err(Error::NotFoundParameterId(_, _))));
}

#[test]
fn test_empty_definition_list_is_rejected() {

    let commands: Vec<CommandDefinition> = vec![];
    let result = validate_command_definitions(&commands, &"/some/config.yml".to_string());
    assert!(matches!(
        result,
        Err(Error::EmptyCommandDefinition { path }) if path == "/some/config.yml"
    ));

    let one = vec![create_test_command_with_id("fine")];
    assert!(validate_command_definitions(&one, &"/some/config.yml".to_string()).is_ok());
}

#[test]
fn test_default_shell_constant() {
    assert_eq!(rust_cuts::config::DEFAULT_SHELL, "/bin/bash");
}

#[test]
fn test_get_config_path_with_custom_path() {
    let custom_path = Some("/custom/path/config.yml".to_string());
    let result = rust_cuts::config::get_config_path(&custom_path);
    assert_eq!(result, "/custom/path/config.yml");
}

#[test]
fn test_get_config_path_with_none() {
    let result = rust_cuts::config::get_config_path(&None);
    assert!(result.contains("commands.yml"));
    assert!(!result.starts_with('~'));
}

#[test]
fn test_get_config_path_with_tilde() {
    let tilde_path = Some("~/my-config.yml".to_string());
    let result = rust_cuts::config::get_config_path(&tilde_path);
    assert!(!result.starts_with('~'));
    assert!(result.ends_with("my-config.yml"));
}

#[test]
fn test_get_last_command_path_with_custom_path() {
    let custom_path = Some("/custom/last_command.yml".to_string());
    let result = rust_cuts::config::get_last_command_path(&custom_path);
    assert_eq!(result, "/custom/last_command.yml");
}

#[test]
fn test_get_last_command_path_with_none() {
    let result = rust_cuts::config::get_last_command_path(&None);
    assert!(result.contains("last_command.yml"));
    assert!(!result.starts_with('~'));
}

#[test]
fn test_expand_working_directory_with_some() {
    let working_dir = Some("~/projects/rust-cuts".to_string());
    let result = rust_cuts::config::expand_working_directory(&working_dir);

    assert!(result.is_some());
    let expanded = result.unwrap();
    assert!(!expanded.starts_with('~'));
    assert!(expanded.ends_with("projects/rust-cuts"));
}

#[test]
fn test_expand_working_directory_with_none() {
    let result = rust_cuts::config::expand_working_directory(&None);
    assert!(result.is_none());
}

#[test]
fn test_expand_working_directory_without_tilde() {
    let working_dir = Some("/absolute/path".to_string());
    let result = rust_cuts::config::expand_working_directory(&working_dir);

    assert!(result.is_some());
    assert_eq!(result.unwrap(), "/absolute/path");
}
