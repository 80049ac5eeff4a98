//! Argument styles, parameter modes, and the prompt decision.

use indexmap::IndexSet;
use rust_cuts::arguments::{determine, should_prompt_for_parameters, Style};
use rust_cuts::cli_args::ExecArgs;
use rust_cuts::command_definitions::ParameterDefinition;
use rust_cuts::errors::Error;
use rust_cuts::parameters::{determine_parameter_mode, ParameterMode};
use rust_cuts::params::ParamContext;

use rust_cuts::cli_args::get_rerun_request_is_valid;
#[test]
fn test_determine_none() {
    let result = determine(&[], &[]).unwrap();
    assert_eq!(result, Style::Unspecified);
}

#[test]
fn test_determine_named() {
    let params = vec!["key1=value1".to_string(), "key2=value2".to_string()];
    let result = determine(&params, &[]).unwrap();
    match result {
        Style::Named(values) => {
            assert_eq!(values.len(), 2);
            assert_eq!(values[0], "key1=value1");
            assert_eq!(values[1], "key2=value2");
        }
        _ => panic!("Expected Named argument style"),
    }
}

#[test]
fn test_determine_positional() {
    let args = vec!["value1".to_string(), "value2".to_string()];
    let result = determine(&[], &args).unwrap();
    match result {
        Style::Positional(values) => {
            assert_eq!(values.len(), 2);
            assert_eq!(values[0], "value1");
            assert_eq!(values[1], "value2");
        }
        _ => panic!("Expected Positional argument style"),
    }
}

#[test]
fn test_determine_mixed_error() {
    let params = vec!["key=value".to_string()];
    let args = vec!["positional".to_string()];
    let result = determine(&params, &args);
    assert!(result.is_err());
    assert!(matches!(result.unwrap_err(), Error::MixedParameterMode));
}

#[test]
fn test_style_equality() {
    assert_eq!(Style::Unspecified, Style::Unspecified);

    let named1 = Style::Named(vec!["a=1".to_string()]);
    let named2 = Style::Named(vec!["a=1".to_string()]);
    assert_eq!(named1, named2);

    let pos1 = Style::Positional(vec!["value".to_string()]);
    let pos2 = Style::Positional(vec!["value".to_string()]);
    assert_eq!(pos1, pos2);

    assert_ne!(Style::Unspecified, named1);
    assert_ne!(named1, pos1);
}

#[test]
fn test_style_debug_formatting() {
    let named = Style::Named(vec!["test=value".to_string()]);
    let debug_str = format!("{named:?}");
    assert!(debug_str.contains("Named"));
    assert!(debug_str.contains("test=value"));
}

#[test]
fn test_determine_parameter_mode_none() {
    let result = determine_parameter_mode(&[], &[]).unwrap();
    assert_eq!(result, ParameterMode::Unspecified);
}

#[test]
fn test_determine_parameter_mode_named() {
    let params = vec!["key1=value1".to_string(), "key2=value2".to_string()];
    let result = determine_parameter_mode(&params, &[]).unwrap();
    match result {
        ParameterMode::Named(values) => {
            assert_eq!(values.len(), 2);
            assert_eq!(values[0], "key1=value1");
            assert_eq!(values[1], "key2=value2");
        }
        _ => panic!("Expected Named parameter mode"),
    }
}

#[test]
fn test_determine_parameter_mode_positional() {
    let args = vec!["value1".to_string(), "value2".to_string()];
    let result = determine_parameter_mode(&[], &args).unwrap();
    match result {
        ParameterMode::Positional(values) => {
            assert_eq!(values.len(), 2);
            assert_eq!(values[0], "value1");
            assert_eq!(values[1], "value2");
        }
        _ => panic!("Expected Positional parameter mode"),
    }
}

#[test]
fn test_determine_parameter_mode_mixed_error() {
    let params = vec!["key=value".to_string()];
    let args = vec!["positional".to_string()];
    let result = determine_parameter_mode(&params, &args);
    assert!(result.is_err());
    assert!(matches!(result.unwrap_err(), Error::MixedParameterMode));
}

#[test]
fn test_parameter_mode_equality() {
    assert_eq!(ParameterMode::Unspecified, ParameterMode::Unspecified);

    let named1 = ParameterMode::Named(vec!["a=1".to_string()]);
    let named2 = ParameterMode::Named(vec!["a=1".to_string()]);
    assert_eq!(named1, named2);

    let pos1 = ParameterMode::Positional(vec!["value".to_string()]);
    let pos2 = ParameterMode::Positional(vec!["value".to_string()]);
    assert_eq!(pos1, pos2);

    assert_ne!(ParameterMode::Unspecified, named1);
    assert_ne!(named1, pos1);
}

#[test]
fn test_parameter_mode_debug_formatting() {
    let named = ParameterMode::Named(vec!["test=value".to_string()]);
    let debug_str = format!("{named:?}");
    assert!(debug_str.contains("Named"));
    assert!(debug_str.contains("test=value"));
}

#[test]
fn test_parameter_mode_determination() {
    let empty_named: Vec<String> = vec![];
    let empty_positional: Vec<String> = vec![];
    let style = determine(&empty_named, &empty_positional).unwrap();
    assert!(matches!(style, Style::Unspecified));

    let named = vec!["key1=value1".to_string(), "key2=value2".to_string()];
    let style = determine(&named, &empty_positional).unwrap();
    assert!(matches!(style, Style::Named(_)));

    let positional = vec!["value1".to_string(), "value2".to_string()];
    let style = determine(&empty_named, &positional).unwrap();
    assert!(matches!(style, Style::Positional(_)));

    let result = determine(&named, &positional);
    assert!(result.is_err());
}

fn token_set(names: &[&str]) -> IndexSet<String> {
    let mut set = IndexSet::new();
    for name in names {
        set.insert(name.to_string());
    }
    set
}

fn param(id: &str, default: Option<&str>) -> ParameterDefinition {
    ParameterDefinition {
        id: id.to_string(),
        default: default.map(|d| d.to_string()),
        description: None,
    }
}

#[test]
fn test_should_prompt_for_parameters() {
    let tokens = token_set(&["token1", "token2"]);

    // Case 1: No tokens to interpolate
    let empty_tokens = IndexSet::new();
    assert!(!should_prompt_for_parameters(
        &empty_tokens,
        None,
        false,
        &Style::Unspecified
    ));

    // Case 2: New command (not rerun) without command-line parameters
    assert!(should_prompt_for_parameters(
        &tokens,
        None,
        false,
        &Style::Unspecified
    ));

    // Case 3: Rerun - should never prompt regardless of parameters
    assert!(!should_prompt_for_parameters(
        &tokens,
        None,
        true,
        &Style::Unspecified
    ));

    // Case 4: Command-line parameters that cover all tokens
    let mut filled_params = ParamContext::new();
    filled_params.set(param("token1", Some("value1")));
    filled_params.set(param("token2", Some("value2")));

    assert!(!should_prompt_for_parameters(
        &tokens,
        Some(&filled_params),
        false,
        &Style::Named(vec!["token1=value1".to_string()])
    ));

    // Case 5: Command-line parameters that are missing some tokens
    let mut partial_params = ParamContext::new();
    partial_params.set(param("token1", Some("value1")));

    assert!(should_prompt_for_parameters(
        &tokens,
        Some(&partial_params),
        false,
        &Style::Named(vec!["token1=value1".to_string()])
    ));
}

#[test]
fn test_style_provider_mixed_error() {
    let args = ExecArgs {
        config_path: None,
        last_command_path: None,
        dry_run: false,
        force: false,
        rerun_last_command: false,
        skip_command_save: false,
        command_id_or_index: None,
        parameters: vec!["key=value".to_string()],
        positional_arguments: vec!["positional".to_string()],
    };
    let result = args.style();
    assert!(result.is_err());
}

#[test]
fn test_rerun_with_index_rejected() {

    let mut args = ExecArgs {
        config_path: None,
        last_command_path: None,
        dry_run: false,
        force: false,
        rerun_last_command: true,
        skip_command_save: false,
        command_id_or_index: Some("3".to_string()),
        parameters: vec![],
        positional_arguments: vec![],
    };
    assert!(matches!(
        get_rerun_request_is_valid(&args),
        Err(Error::RerunWithIndex)
    ));

    args.command_id_or_index = None;
    assert_eq!(get_rerun_request_is_valid(&args).unwrap(), true);

    args.rerun_last_command = false;
    assert_eq!(get_rerun_request_is_valid(&args).unwrap(), false);
}
