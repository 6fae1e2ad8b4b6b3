use plz::args::ArgumentLookup;
use plz::args::InvocationMatch;
use plz::args::MatchedSubcommand;
use plz::cli::find_command_by_name;
use plz::cli::find_subcommand;
use plz::cli::invocation_consistent;
use plz::config::ActionConfig;
use plz::config::CommandConfig;
use plz::config::CommandConfigMap;
use plz::config::Config;
use plz::config::ExecutionConfigVariant;
use plz::config::Options;
use plz::config::RawCommandConfigVariant::Shorthand;
use plz::config::SingleActionConfig;
use plz::config::VariableConfig;
use plz::config::VariableConfigMap;

fn echo_action() -> Option<ActionConfig> {
    Some(ActionConfig::SingleStep(SingleActionConfig {
        action: ExecutionConfigVariant::RawCommand(Shorthand(
            "echo \"Hello, World!\"".to_string(),
        )),
    }))
}

/// The matched-path structure the parsing engine reports for an
/// invocation that descended through the given subcommand names, binding
/// no argument values on the way.
fn matched_path(names: &[&str]) -> InvocationMatch {
    let mut current = InvocationMatch { arguments: ArgumentLookup::new(), subcommand: None };
    for name in names.iter().rev() {
        current = InvocationMatch {
            arguments: ArgumentLookup::new(),
            subcommand: Some(MatchedSubcommand {
                name: name.to_string(),
                matches: Box::new(current),
            }),
        };
    }
    current
}

#[test]
fn find_subcommand_finds_top_level_command() {
    // Arrange
    let mut root_variables = VariableConfigMap::new();
    root_variables.insert(
        "root-var-1".to_string(),
        VariableConfig::ShorthandLiteral("root value".to_string()),
    );

    let mut subcommand_variables = VariableConfigMap::new();
    subcommand_variables.insert(
        "sub-var-1".to_string(),
        VariableConfig::ShorthandLiteral("subcommand value".to_string()),
    );

    let mut commands = CommandConfigMap::new();
    commands.insert(
        "cmd".to_string(),
        CommandConfig {
            name: None,
            platform: None,
            description: Some("Top-level command".to_string()),
            hidden: false,
            variables: subcommand_variables,
            commands: Default::default(),
            action: echo_action(),
        },
    );

    let config = Config {
        imports: Default::default(),
        description: None,
        variables: root_variables,
        commands,
        options: Options::default(),
    };

    // Act: the engine matched `plz cmd`.
    let matches = matched_path(&["cmd"]);
    let (found_command, found_variables, _) =
        find_subcommand(&matches, &config.commands, &config.variables).unwrap();

    // Assert
    assert_eq!(found_command.description, Some("Top-level command".to_string()));
    assert!(found_variables.contains_key("root-var-1"));
    assert!(found_variables.contains_key("sub-var-1"));
}

#[test]
fn find_subcommand_finds_mid_level_command() {
    // Arrange
    let mut root_variables = VariableConfigMap::new();
    root_variables.insert(
        "root-var-1".to_string(),
        VariableConfig::ShorthandLiteral("root value".to_string()),
    );

    let mut parent_command_variables = VariableConfigMap::new();
    parent_command_variables.insert(
        "parent-var-1".to_string(),
        VariableConfig::ShorthandLiteral("parent command value".to_string()),
    );

    let mut command_variables = VariableConfigMap::new();
    command_variables.insert(
        "target-var-1".to_string(),
        VariableConfig::ShorthandLiteral("command value".to_string()),
    );

    let mut subcommand_variables = VariableConfigMap::new();
    subcommand_variables.insert(
        "sub-var-1".to_string(),
        VariableConfig::ShorthandLiteral("subcommand value".to_string()),
    );

    let mut subcommands = CommandConfigMap::new();
    subcommands.insert(
        "sub".to_string(),
        CommandConfig {
            name: None,
            platform: None,
            description: Some("Subcommand".to_string()),
            hidden: false,
            variables: subcommand_variables,
            commands: CommandConfigMap::default(),
            action: echo_action(),
        },
    );

    let mut target_commands = CommandConfigMap::new();
    target_commands.insert(
        "target".to_string(),
        CommandConfig {
            name: None,
            platform: None,
            description: Some("Mid-level command".to_string()),
            hidden: false,
            variables: command_variables,
            commands: subcommands,
            action: echo_action(),
        },
    );

    let mut parent_commands = CommandConfigMap::new();
    parent_commands.insert(
        "parent".to_string(),
        CommandConfig {
            name: None,
            platform: None,
            description: Some("Top-level command".to_string()),
            hidden: false,
            variables: parent_command_variables,
            commands: target_commands,
            action: echo_action(),
        },
    );

    let config = Config {
        imports: Default::default(),
        description: None,
        variables: root_variables,
        commands: parent_commands,
        options: Options::default(),
    };

    // Act: the engine matched `plz parent target`, not the deeper `sub`.
    let matches = matched_path(&["parent", "target"]);
    let (found_command, found_variables, _) =
        find_subcommand(&matches, &config.commands, &config.variables).unwrap();

    // Assert
    assert_eq!(found_command.description, Some("Mid-level command".to_string()));
    assert!(found_variables.contains_key("root-var-1"));
    assert!(found_variables.contains_key("parent-var-1"));
    assert!(found_variables.contains_key("target-var-1"));
    assert_eq!(found_variables.contains_key("sub-var-1"), false);
}

#[test]
fn find_subcommand_finds_bottom_level_command() {
    // Arrange
    let mut root_variables = VariableConfigMap::new();
    root_variables.insert(
        "root-var-1".to_string(),
        VariableConfig::ShorthandLiteral("root value".to_string()),
    );

    let mut parent_command_variables = VariableConfigMap::new();
    parent_command_variables.insert(
        "parent-var-1".to_string(),
        VariableConfig::ShorthandLiteral("parent command value".to_string()),
    );

    let mut command_variables = VariableConfigMap::new();
    command_variables.insert(
        "sub-var-1".to_string(),
        VariableConfig::ShorthandLiteral("command value".to_string()),
    );

    let mut target_commands = CommandConfigMap::new();
    target_commands.insert(
        "subcommand".to_string(),
        CommandConfig {
            name: None,
            platform: None,
            description: Some("Bottom-level command".to_string()),
            hidden: false,
            variables: command_variables,
            commands: CommandConfigMap::new(),
            action: echo_action(),
        },
    );

    let mut parent_commands = CommandConfigMap::new();
    parent_commands.insert(
        "parent".to_string(),
        CommandConfig {
            name: None,
            platform: None,
            description: Some("Top-level command".to_string()),
            hidden: false,
            variables: parent_command_variables,
            commands: target_commands,
            action: echo_action(),
        },
    );

    let config = Config {
        imports: Default::default(),
        description: None,
        variables: root_variables,
        commands: parent_commands,
        options: Options::default(),
    };

    // Act: the engine matched `plz parent subcommand`.
    let matches = matched_path(&["parent", "subcommand"]);
    let (found_command, found_variables, _) =
        find_subcommand(&matches, &config.commands, &config.variables).unwrap();

    // Assert
    assert_eq!(
        found_command.description,
        Some("Bottom-level command".to_string())
    );
    assert!(found_variables.contains_key("root-var-1"));
    assert!(found_variables.contains_key("parent-var-1"));
    assert!(found_variables.contains_key("sub-var-1"));
}

#[test]
fn find_subcommand_finds_command_with_custom_name() {
    let mut commands = CommandConfigMap::new();
    commands.insert(
        "cmd".to_string(),
        CommandConfig {
            name: Some("command".to_string()),
            platform: None,
            description: Some("Command with custom name".to_string()),
            hidden: false,
            variables: Default::default(),
            commands: Default::default(),
            action: echo_action(),
        },
    );

    let config = Config {
        imports: Default::default(),
        description: None,
        variables: Default::default(),
        commands,
        options: Options::default(),
    };

    // Act: the engine matched the overridden name, not the map key.
    let matches = matched_path(&["command"]);
    let (found_command, _, _) =
        find_subcommand(&matches, &config.commands, &config.variables).unwrap();

    // Assert
    assert_eq!(
        found_command.description,
        Some("Command with custom name".to_string())
    );
}

#[test]
fn find_subcommand_finds_hidden_command() {
    let mut commands = CommandConfigMap::new();
    commands.insert(
        "cmd".to_string(),
        CommandConfig {
            name: Some("command".to_string()),
            hidden: true,
            platform: None,
            description: Some("Command with custom name".to_string()),
            variables: Default::default(),
            commands: Default::default(),
            action: echo_action(),
        },
    );

    let config = Config {
        imports: Default::default(),
        description: None,
        variables: Default::default(),
        commands,
        options: Options::default(),
    };

    // Act
    let matches = matched_path(&["command"]);
    let (found_command, _, _) =
        find_subcommand(&matches, &config.commands, &config.variables).unwrap();

    // Assert
    assert_eq!(
        found_command.description,
        Some("Command with custom name".to_string())
    );
}

#[test]
fn find_subcommand_returns_nothing_without_a_match() {
    let mut commands = CommandConfigMap::new();
    commands.insert(
        "cmd".to_string(),
        CommandConfig {
            name: None,
            platform: None,
            description: None,
            hidden: false,
            variables: Default::default(),
            commands: Default::default(),
            action: echo_action(),
        },
    );

    // The engine matched no subcommand at all.
    let matches = matched_path(&[]);
    let result = find_subcommand(&matches, &commands, &VariableConfigMap::new());
    assert!(result.is_none());
}

#[test]
fn child_scope_variable_fully_replaces_parent_definition() {
    // Parent binds `x` to a literal, the matched command rebinds `x` to a
    // shorthand literal: the merged scope holds the child's definition
    // only, with no field-level mixing.
    let mut root_variables = VariableConfigMap::new();
    root_variables.insert(
        "x".to_string(),
        VariableConfig::Literal(plz::config::LiteralVariableConfig {
            value: "foo".to_string(),
            argument: None,
            environment_variable_name: None,
        }),
    );

    let mut command_variables = VariableConfigMap::new();
    command_variables.insert(
        "x".to_string(),
        VariableConfig::ShorthandLiteral("bar".to_string()),
    );

    let mut commands = CommandConfigMap::new();
    commands.insert(
        "cmd".to_string(),
        CommandConfig {
            name: None,
            platform: None,
            description: None,
            hidden: false,
            variables: command_variables,
            commands: Default::default(),
            action: echo_action(),
        },
    );

    let matches = matched_path(&["cmd"]);
    let (_, found_variables, _) = find_subcommand(&matches, &commands, &root_variables).unwrap();

    let x = found_variables.get(&"x".to_string()).unwrap();
    assert!(matches!(x, VariableConfig::ShorthandLiteral(value) if value == "bar"));
}

#[test]
fn find_command_by_name_resolves_key_and_override() {
    let mut commands = CommandConfigMap::new();
    commands.insert(
        "plain".to_string(),
        CommandConfig {
            name: None,
            platform: None,
            description: Some("By key".to_string()),
            hidden: false,
            variables: Default::default(),
            commands: Default::default(),
            action: echo_action(),
        },
    );
    commands.insert(
        "renamed".to_string(),
        CommandConfig {
            name: Some("fancy".to_string()),
            platform: None,
            description: Some("By override".to_string()),
            hidden: false,
            variables: Default::default(),
            commands: Default::default(),
            action: echo_action(),
        },
    );

    let by_key = find_command_by_name(&"plain".to_string(), &commands).unwrap();
    assert_eq!(by_key.description, Some("By key".to_string()));

    let by_override = find_command_by_name(&"fancy".to_string(), &commands).unwrap();
    assert_eq!(by_override.description, Some("By override".to_string()));

    assert!(find_command_by_name(&"missing".to_string(), &commands).is_none());
}

#[test]
fn invocation_consistency_is_decidable() {
    let mut commands = CommandConfigMap::new();
    commands.insert(
        "cmd".to_string(),
        CommandConfig {
            name: None,
            platform: None,
            description: None,
            hidden: false,
            variables: Default::default(),
            commands: Default::default(),
            action: echo_action(),
        },
    );

    let good = matched_path(&["cmd"]);
    assert!(invocation_consistent(&good, &commands));

    // A matched name the configuration does not know: the grammar and the
    // configuration have diverged.
    let bad = matched_path(&["other"]);
    assert!(!invocation_consistent(&bad, &commands));

    let deep_bad = matched_path(&["cmd", "deeper"]);
    assert!(!invocation_consistent(&deep_bad, &commands));
}
