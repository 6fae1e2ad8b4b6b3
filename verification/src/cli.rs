//! Compiling the command tree into an argument grammar, and resolving a
//! matched invocation back to its command and merged variable scope.
//!
//! The compiler walks the configuration, drops commands whose platform
//! predicate excludes the running platform, merges each command's variables
//! over the inherited scope, and derives one grammar argument per bound
//! variable. The resolver walks the matched path and returns the deepest
//! matched command with every variable visible on the way down, deeper
//! definitions shadowing shallower ones.

use vstd::prelude::*;
use vstd::string::StringExecFns;

use crate::args::ALIAS_ARGS_NAME;
use crate::args::InvocationMatch;
use crate::args::SpecInvocation;
use crate::config::ActionConfig;
use crate::config::CommandConfig;
use crate::config::ArgumentConfigVariant;
use crate::config::CommandConfigMap;
use crate::config::Config;
use crate::config::Options;
use crate::config::SpecAction;
use crate::config::SpecArgumentBinding;
use crate::config::SpecCommand;
use crate::config::SpecConfig;
use crate::config::SpecVariable;
use crate::config::VariableConfig;
use crate::config::VariableConfigMap;
use crate::config::assoc_distinct;
use crate::config::assoc_has_key;
use crate::config::assoc_lookup;
use crate::config::assoc_merge;
use crate::config::clone_opt_string;
use crate::config::lemma_assoc_merge_has_key;
use crate::config::lemma_assoc_merge_lookup;
use crate::config::lemma_command_entries_view;
use crate::config::spec_command_view;
use crate::grammar::GrammarArg;
use crate::grammar::GrammarNode;
use crate::grammar::SpecGrammarArg;
use crate::grammar::SpecGrammarNode;
use crate::grammar::spec_grammar_args_view;
use crate::grammar::spec_grammar_nodes_view;
use crate::platform::Platform;
use crate::platform::is_current_platform;
use crate::platform::spec_platform_matches;

verus! {

/// Name of the tool's root grammar node.
pub const ROOT_COMMAND_NAME: &'static str = "plz";

/// Help text of the implicit trailing argument of an alias command.
pub const ALIAS_ARGS_HELP: &'static str = "Arguments and options for the aliased command.";

// ---------------------------------------------------------------------------
// The compiler, as a mathematical function
// ---------------------------------------------------------------------------

/// The explicit argument binding a variable declares, if its variant
/// carries one.
pub open spec fn spec_explicit_binding(v: SpecVariable) -> Option<SpecArgumentBinding> {
    match v {
        SpecVariable::ShorthandLiteral(_) => None,
        SpecVariable::Literal { argument, .. } => argument,
        SpecVariable::Execution { argument, .. } => argument,
        SpecVariable::Prompt { argument, .. } => argument,
        SpecVariable::Argument { argument } => Some(argument),
    }
}

/// The default value of a variable's compiled argument. Only the literal
/// variants have one: their fixed value.
pub open spec fn spec_default_value(v: SpecVariable) -> Option<Seq<char>> {
    match v {
        SpecVariable::ShorthandLiteral(value) => Some(value),
        SpecVariable::Literal { value, .. } => Some(value),
        _ => None,
    }
}

/// The binding a variable compiles under: its explicit binding always
/// wins; without one, `auto_args` synthesizes a shorthand whose flag is
/// the variable's key, and otherwise the variable stays unbound.
pub open spec fn spec_effective_binding(
    auto_args: bool,
    key: Seq<char>,
    v: SpecVariable,
) -> Option<SpecArgumentBinding> {
    match spec_explicit_binding(v) {
        Some(binding) => Some(binding),
        None => if auto_args {
            Some(SpecArgumentBinding::Shorthand(key))
        } else {
            None
        },
    }
}

/// The grammar argument a binding produces, identified by the variable's
/// key so the resolver can reunite argument and variable.
pub open spec fn spec_arg_for(
    key: Seq<char>,
    binding: SpecArgumentBinding,
    default_value: Option<Seq<char>>,
) -> SpecGrammarArg {
    match binding {
        SpecArgumentBinding::Shorthand(name) => (SpecGrammarArg {
            id: key,
            long: Some(name),
            short: None,
            position: None,
            description: None,
            default_value,
            variadic: false,
            allow_hyphen_values: false,
            trailing_var_arg: false,
        }),
        SpecArgumentBinding::Named { long, short, description } => (SpecGrammarArg {
            id: key,
            long: Some(long),
            short,
            position: None,
            description,
            default_value,
            variadic: false,
            allow_hyphen_values: false,
            trailing_var_arg: false,
        }),
        SpecArgumentBinding::Positional { position, description } => (SpecGrammarArg {
            id: key,
            long: None,
            short: None,
            position: Some(position),
            description,
            default_value,
            variadic: false,
            allow_hyphen_values: false,
            trailing_var_arg: false,
        }),
    }
}

/// The grammar argument one variable contributes, if any.
pub open spec fn spec_derive_one(auto_args: bool, key: Seq<char>, v: SpecVariable) -> Option<
    SpecGrammarArg,
> {
    match spec_effective_binding(auto_args, key, v) {
        Some(binding) => Some(spec_arg_for(key, binding, spec_default_value(v))),
        None => None,
    }
}

/// The arguments a variable scope contributes, in scope order.
pub open spec fn spec_derive_args(
    auto_args: bool,
    scope: Seq<(Seq<char>, SpecVariable)>,
) -> Seq<SpecGrammarArg>
    decreases scope.len(),
{
    if scope.len() == 0 {
        Seq::empty()
    } else {
        spec_derive_args(auto_args, scope.drop_last()) + match spec_derive_one(
            auto_args,
            scope.last().0,
            scope.last().1,
        ) {
            Some(arg) => seq![arg],
            None => Seq::empty(),
        }
    }
}

/// The reserved trailing argument of an alias command: variadic, keeps
/// flag-like tokens verbatim, and stops flag interpretation.
pub open spec fn spec_alias_arg() -> SpecGrammarArg {
    SpecGrammarArg {
        id: ALIAS_ARGS_NAME@,
        long: None,
        short: None,
        position: None,
        description: Some(ALIAS_ARGS_HELP@),
        default_value: None,
        variadic: true,
        allow_hyphen_values: true,
        trailing_var_arg: true,
    }
}

/// A command's externally visible name: its override if present, else its
/// map key.
pub open spec fn spec_effective_name(key: Seq<char>, cmd: SpecCommand) -> Seq<char> {
    match cmd.name {
        Some(name) => name,
        None => key,
    }
}

/// Whether a command is visible on the given platform.
pub open spec fn spec_visible(cmd: SpecCommand, platform: Platform) -> bool {
    match cmd.platform {
        Some(filter) => spec_platform_matches(filter, platform),
        None => true,
    }
}

/// The grammar node one visible command compiles to.
///
/// The alias argument is appended after the derived arguments, so a user
/// variable bound under the reserved name would be shadowed by it; the
/// configuration author must avoid that collision.
pub open spec fn spec_compile_command(
    auto_args: bool,
    key: Seq<char>,
    cmd: SpecCommand,
    inherited: Seq<(Seq<char>, SpecVariable)>,
    platform: Platform,
) -> SpecGrammarNode
    decreases cmd,
{
    let scope = assoc_merge(inherited, cmd.variables);
    let derived = spec_derive_args(auto_args, scope);
    SpecGrammarNode {
        name: spec_effective_name(key, cmd),
        arguments: if cmd.action matches Some(SpecAction::Alias(_)) {
            derived.push(spec_alias_arg())
        } else {
            derived
        },
        subcommands: spec_compile_commands(auto_args, cmd.commands, scope, platform),
        subcommand_required: cmd.action is None,
        hidden: cmd.hidden,
        description: cmd.description,
    }
}

/// The grammar nodes a command map compiles to: one node per command whose
/// platform predicate admits the given platform, in map order; an excluded
/// command's whole subtree is skipped.
pub open spec fn spec_compile_commands(
    auto_args: bool,
    commands: Seq<(Seq<char>, SpecCommand)>,
    inherited: Seq<(Seq<char>, SpecVariable)>,
    platform: Platform,
) -> Seq<SpecGrammarNode>
    decreases commands,
{
    if commands.len() == 0 {
        Seq::empty()
    } else {
        let rest = spec_compile_commands(auto_args, commands.drop_last(), inherited, platform);
        if spec_visible(commands.last().1, platform) {
            rest.push(
                spec_compile_command(
                    auto_args,
                    commands.last().0,
                    commands.last().1,
                    inherited,
                    platform,
                ),
            )
        } else {
            rest
        }
    }
}

// ---------------------------------------------------------------------------
// The compiler
// ---------------------------------------------------------------------------

/// Builds the grammar argument for one variable under an explicit binding.
fn build_bound_arg(
    key: &String,
    binding: &ArgumentConfigVariant,
    default_value: Option<String>,
) -> (r: GrammarArg)
    ensures
        r@ == spec_arg_for(key@, binding@, crate::config::opt_str_view(default_value)),
{
    match binding {
        ArgumentConfigVariant::Shorthand(arg_name) => GrammarArg {
            id: key.clone(),
            long: Some(arg_name.clone()),
            short: None,
            position: None,
            description: None,
            default_value,
            variadic: false,
            allow_hyphen_values: false,
            trailing_var_arg: false,
        },
        ArgumentConfigVariant::Named(named) => GrammarArg {
            id: key.clone(),
            long: Some(named.long.clone()),
            short: named.short,
            position: None,
            description: clone_opt_string(&named.description),
            default_value,
            variadic: false,
            allow_hyphen_values: false,
            trailing_var_arg: false,
        },
        ArgumentConfigVariant::Positional(positional) => GrammarArg {
            id: key.clone(),
            long: None,
            short: None,
            position: Some(positional.position),
            description: clone_opt_string(&positional.description),
            default_value,
            variadic: false,
            allow_hyphen_values: false,
            trailing_var_arg: false,
        },
    }
}

/// The default value of one variable's compiled argument.
fn default_value_of(var_config: &VariableConfig) -> (r: Option<String>)
    ensures
        crate::config::opt_str_view(r) == spec_default_value(var_config@),
{
    match var_config {
        VariableConfig::ShorthandLiteral(literal) => Some(literal.clone()),
        VariableConfig::Literal(literal) => Some(literal.value.clone()),
        VariableConfig::Execution(_) => None,
        VariableConfig::Prompt(_) => None,
        VariableConfig::Argument(_) => None,
    }
}

/// The grammar argument one variable contributes, if any: its explicit
/// binding, or a synthesized shorthand under `auto_args`, with a default
/// value for the literal variants.
fn derive_arg(options: &Options, key: &String, var_config: &VariableConfig) -> (r: Option<
    GrammarArg,
>)
    ensures
        match spec_derive_one(options.auto_args, key@, var_config@) {
            Some(arg) => r matches Some(built) && built@ == arg,
            None => r is None,
        },
{
    let explicit: Option<&ArgumentConfigVariant> = match var_config {
        VariableConfig::ShorthandLiteral(_) => None,
        VariableConfig::Literal(literal) => literal.argument.as_ref(),
        VariableConfig::Execution(exec) => exec.argument.as_ref(),
        VariableConfig::Prompt(prompt) => prompt.argument.as_ref(),
        VariableConfig::Argument(argument) => Some(&argument.argument),
    };
    match explicit {
        Some(binding) => Some(build_bound_arg(key, binding, default_value_of(var_config))),
        None => {
            if options.auto_args {
                // The synthesized binding: a long flag equal to the key.
                let binding = ArgumentConfigVariant::Shorthand(key.clone());
                Some(build_bound_arg(key, &binding, default_value_of(var_config)))
            } else {
                None
            }
        },
    }
}

/// Derives the grammar arguments of a variable scope, one per variable
/// that has an explicit binding or, under `auto_args`, a synthesized one.
pub fn create_args(options: &Options, variable_config_map: &VariableConfigMap) -> (r: Vec<
    GrammarArg,
>)
    ensures
        spec_grammar_args_view(r@) == spec_derive_args(options.auto_args, variable_config_map@),
{
    let mut args: Vec<GrammarArg> = Vec::new();
    let n = variable_config_map.entries.len();
    let mut i: usize = 0;
    proof {
        assert(variable_config_map@.take(0) =~= Seq::<(Seq<char>, SpecVariable)>::empty());
        assert(spec_grammar_args_view(args@) =~= Seq::<SpecGrammarArg>::empty());
    }
    while i < n
        invariant
            n == variable_config_map.entries@.len(),
            0 <= i <= n,
            spec_grammar_args_view(args@) == spec_derive_args(
                options.auto_args,
                variable_config_map@.take(i as int),
            ),
        decreases n - i,
    {
        let entry = &variable_config_map.entries[i];
        let ghost args_before = spec_grammar_args_view(args@);
        match derive_arg(options, &entry.0, &entry.1) {
            Some(arg) => {
                args.push(arg);
            },
            None => {},
        }
        i = i + 1;
        proof {
            let prefix = variable_config_map@.take(i as int);
            assert(prefix.drop_last() =~= variable_config_map@.take(i as int - 1));
            assert(prefix.last() == variable_config_map@[i as int - 1]);
            match spec_derive_one(options.auto_args, prefix.last().0, prefix.last().1) {
                Some(arg) => {
                    assert(spec_grammar_args_view(args@) =~= args_before + seq![arg]);
                },
                None => {
                    assert(spec_grammar_args_view(args@) =~= args_before + Seq::<
                        SpecGrammarArg,
                    >::empty());
                },
            }
        }
    }
    proof {
        assert(variable_config_map@.take(n as int) =~= variable_config_map@);
    }
    args
}

/// Builds the reserved trailing argument of an alias command.
fn build_alias_arg() -> (r: GrammarArg)
    ensures
        r@ == spec_alias_arg(),
{
    GrammarArg {
        id: String::from_str(ALIAS_ARGS_NAME),
        long: None,
        short: None,
        position: None,
        description: Some(String::from_str(ALIAS_ARGS_HELP)),
        default_value: None,
        variadic: true,
        allow_hyphen_values: true,
        trailing_var_arg: true,
    }
}

/// Compiles a command map into grammar nodes, one per command visible on
/// `platform`, in map order.
///
/// Each node's variable scope is the command's own variables overlaid on
/// `parent_variables`, same-key definitions shadowing inherited ones; the
/// node requires a subcommand exactly when the command has no action; an
/// alias action appends the reserved trailing argument after the derived
/// ones, so a user variable bound under the reserved name would be
/// shadowed by it.
pub fn create_commands(
    options: &Options,
    commands: &CommandConfigMap,
    parent_variables: &VariableConfigMap,
    platform: Platform,
) -> (r: Vec<GrammarNode>)
    ensures
        spec_grammar_nodes_view(r@) == spec_compile_commands(
            options.auto_args,
            commands@,
            parent_variables@,
            platform,
        ),
    decreases *commands,
{
    let mut nodes: Vec<GrammarNode> = Vec::new();
    let n = commands.entries.len();
    let mut i: usize = 0;
    proof {
        lemma_command_entries_view(commands.entries@);
        assert(commands@.take(0) =~= Seq::<(Seq<char>, SpecCommand)>::empty());
        assert(spec_grammar_nodes_view(nodes@) =~= Seq::<SpecGrammarNode>::empty());
    }
    while i < n
        invariant
            n == commands.entries@.len(),
            0 <= i <= n,
            commands@.len() == n,
            forall|j: int| 0 <= j < n ==> #[trigger] commands@[j] == (
                commands.entries@[j].0@,
                spec_command_view(commands.entries@[j].1),
            ),
            spec_grammar_nodes_view(nodes@) == spec_compile_commands(
                options.auto_args,
                commands@.take(i as int),
                parent_variables@,
                platform,
            ),
        decreases n - i,
    {
        let entry = &commands.entries[i];
        let key = &entry.0;
        let command_config = &entry.1;
        let visible = match &command_config.platform {
            Some(platforms) => is_current_platform(platform, platforms),
            None => true,
        };
        let ghost nodes_before = spec_grammar_nodes_view(nodes@);
        if visible {
            let name = match &command_config.name {
                Some(alternate_name) => alternate_name.clone(),
                None => key.clone(),
            };
            // The variables the caller provides combined with this command's
            // own: nested commands inherit the merged scope.
            let mut variables = parent_variables.clone();
            variables.extend(command_config.variables.clone());
            let mut args = create_args(options, &variables);
            let subcommands = create_commands(options, &command_config.commands, &variables, platform);
            let has_action = command_config.action.is_some();
            let ghost derived = spec_grammar_args_view(args@);
            if let Some(ActionConfig::Alias(_)) = &command_config.action {
                args.push(build_alias_arg());
                proof {
                    assert(spec_grammar_args_view(args@) =~= derived.push(spec_alias_arg()));
                }
            }
            let node = GrammarNode {
                name,
                arguments: args,
                subcommands,
                subcommand_required: !has_action,
                hidden: command_config.hidden,
                description: clone_opt_string(&command_config.description),
            };
            let ghost nodes_vec_before = nodes@;
            nodes.push(node);
            proof {
                assert(nodes@.drop_last() =~= nodes_vec_before);
                assert(nodes@.last() == node);
                assert(node@ == spec_compile_command(
                    options.auto_args,
                    key@,
                    spec_command_view(*command_config),
                    parent_variables@,
                    platform,
                ));
                assert(spec_grammar_nodes_view(nodes@) =~= nodes_before.push(node@));
            }
        }
        i = i + 1;
        proof {
            let prefix = commands@.take(i as int);
            assert(prefix.drop_last() =~= commands@.take(i as int - 1));
            assert(prefix.last() == commands@[i as int - 1]);
        }
    }
    proof {
        assert(commands@.take(n as int) =~= commands@);
    }
    nodes
}

/// The root grammar node of a configuration: the tool's fixed name, the
/// root variables' arguments, the compiled command tree, and a required
/// subcommand.
pub open spec fn spec_root_grammar(cfg: SpecConfig, platform: Platform) -> SpecGrammarNode {
    SpecGrammarNode {
        name: ROOT_COMMAND_NAME@,
        arguments: spec_derive_args(cfg.options.auto_args, cfg.variables),
        subcommands: spec_compile_commands(
            cfg.options.auto_args,
            cfg.commands,
            cfg.variables,
            platform,
        ),
        subcommand_required: true,
        hidden: false,
        description: cfg.description,
    }
}

/// Compiles the whole configuration into the tool's root grammar node.
///
/// The caller queries the running platform once and passes it in; the
/// compilation itself is a pure function of configuration and platform.
pub fn create_root_command(config: &Config, platform: Platform) -> (r: GrammarNode)
    ensures
        r@ == spec_root_grammar(config@, platform),
{
    let root_args = create_args(&config.options, &config.variables);
    let subcommands = create_commands(&config.options, &config.commands, &config.variables, platform);
    GrammarNode {
        name: String::from_str(ROOT_COMMAND_NAME),
        arguments: root_args,
        subcommands,
        subcommand_required: true,
        hidden: false,
        description: clone_opt_string(&config.description),
    }
}

// ---------------------------------------------------------------------------
// The resolver, as a mathematical function
// ---------------------------------------------------------------------------

/// Whether a command answers to `name`: its override if present, else its
/// map key. Both identifiers resolve a parsed invocation.
pub open spec fn spec_name_matches(name: Seq<char>, key: Seq<char>, cmd: SpecCommand) -> bool {
    (cmd.name matches Some(overridden) && overridden == name) || key == name
}

/// The first command answering to `name`, scanning in map order.
pub open spec fn spec_find_by_name(
    name: Seq<char>,
    commands: Seq<(Seq<char>, SpecCommand)>,
) -> Option<SpecCommand>
    decreases commands.len(),
{
    if commands.len() == 0 {
        None
    } else if spec_name_matches(name, commands[0].0, commands[0].1) {
        Some(commands[0].1)
    } else {
        spec_find_by_name(name, commands.drop_first())
    }
}

/// A name search skips any prefix of commands not answering to the name.
pub proof fn lemma_find_by_name_past_prefix(
    name: Seq<char>,
    commands: Seq<(Seq<char>, SpecCommand)>,
    i: int,
)
    requires
        0 <= i <= commands.len(),
        forall|j: int| 0 <= j < i ==> !spec_name_matches(
            name,
            (#[trigger] commands[j]).0,
            commands[j].1,
        ),
    ensures
        spec_find_by_name(name, commands) == spec_find_by_name(name, commands.skip(i)),
    decreases i,
{
    if i > 0 {
        lemma_find_by_name_past_prefix(name, commands.drop_first(), i - 1);
        assert(commands.drop_first().skip(i - 1) =~= commands.skip(i));
    } else {
        assert(commands.skip(0) =~= commands);
    }
}

/// Whether every matched name along the path resolves in the command map
/// it is matched under. The parsing engine only matches names the grammar
/// was compiled from, so this holds of any invocation it produced; a
/// failure indicates that grammar and configuration have diverged.
pub open spec fn spec_invocation_consistent(
    inv: SpecInvocation,
    commands: Seq<(Seq<char>, SpecCommand)>,
) -> bool
    decreases inv,
{
    match inv.subcommand {
        None => true,
        Some((name, sub)) => match spec_find_by_name(name, commands) {
            Some(cmd) => spec_invocation_consistent(*sub, cmd.commands),
            None => false,
        },
    }
}

/// The resolved command of a matched path: the deepest matched command,
/// its merged variable scope, and its local invocation level. Nothing is
/// resolved when the invocation selected no subcommand at all.
pub open spec fn spec_resolve(
    inv: SpecInvocation,
    commands: Seq<(Seq<char>, SpecCommand)>,
    inherited: Seq<(Seq<char>, SpecVariable)>,
) -> Option<(SpecCommand, Seq<(Seq<char>, SpecVariable)>, SpecInvocation)>
    decreases inv,
{
    match inv.subcommand {
        None => None,
        Some((name, sub)) => match spec_find_by_name(name, commands) {
            Some(cmd) => {
                let scope = assoc_merge(inherited, cmd.variables);
                match spec_resolve(*sub, cmd.commands, scope) {
                    Some(deeper) => Some(deeper),
                    None => Some((cmd, scope, *sub)),
                }
            },
            None => None,
        },
    }
}

// ---------------------------------------------------------------------------
// The resolver
// ---------------------------------------------------------------------------

/// Finds the command answering to `command_name`, by override name or map
/// key, scanning in map order.
pub fn find_command_by_name<'a>(
    command_name: &String,
    available_commands: &'a CommandConfigMap,
) -> (r: Option<&'a CommandConfig>)
    ensures
        match spec_find_by_name(command_name@, available_commands@) {
            Some(cmd) => r matches Some(found) && found@ == cmd,
            None => r is None,
        },
{
    proof {
        lemma_command_entries_view(available_commands.entries@);
    }
    let n = available_commands.entries.len();
    let mut i: usize = 0;
    while i < n
        invariant
            n == available_commands.entries@.len(),
            0 <= i <= n,
            available_commands@.len() == n,
            forall|j: int| 0 <= j < n ==> #[trigger] available_commands@[j] == (
                available_commands.entries@[j].0@,
                spec_command_view(available_commands.entries@[j].1),
            ),
            forall|j: int| 0 <= j < i ==> !spec_name_matches(
                command_name@,
                (#[trigger] available_commands@[j]).0,
                available_commands@[j].1,
            ),
        decreases n - i,
    {
        let entry = &available_commands.entries[i];
        let name_matches = match &entry.1.name {
            Some(overridden_name) => *overridden_name == *command_name,
            None => false,
        };
        if name_matches || entry.0 == *command_name {
            proof {
                lemma_find_by_name_past_prefix(command_name@, available_commands@, i as int);
                assert(available_commands@.skip(i as int)[0] == available_commands@[i as int]);
            }
            return Some(&entry.1);
        }
        i = i + 1;
    }
    proof {
        lemma_find_by_name_past_prefix(command_name@, available_commands@, n as int);
        assert(available_commands@.skip(n as int) =~= Seq::<(Seq<char>, SpecCommand)>::empty());
    }
    None
}

/// Decides whether every matched name along the path resolves in the
/// command map it is matched under; [`find_subcommand`] requires this.
pub fn invocation_consistent(
    arg_matches: &InvocationMatch,
    available_commands: &CommandConfigMap,
) -> (r: bool)
    ensures
        r == spec_invocation_consistent(arg_matches@, available_commands@),
    decreases *arg_matches,
{
    match &arg_matches.subcommand {
        None => true,
        Some(sub) => match find_command_by_name(&sub.name, available_commands) {
            Some(command_config) => invocation_consistent(&sub.matches, &command_config.commands),
            None => false,
        },
    }
}

/// Finds the command definition, merged variable scope and local
/// invocation level matching the provided `arg_matches`: the command to
/// invoke, every variable visible to it, and the argument values bound at
/// its own level.
///
/// The deepest matched command wins: an ancestor is returned only when the
/// invocation descended no further. `None` means the invocation selected
/// no subcommand at all.
pub fn find_subcommand<'a>(
    arg_matches: &'a InvocationMatch,
    available_commands: &'a CommandConfigMap,
    parent_variables: &VariableConfigMap,
) -> (r: Option<(&'a CommandConfig, VariableConfigMap, &'a InvocationMatch)>)
    requires
        spec_invocation_consistent(arg_matches@, available_commands@),
    ensures
        match spec_resolve(arg_matches@, available_commands@, parent_variables@) {
            Some(resolved) => r matches Some(found) && found.0@ == resolved.0 && found.1@
                == resolved.1 && found.2@ == resolved.2,
            None => r is None,
        },
    decreases *arg_matches,
{
    match &arg_matches.subcommand {
        None => None,
        Some(sub) => {
            let command_config = match find_command_by_name(&sub.name, available_commands) {
                Some(found) => found,
                None => unreached(),
            };
            // The subcommand's variables overlaid on those the caller
            // provides: this level sees the whole inherited scope.
            let mut available_variables = parent_variables.clone();
            available_variables.extend(command_config.variables.clone());
            let deeper = find_subcommand(&sub.matches, &command_config.commands, &available_variables);
            match deeper {
                Some(matched) => Some(matched),
                None => Some((command_config, available_variables, &sub.matches)),
            }
        },
    }
}

// ---------------------------------------------------------------------------
// Laws of the compiler
// ---------------------------------------------------------------------------

/// A command whose platform predicate excludes the running platform
/// contributes nothing to the compiled grammar: removing it changes
/// nothing. Its subtree is never compiled, since compilation only reaches
/// a subtree through its root's node; the same holds at every depth,
/// because every nested map is compiled by this same function.
pub proof fn lemma_excluded_command_not_compiled(
    auto_args: bool,
    commands: Seq<(Seq<char>, SpecCommand)>,
    inherited: Seq<(Seq<char>, SpecVariable)>,
    platform: Platform,
    i: int,
)
    requires
        0 <= i < commands.len(),
        !spec_visible(commands[i].1, platform),
    ensures
        spec_compile_commands(auto_args, commands, inherited, platform) == spec_compile_commands(
            auto_args,
            commands.remove(i),
            inherited,
            platform,
        ),
    decreases commands.len(),
{
    if i == commands.len() - 1 {
        assert(commands.remove(i) =~= commands.drop_last());
    } else {
        lemma_excluded_command_not_compiled(
            auto_args,
            commands.drop_last(),
            inherited,
            platform,
            i,
        );
        assert(commands.remove(i).drop_last() =~= commands.drop_last().remove(i));
        assert(commands.remove(i).last() == commands.last());
    }
}

/// Every node of the compiled grammar belongs to a command of the map
/// that is visible on the platform, at the returned position: nothing in
/// the grammar stands for an excluded command.
pub proof fn lemma_compiled_node_source(
    auto_args: bool,
    commands: Seq<(Seq<char>, SpecCommand)>,
    inherited: Seq<(Seq<char>, SpecVariable)>,
    platform: Platform,
    i: int,
) -> (j: int)
    requires
        0 <= i < spec_compile_commands(auto_args, commands, inherited, platform).len(),
    ensures
        0 <= j < commands.len(),
        spec_visible(commands[j].1, platform),
        spec_compile_commands(auto_args, commands, inherited, platform)[i]
            == spec_compile_command(auto_args, commands[j].0, commands[j].1, inherited, platform),
    decreases commands.len(),
{
    let compiled = spec_compile_commands(auto_args, commands, inherited, platform);
    let rest = spec_compile_commands(auto_args, commands.drop_last(), inherited, platform);
    if i < rest.len() {
        let j = lemma_compiled_node_source(auto_args, commands.drop_last(), inherited, platform, i);
        assert(commands.drop_last()[j] == commands[j]);
        j
    } else {
        assert(spec_visible(commands.last().1, platform));
        commands.len() - 1
    }
}

/// An explicit argument binding always wins over auto-binding.
pub proof fn lemma_explicit_binding_wins(auto_args: bool, key: Seq<char>, v: SpecVariable)
    requires
        spec_explicit_binding(v) is Some,
    ensures
        spec_effective_binding(auto_args, key, v) == spec_explicit_binding(v),
{
}

/// `auto_args` synthesizes, for a variable without an explicit binding, a
/// shorthand whose flag is the variable's key; without the option such a
/// variable contributes no argument.
pub proof fn lemma_auto_binding_synthesized(key: Seq<char>, v: SpecVariable)
    requires
        spec_explicit_binding(v) is None,
    ensures
        spec_effective_binding(true, key, v) == Some(SpecArgumentBinding::Shorthand(key)),
        spec_effective_binding(false, key, v) is None,
{
}

/// Under `auto_args` every variable of the scope yields exactly one
/// argument, in scope order.
pub proof fn lemma_auto_args_bind_every_variable(scope: Seq<(Seq<char>, SpecVariable)>)
    ensures
        spec_derive_args(true, scope).len() == scope.len(),
        forall|i: int| 0 <= i < scope.len() ==> #[trigger] spec_derive_args(true, scope)[i]
            == spec_derive_one(true, scope[i].0, scope[i].1).unwrap(),
    decreases scope.len(),
{
    if scope.len() > 0 {
        lemma_auto_args_bind_every_variable(scope.drop_last());
        let last = scope.last();
        assert(spec_derive_one(true, last.0, last.1) is Some);
        assert forall|i: int| 0 <= i < scope.len() implies #[trigger] spec_derive_args(
            true,
            scope,
        )[i] == spec_derive_one(true, scope[i].0, scope[i].1).unwrap() by {
            if i < scope.len() - 1 {
                assert(scope.drop_last()[i] == scope[i]);
            }
        }
    }
}

/// Only the literal variants give their compiled argument a default
/// value: their fixed literal.
pub proof fn lemma_default_only_for_literals(v: SpecVariable)
    ensures
        (spec_default_value(v) is Some) <==> (v is ShorthandLiteral || v is Literal),
{
}

/// A derived argument carries exactly its variable's default value,
/// however the variable came to be bound.
pub proof fn lemma_derived_arg_keeps_default(auto_args: bool, key: Seq<char>, v: SpecVariable)
    requires
        spec_derive_one(auto_args, key, v) is Some,
    ensures
        spec_derive_one(auto_args, key, v).unwrap().default_value == spec_default_value(v),
{
}

/// Every derived argument originates in a variable of the scope: the one
/// at the returned position, whose key is the argument's id.
pub proof fn lemma_derived_arg_source(
    auto_args: bool,
    scope: Seq<(Seq<char>, SpecVariable)>,
    i: int,
) -> (j: int)
    requires
        0 <= i < spec_derive_args(auto_args, scope).len(),
    ensures
        0 <= j < scope.len(),
        spec_derive_one(auto_args, scope[j].0, scope[j].1) == Some(
            spec_derive_args(auto_args, scope)[i],
        ),
        spec_derive_args(auto_args, scope)[i].id == scope[j].0,
    decreases scope.len(),
{
    let shorter = spec_derive_args(auto_args, scope.drop_last());
    if i < shorter.len() {
        let j = lemma_derived_arg_source(auto_args, scope.drop_last(), i);
        assert(scope.drop_last()[j] == scope[j]);
        j
    } else {
        assert(spec_derive_args(auto_args, scope)[i] == spec_derive_one(
            auto_args,
            scope.last().0,
            scope.last().1,
        ).unwrap());
        scope.len() - 1
    }
}

/// An alias command compiles with exactly one argument beyond the derived
/// ones: the reserved trailing argument, appended last; any other command
/// compiles with the derived arguments alone.
pub proof fn lemma_alias_adds_one_trailing_arg(
    auto_args: bool,
    key: Seq<char>,
    cmd: SpecCommand,
    inherited: Seq<(Seq<char>, SpecVariable)>,
    platform: Platform,
)
    ensures
        ({
            let node = spec_compile_command(auto_args, key, cmd, inherited, platform);
            let derived = spec_derive_args(auto_args, assoc_merge(inherited, cmd.variables));
            &&& (cmd.action matches Some(SpecAction::Alias(_)) ==> node.arguments == derived.push(
                spec_alias_arg(),
            ))
            &&& (!(cmd.action matches Some(SpecAction::Alias(_))) ==> node.arguments == derived)
        }),
{
}

/// Compilation is a function of configuration model and platform: two
/// results of compiling one configuration for one platform are equal, so
/// compiling twice yields grammars of identical structure.
pub proof fn lemma_compile_idempotent(
    auto_args: bool,
    commands: Seq<(Seq<char>, SpecCommand)>,
    inherited: Seq<(Seq<char>, SpecVariable)>,
    platform: Platform,
    r1: Seq<SpecGrammarNode>,
    r2: Seq<SpecGrammarNode>,
)
    requires
        r1 == spec_compile_commands(auto_args, commands, inherited, platform),
        r2 == spec_compile_commands(auto_args, commands, inherited, platform),
    ensures
        r1 == r2,
{
}

// ---------------------------------------------------------------------------
// Laws of the resolver
// ---------------------------------------------------------------------------

/// The level at which the matched path ends.
pub open spec fn spec_matched_leaf(inv: SpecInvocation) -> SpecInvocation
    decreases inv,
{
    match inv.subcommand {
        None => inv,
        Some((_name, sub)) => spec_matched_leaf(*sub),
    }
}

/// The command definitions along the matched path, root-most first.
pub open spec fn spec_path_commands(
    inv: SpecInvocation,
    commands: Seq<(Seq<char>, SpecCommand)>,
) -> Seq<SpecCommand>
    decreases inv,
{
    match inv.subcommand {
        None => Seq::empty(),
        Some((name, sub)) => match spec_find_by_name(name, commands) {
            Some(cmd) => seq![cmd] + spec_path_commands(*sub, cmd.commands),
            None => Seq::empty(),
        },
    }
}

/// Whether any command of the path declares a variable under `key`.
pub open spec fn spec_any_path_command_binds(cmds: Seq<SpecCommand>, key: Seq<char>) -> bool
    decreases cmds.len(),
{
    if cmds.len() == 0 {
        false
    } else {
        assoc_has_key(cmds[0].variables, key) || spec_any_path_command_binds(
            cmds.drop_first(),
            key,
        )
    }
}

/// The definition of `key` declared deepest along the path, if any.
pub open spec fn spec_deepest_binding(cmds: Seq<SpecCommand>, key: Seq<char>) -> Option<
    SpecVariable,
>
    decreases cmds.len(),
{
    if cmds.len() == 0 {
        None
    } else {
        match spec_deepest_binding(cmds.drop_first(), key) {
            Some(v) => Some(v),
            None => assoc_lookup(cmds[0].variables, key),
        }
    }
}

/// Whether every variable map along the matched path is duplicate-free;
/// any configuration built through `insert` alone is.
pub open spec fn spec_path_vars_distinct(
    inv: SpecInvocation,
    commands: Seq<(Seq<char>, SpecCommand)>,
) -> bool
    decreases inv,
{
    match inv.subcommand {
        None => true,
        Some((name, sub)) => match spec_find_by_name(name, commands) {
            Some(cmd) => assoc_distinct(cmd.variables) && spec_path_vars_distinct(
                *sub,
                cmd.commands,
            ),
            None => true,
        },
    }
}

/// An invocation that matched at least one subcommand always resolves,
/// and resolves to the deepest matched command, never an ancestor: the
/// returned command is the last one on the matched path, and the returned
/// local level is the path's leaf, below which nothing was matched.
pub proof fn lemma_resolve_returns_deepest(
    inv: SpecInvocation,
    commands: Seq<(Seq<char>, SpecCommand)>,
    inherited: Seq<(Seq<char>, SpecVariable)>,
)
    requires
        spec_invocation_consistent(inv, commands),
        inv.subcommand is Some,
    ensures
        spec_resolve(inv, commands, inherited) is Some,
        spec_resolve(inv, commands, inherited).unwrap().2 == spec_matched_leaf(inv),
        spec_resolve(inv, commands, inherited).unwrap().2.subcommand is None,
        spec_path_commands(inv, commands).len() > 0,
        spec_resolve(inv, commands, inherited).unwrap().0 == spec_path_commands(
            inv,
            commands,
        ).last(),
    decreases inv,
{
    let (name, sub) = inv.subcommand.unwrap();
    let cmd = spec_find_by_name(name, commands).unwrap();
    let scope = assoc_merge(inherited, cmd.variables);
    let path = spec_path_commands(inv, commands);
    assert(path == seq![cmd] + spec_path_commands(*sub, cmd.commands));
    if sub.subcommand is None {
        assert(spec_resolve(*sub, cmd.commands, scope) is None);
        assert(spec_resolve(inv, commands, inherited) == Some((cmd, scope, *sub)));
        assert(spec_matched_leaf(*sub) == *sub);
        assert(spec_matched_leaf(inv) == *sub);
        assert(spec_path_commands(*sub, cmd.commands) =~= Seq::<SpecCommand>::empty());
        assert(path =~= seq![cmd]);
        assert(path.last() == cmd);
    } else {
        lemma_resolve_returns_deepest(*sub, cmd.commands, scope);
        assert(spec_resolve(inv, commands, inherited) == spec_resolve(*sub, cmd.commands, scope));
        assert(spec_matched_leaf(inv) == spec_matched_leaf(*sub));
        assert(path.last() == spec_path_commands(*sub, cmd.commands).last());
    }
}

/// Round trip of the variable keys: a resolved command's merged scope
/// binds exactly the keys of the inherited root scope together with every
/// key some command on the matched path declares.
pub proof fn lemma_resolved_scope_keys(
    inv: SpecInvocation,
    commands: Seq<(Seq<char>, SpecCommand)>,
    inherited: Seq<(Seq<char>, SpecVariable)>,
    key: Seq<char>,
)
    requires
        spec_invocation_consistent(inv, commands),
        inv.subcommand is Some,
    ensures
        spec_resolve(inv, commands, inherited) is Some,
        assoc_has_key(spec_resolve(inv, commands, inherited).unwrap().1, key) == (assoc_has_key(
            inherited,
            key,
        ) || spec_any_path_command_binds(spec_path_commands(inv, commands), key)),
    decreases inv,
{
    lemma_resolve_returns_deepest(inv, commands, inherited);
    let (name, sub) = inv.subcommand.unwrap();
    let cmd = spec_find_by_name(name, commands).unwrap();
    let scope = assoc_merge(inherited, cmd.variables);
    let path = spec_path_commands(inv, commands);
    let deeper_path = spec_path_commands(*sub, cmd.commands);
    assert(path == seq![cmd] + deeper_path);
    assert((seq![cmd] + deeper_path).drop_first() =~= deeper_path);
    assert(path[0] == cmd);
    lemma_assoc_merge_has_key(inherited, cmd.variables, key);
    if sub.subcommand is None {
        assert(spec_resolve(*sub, cmd.commands, scope) is None);
        assert(spec_resolve(inv, commands, inherited) == Some((cmd, scope, *sub)));
        assert(deeper_path =~= Seq::<SpecCommand>::empty());
        assert(!spec_any_path_command_binds(deeper_path, key));
    } else {
        lemma_resolved_scope_keys(*sub, cmd.commands, scope, key);
        assert(spec_resolve(inv, commands, inherited) == spec_resolve(*sub, cmd.commands, scope));
    }
}

/// Shadowing along the matched path: a resolved command's merged scope
/// answers each key with the definition declared deepest on the path,
/// and with the inherited root definition only when no command on the
/// path declares the key. Each variable map on the path must be
/// duplicate-free, as any map built through `insert` is.
pub proof fn lemma_resolved_scope_shadowing(
    inv: SpecInvocation,
    commands: Seq<(Seq<char>, SpecCommand)>,
    inherited: Seq<(Seq<char>, SpecVariable)>,
    key: Seq<char>,
)
    requires
        spec_invocation_consistent(inv, commands),
        spec_path_vars_distinct(inv, commands),
        inv.subcommand is Some,
    ensures
        spec_resolve(inv, commands, inherited) is Some,
        assoc_lookup(spec_resolve(inv, commands, inherited).unwrap().1, key) == match
            spec_deepest_binding(spec_path_commands(inv, commands), key) {
            Some(v) => Some(v),
            None => assoc_lookup(inherited, key),
        },
    decreases inv,
{
    lemma_resolve_returns_deepest(inv, commands, inherited);
    let (name, sub) = inv.subcommand.unwrap();
    let cmd = spec_find_by_name(name, commands).unwrap();
    let scope = assoc_merge(inherited, cmd.variables);
    let path = spec_path_commands(inv, commands);
    let deeper_path = spec_path_commands(*sub, cmd.commands);
    assert(path == seq![cmd] + deeper_path);
    assert((seq![cmd] + deeper_path).drop_first() =~= deeper_path);
    assert(path[0] == cmd);
    lemma_assoc_merge_lookup(inherited, cmd.variables, key);
    if sub.subcommand is None {
        assert(spec_resolve(*sub, cmd.commands, scope) is None);
        assert(spec_resolve(inv, commands, inherited) == Some((cmd, scope, *sub)));
        assert(deeper_path =~= Seq::<SpecCommand>::empty());
        assert(spec_deepest_binding(deeper_path, key) is None);
    } else {
        lemma_resolved_scope_shadowing(*sub, cmd.commands, scope, key);
        assert(spec_resolve(inv, commands, inherited) == spec_resolve(*sub, cmd.commands, scope));
    }
}

} // verus!
