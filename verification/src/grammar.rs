//! The compiled, engine-facing argument grammar: one node per visible
//! command, with argument declarations derived from in-scope variables.
//! The external parsing engine consumes this tree; nothing here executes.

use vstd::prelude::*;

use crate::config::opt_str_view;

verus! {

/// One argument declaration of a grammar node.
///
/// The `id` is the key of the variable the argument was derived from; this
/// linkage is how a resolved invocation is reunited with its variables.
#[derive(Debug, PartialEq)]
pub struct GrammarArg {
    pub id: String,
    /// Long flag, absent for positional arguments.
    pub long: Option<String>,
    /// Single-character short flag.
    pub short: Option<char>,
    /// 1-based slot of a positional argument.
    pub position: Option<usize>,
    pub description: Option<String>,
    pub default_value: Option<String>,
    /// Accepts one or more values.
    pub variadic: bool,
    /// Accepts values that look like flags.
    pub allow_hyphen_values: bool,
    /// Stops flag interpretation from this argument onward.
    pub trailing_var_arg: bool,
}

/// Model of an argument declaration.
pub struct SpecGrammarArg {
    pub id: Seq<char>,
    pub long: Option<Seq<char>>,
    pub short: Option<char>,
    pub position: Option<usize>,
    pub description: Option<Seq<char>>,
    pub default_value: Option<Seq<char>>,
    pub variadic: bool,
    pub allow_hyphen_values: bool,
    pub trailing_var_arg: bool,
}

impl View for GrammarArg {
    type V = SpecGrammarArg;

    open spec fn view(&self) -> SpecGrammarArg {
        SpecGrammarArg {
            id: self.id@,
            long: opt_str_view(self.long),
            short: self.short,
            position: self.position,
            description: opt_str_view(self.description),
            default_value: opt_str_view(self.default_value),
            variadic: self.variadic,
            allow_hyphen_values: self.allow_hyphen_values,
            trailing_var_arg: self.trailing_var_arg,
        }
    }
}

/// One grammar node: a command the parsing engine can match.
#[derive(Debug, PartialEq)]
pub struct GrammarNode {
    pub name: String,
    pub arguments: Vec<GrammarArg>,
    pub subcommands: Vec<GrammarNode>,
    /// The matched invocation must select a subcommand at this node.
    pub subcommand_required: bool,
    pub hidden: bool,
    pub description: Option<String>,
}

/// Model of a grammar node.
pub struct SpecGrammarNode {
    pub name: Seq<char>,
    pub arguments: Seq<SpecGrammarArg>,
    pub subcommands: Seq<SpecGrammarNode>,
    pub subcommand_required: bool,
    pub hidden: bool,
    pub description: Option<Seq<char>>,
}

/// Model of an argument list.
pub open spec fn spec_grammar_args_view(args: Seq<GrammarArg>) -> Seq<SpecGrammarArg> {
    args.map_values(|a: GrammarArg| a@)
}

/// Model of a grammar node.
pub open spec fn spec_grammar_node_view(n: GrammarNode) -> SpecGrammarNode
    decreases n,
{
    SpecGrammarNode {
        name: n.name@,
        arguments: spec_grammar_args_view(n.arguments@),
        subcommands: spec_grammar_nodes_view(n.subcommands@),
        subcommand_required: n.subcommand_required,
        hidden: n.hidden,
        description: opt_str_view(n.description),
    }
}

/// Model of a list of grammar nodes, in order.
pub open spec fn spec_grammar_nodes_view(nodes: Seq<GrammarNode>) -> Seq<SpecGrammarNode>
    decreases nodes,
{
    if nodes.len() == 0 {
        Seq::empty()
    } else {
        spec_grammar_nodes_view(nodes.drop_last()).push(spec_grammar_node_view(nodes.last()))
    }
}

impl View for GrammarNode {
    type V = SpecGrammarNode;

    open spec fn view(&self) -> SpecGrammarNode {
        spec_grammar_node_view(*self)
    }
}

} // verus!
