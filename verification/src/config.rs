//! The configuration schema: commands, variables, argument bindings and
//! actions, together with their mathematical models.
//!
//! Maps are association lists that keep insertion order, so one compilation
//! of a configuration is deterministic. A key occurs at most once when a map
//! is built through [`VariableConfigMap::insert`] / [`CommandConfigMap::insert`];
//! the lookup functions read the first occurrence either way.

use vstd::prelude::*;
use vstd::string::StringExecFns;

use crate::platform::OneOrManyPlatforms;
use crate::platform::SpecPlatformFilter;

verus! {

/// Model of an optional string: the character sequence, if present.
pub open spec fn opt_str_view(o: Option<String>) -> Option<Seq<char>> {
    match o {
        Some(s) => Some(s@),
        None => None,
    }
}

/// Model of a list of strings.
pub open spec fn str_vec_view(v: Vec<String>) -> Seq<Seq<char>> {
    Seq::new(v@.len(), |i: int| v@[i]@)
}

// ---------------------------------------------------------------------------
// Argument bindings
// ---------------------------------------------------------------------------

/// An explicit long flag with an optional short flag and help text.
#[derive(Debug)]
pub struct NamedArgumentConfig {
    pub long: String,
    pub short: Option<char>,
    pub description: Option<String>,
}

/// A positional slot at a 1-based index with optional help text.
#[derive(Debug)]
pub struct PositionalArgumentConfig {
    pub position: usize,
    pub description: Option<String>,
}

/// How a variable surfaces as an argument of the compiled grammar.
#[derive(Debug)]
pub enum ArgumentConfigVariant {
    /// A long flag equal to the given name; no short form, no help text.
    Shorthand(String),
    Named(NamedArgumentConfig),
    Positional(PositionalArgumentConfig),
}

/// Model of an argument binding.
pub enum SpecArgumentBinding {
    Shorthand(Seq<char>),
    Named { long: Seq<char>, short: Option<char>, description: Option<Seq<char>> },
    Positional { position: usize, description: Option<Seq<char>> },
}

impl View for ArgumentConfigVariant {
    type V = SpecArgumentBinding;

    open spec fn view(&self) -> SpecArgumentBinding {
        match self {
            ArgumentConfigVariant::Shorthand(name) => SpecArgumentBinding::Shorthand(name@),
            ArgumentConfigVariant::Named(named) => (SpecArgumentBinding::Named {
                long: named.long@,
                short: named.short,
                description: opt_str_view(named.description),
            }),
            ArgumentConfigVariant::Positional(positional) => (SpecArgumentBinding::Positional {
                position: positional.position,
                description: opt_str_view(positional.description),
            }),
        }
    }
}

/// Copies an optional string.
pub fn clone_opt_string(o: &Option<String>) -> (r: Option<String>)
    ensures
        opt_str_view(r) == opt_str_view(*o),
{
    match o {
        Some(s) => Some(s.clone()),
        None => None,
    }
}

impl Clone for ArgumentConfigVariant {
    fn clone(&self) -> (r: Self)
        ensures
            r@ == self@,
    {
        match self {
            ArgumentConfigVariant::Shorthand(name) => ArgumentConfigVariant::Shorthand(
                name.clone(),
            ),
            ArgumentConfigVariant::Named(named) => ArgumentConfigVariant::Named(
                NamedArgumentConfig {
                    long: named.long.clone(),
                    short: named.short,
                    description: clone_opt_string(&named.description),
                },
            ),
            ArgumentConfigVariant::Positional(positional) => ArgumentConfigVariant::Positional(
                PositionalArgumentConfig {
                    position: positional.position,
                    description: clone_opt_string(&positional.description),
                },
            ),
        }
    }
}

// ---------------------------------------------------------------------------
// Executions and actions
// ---------------------------------------------------------------------------

/// A raw command line for the evaluation engine; opaque to this core.
#[derive(Debug)]
pub enum RawCommandConfigVariant {
    Shorthand(String),
}

/// What an execution runs; opaque to this core, carried through unchanged.
#[derive(Debug)]
pub enum ExecutionConfigVariant {
    RawCommand(RawCommandConfigVariant),
}

/// Model of an execution payload.
pub enum SpecExecution {
    RawCommand(Seq<char>),
}

impl View for ExecutionConfigVariant {
    type V = SpecExecution;

    open spec fn view(&self) -> SpecExecution {
        match self {
            ExecutionConfigVariant::RawCommand(RawCommandConfigVariant::Shorthand(cmd)) => {
                SpecExecution::RawCommand(cmd@)
            },
        }
    }
}

impl Clone for ExecutionConfigVariant {
    fn clone(&self) -> (r: Self)
        ensures
            r@ == self@,
    {
        match self {
            ExecutionConfigVariant::RawCommand(RawCommandConfigVariant::Shorthand(cmd)) => {
                ExecutionConfigVariant::RawCommand(RawCommandConfigVariant::Shorthand(cmd.clone()))
            },
        }
    }
}

/// Runs one execution.
#[derive(Debug)]
pub struct SingleActionConfig {
    pub action: ExecutionConfigVariant,
}

/// Passes control, plus all trailing raw tokens, to an external program.
#[derive(Debug)]
pub struct AliasActionConfig {
    pub alias: String,
}

/// What a command does when invoked.
#[derive(Debug)]
pub enum ActionConfig {
    SingleStep(SingleActionConfig),
    Alias(AliasActionConfig),
}

/// Model of an action.
pub enum SpecAction {
    SingleStep(SpecExecution),
    Alias(Seq<char>),
}

impl View for ActionConfig {
    type V = SpecAction;

    open spec fn view(&self) -> SpecAction {
        match self {
            ActionConfig::SingleStep(single) => SpecAction::SingleStep(single.action@),
            ActionConfig::Alias(alias) => SpecAction::Alias(alias.alias@),
        }
    }
}

impl Clone for ActionConfig {
    fn clone(&self) -> (r: Self)
        ensures
            r@ == self@,
    {
        match self {
            ActionConfig::SingleStep(single) => ActionConfig::SingleStep(
                SingleActionConfig { action: single.action.clone() },
            ),
            ActionConfig::Alias(alias) => ActionConfig::Alias(
                AliasActionConfig { alias: alias.alias.clone() },
            ),
        }
    }
}

// ---------------------------------------------------------------------------
// Variables
// ---------------------------------------------------------------------------

/// An interactive prompt; its message and choices are opaque to this core.
#[derive(Debug)]
pub struct PromptConfig {
    pub message: String,
    pub options: Vec<String>,
}

/// A fixed literal with an optional explicit argument binding; the literal
/// becomes the bound argument's default value.
#[derive(Debug)]
pub struct LiteralVariableConfig {
    pub value: String,
    pub argument: Option<ArgumentConfigVariant>,
    pub environment_variable_name: Option<String>,
}

/// A value obtained by running something; never yields a default value.
#[derive(Debug)]
pub struct ExecutionVariableConfig {
    pub execution: ExecutionConfigVariant,
    pub argument: Option<ArgumentConfigVariant>,
    pub environment_variable_name: Option<String>,
}

/// A value obtained interactively; never yields a default value.
#[derive(Debug)]
pub struct PromptVariableConfig {
    pub prompt: PromptConfig,
    pub argument: Option<ArgumentConfigVariant>,
    pub environment_variable_name: Option<String>,
}

/// A value that comes only from the command line; the binding is mandatory.
#[derive(Debug)]
pub struct ArgumentVariableConfig {
    pub argument: ArgumentConfigVariant,
}

/// A variable visible to a command; each variant eventually produces exactly
/// one resolved value through the external evaluation engine.
#[derive(Debug)]
pub enum VariableConfig {
    /// A fixed literal without any explicit argument binding.
    ShorthandLiteral(String),
    Literal(LiteralVariableConfig),
    Execution(ExecutionVariableConfig),
    Prompt(PromptVariableConfig),
    Argument(ArgumentVariableConfig),
}

/// Model of an optional argument binding.
pub open spec fn opt_binding_view(o: Option<ArgumentConfigVariant>) -> Option<
    SpecArgumentBinding,
> {
    match o {
        Some(b) => Some(b@),
        None => None,
    }
}

/// Model of a variable definition.
pub enum SpecVariable {
    ShorthandLiteral(Seq<char>),
    Literal {
        value: Seq<char>,
        argument: Option<SpecArgumentBinding>,
        environment_variable_name: Option<Seq<char>>,
    },
    Execution {
        execution: SpecExecution,
        argument: Option<SpecArgumentBinding>,
        environment_variable_name: Option<Seq<char>>,
    },
    Prompt {
        message: Seq<char>,
        options: Seq<Seq<char>>,
        argument: Option<SpecArgumentBinding>,
        environment_variable_name: Option<Seq<char>>,
    },
    Argument {
        argument: SpecArgumentBinding,
    },
}

impl View for VariableConfig {
    type V = SpecVariable;

    open spec fn view(&self) -> SpecVariable {
        match self {
            VariableConfig::ShorthandLiteral(value) => SpecVariable::ShorthandLiteral(value@),
            VariableConfig::Literal(literal) => (SpecVariable::Literal {
                value: literal.value@,
                argument: opt_binding_view(literal.argument),
                environment_variable_name: opt_str_view(literal.environment_variable_name),
            }),
            VariableConfig::Execution(exec) => (SpecVariable::Execution {
                execution: exec.execution@,
                argument: opt_binding_view(exec.argument),
                environment_variable_name: opt_str_view(exec.environment_variable_name),
            }),
            VariableConfig::Prompt(prompt) => (SpecVariable::Prompt {
                message: prompt.prompt.message@,
                options: str_vec_view(prompt.prompt.options),
                argument: opt_binding_view(prompt.argument),
                environment_variable_name: opt_str_view(prompt.environment_variable_name),
            }),
            VariableConfig::Argument(argument) => (SpecVariable::Argument {
                argument: argument.argument@,
            }),
        }
    }
}

/// Copies an optional argument binding.
fn clone_opt_binding(o: &Option<ArgumentConfigVariant>) -> (r: Option<ArgumentConfigVariant>)
    ensures
        opt_binding_view(r) == opt_binding_view(*o),
{
    match o {
        Some(b) => Some(b.clone()),
        None => None,
    }
}

/// Copies a list of strings.
fn clone_string_vec(v: &Vec<String>) -> (r: Vec<String>)
    ensures
        str_vec_view(r) == str_vec_view(*v),
{
    let mut out: Vec<String> = Vec::new();
    let n = v.len();
    let mut i: usize = 0;
    while i < n
        invariant
            n == v@.len(),
            0 <= i <= n,
            out@.len() == i,
            forall|j: int| 0 <= j < i ==> out@[j]@ == v@[j]@,
        decreases n - i,
    {
        out.push(v[i].clone());
        i = i + 1;
    }
    proof {
        assert(str_vec_view(out) =~= str_vec_view(*v));
    }
    out
}

impl Clone for VariableConfig {
    fn clone(&self) -> (r: Self)
        ensures
            r@ == self@,
    {
        match self {
            VariableConfig::ShorthandLiteral(value) => VariableConfig::ShorthandLiteral(
                value.clone(),
            ),
            VariableConfig::Literal(literal) => VariableConfig::Literal(
                LiteralVariableConfig {
                    value: literal.value.clone(),
                    argument: clone_opt_binding(&literal.argument),
                    environment_variable_name: clone_opt_string(
                        &literal.environment_variable_name,
                    ),
                },
            ),
            VariableConfig::Execution(exec) => VariableConfig::Execution(
                ExecutionVariableConfig {
                    execution: exec.execution.clone(),
                    argument: clone_opt_binding(&exec.argument),
                    environment_variable_name: clone_opt_string(&exec.environment_variable_name),
                },
            ),
            VariableConfig::Prompt(prompt) => VariableConfig::Prompt(
                PromptVariableConfig {
                    prompt: PromptConfig {
                        message: prompt.prompt.message.clone(),
                        options: clone_string_vec(&prompt.prompt.options),
                    },
                    argument: clone_opt_binding(&prompt.argument),
                    environment_variable_name: clone_opt_string(&prompt.environment_variable_name),
                },
            ),
            VariableConfig::Argument(argument) => VariableConfig::Argument(
                ArgumentVariableConfig { argument: argument.argument.clone() },
            ),
        }
    }
}

// ---------------------------------------------------------------------------
// Options
// ---------------------------------------------------------------------------

/// Global switches controlling compiler behavior. Only `auto_args` matters
/// to this core; the print toggles are display concerns of the caller.
#[derive(Clone, Copy, PartialEq, Eq, Structural, Debug)]
pub struct Options {
    pub print_commands: bool,
    pub print_variables: bool,
    pub auto_args: bool,
}

impl Default for Options {
    /// All switches off.
    fn default() -> (r: Self)
        ensures
            r == (Options { print_commands: false, print_variables: false, auto_args: false }),
    {
        Options { print_commands: false, print_variables: false, auto_args: false }
    }
}

// ---------------------------------------------------------------------------
// Association lists
// ---------------------------------------------------------------------------

/// First value bound to `key`, scanning left to right.
pub open spec fn assoc_lookup<V>(entries: Seq<(Seq<char>, V)>, key: Seq<char>) -> Option<V>
    decreases entries.len(),
{
    if entries.len() == 0 {
        None
    } else if entries[0].0 == key {
        Some(entries[0].1)
    } else {
        assoc_lookup(entries.drop_first(), key)
    }
}

/// Whether some entry binds `key`.
pub open spec fn assoc_has_key<V>(entries: Seq<(Seq<char>, V)>, key: Seq<char>) -> bool {
    assoc_lookup(entries, key) is Some
}

/// Binds `key` to `value`: replaces the first entry for `key` in place, or
/// appends a new entry when `key` is absent.
pub open spec fn assoc_insert<V>(entries: Seq<(Seq<char>, V)>, key: Seq<char>, value: V) -> Seq<
    (Seq<char>, V),
>
    decreases entries.len(),
{
    if entries.len() == 0 {
        seq![(key, value)]
    } else if entries[0].0 == key {
        seq![(key, value)] + entries.drop_first()
    } else {
        seq![entries[0]] + assoc_insert(entries.drop_first(), key, value)
    }
}

/// Overlays `child` on `parent`: every child entry is inserted, in order, so
/// a child entry fully replaces a parent entry of the same key.
pub open spec fn assoc_merge<V>(
    parent: Seq<(Seq<char>, V)>,
    child: Seq<(Seq<char>, V)>,
) -> Seq<(Seq<char>, V)>
    decreases child.len(),
{
    if child.len() == 0 {
        parent
    } else {
        assoc_insert(assoc_merge(parent, child.drop_last()), child.last().0, child.last().1)
    }
}

/// The keys of the entries, in order.
pub open spec fn assoc_keys<V>(entries: Seq<(Seq<char>, V)>) -> Seq<Seq<char>> {
    entries.map_values(|e: (Seq<char>, V)| e.0)
}

/// A lookup skips any prefix that does not bind the key.
pub proof fn lemma_assoc_lookup_past_prefix<V>(
    entries: Seq<(Seq<char>, V)>,
    key: Seq<char>,
    i: int,
)
    requires
        0 <= i <= entries.len(),
        forall|j: int| 0 <= j < i ==> (#[trigger] entries[j]).0 != key,
    ensures
        assoc_lookup(entries, key) == assoc_lookup(entries.skip(i), key),
    decreases i,
{
    if i > 0 {
        lemma_assoc_lookup_past_prefix(entries.drop_first(), key, i - 1);
        assert(entries.drop_first().skip(i - 1) =~= entries.skip(i));
    } else {
        assert(entries.skip(0) =~= entries);
    }
}

/// Inserting a key bound at position `i`, with no earlier entry for it,
/// replaces that entry in place.
pub proof fn lemma_assoc_insert_found<V>(
    entries: Seq<(Seq<char>, V)>,
    key: Seq<char>,
    value: V,
    i: int,
)
    requires
        0 <= i < entries.len(),
        entries[i].0 == key,
        forall|j: int| 0 <= j < i ==> (#[trigger] entries[j]).0 != key,
    ensures
        assoc_insert(entries, key, value) == entries.update(i, (key, value)),
    decreases i,
{
    if i == 0 {
        assert(assoc_insert(entries, key, value) =~= entries.update(0, (key, value)));
    } else {
        lemma_assoc_insert_found(entries.drop_first(), key, value, i - 1);
        assert(seq![entries[0]] + entries.drop_first().update(i - 1, (key, value))
            =~= entries.update(i, (key, value)));
    }
}

/// Inserting a key no entry binds appends the new entry.
pub proof fn lemma_assoc_insert_missing<V>(entries: Seq<(Seq<char>, V)>, key: Seq<char>, value: V)
    requires
        forall|j: int| 0 <= j < entries.len() ==> (#[trigger] entries[j]).0 != key,
    ensures
        assoc_insert(entries, key, value) == entries.push((key, value)),
    decreases entries.len(),
{
    if entries.len() == 0 {
        assert(assoc_insert(entries, key, value) =~= entries.push((key, value)));
    } else {
        lemma_assoc_insert_missing(entries.drop_first(), key, value);
        assert(seq![entries[0]] + entries.drop_first().push((key, value))
            =~= entries.push((key, value)));
    }
}

/// Whether no key occurs twice; maps built through `insert` alone have
/// this shape.
pub open spec fn assoc_distinct<V>(entries: Seq<(Seq<char>, V)>) -> bool {
    forall|i: int, j: int| 0 <= i < j < entries.len() ==> (#[trigger] entries[i]).0 != (
    #[trigger] entries[j]).0
}

/// What a lookup finds after an insert: the inserted value under its key,
/// anything else untouched.
pub proof fn lemma_assoc_insert_lookup<V>(
    entries: Seq<(Seq<char>, V)>,
    key: Seq<char>,
    value: V,
    sought: Seq<char>,
)
    ensures
        assoc_lookup(assoc_insert(entries, key, value), sought) == if sought == key {
            Some(value)
        } else {
            assoc_lookup(entries, sought)
        },
    decreases entries.len(),
{
    let inserted = assoc_insert(entries, key, value);
    if entries.len() == 0 {
        assert(inserted =~= seq![(key, value)]);
        assert(inserted.len() == 1);
        assert(inserted[0] == (key, value));
        assert(inserted.drop_first() =~= Seq::<(Seq<char>, V)>::empty());
        if sought == key {
            assert(assoc_lookup(inserted, sought) == Some(value));
        } else {
            assert(assoc_lookup(inserted, sought) == assoc_lookup(entries, sought));
        }
    } else if entries[0].0 == key {
        assert(inserted.len() == entries.len());
        assert(inserted[0] == (key, value));
        assert(inserted.drop_first() =~= entries.drop_first());
        if sought == key {
            assert(assoc_lookup(inserted, sought) == Some(value));
        } else {
            assert(assoc_lookup(inserted, sought) == assoc_lookup(entries.drop_first(), sought));
            assert(assoc_lookup(entries, sought) == assoc_lookup(entries.drop_first(), sought));
        }
    } else {
        lemma_assoc_insert_lookup(entries.drop_first(), key, value, sought);
        assert(inserted.len() == 1 + assoc_insert(entries.drop_first(), key, value).len());
        assert(inserted[0] == entries[0]);
        assert(inserted.drop_first() =~= assoc_insert(entries.drop_first(), key, value));
        if sought == key {
            assert(assoc_lookup(inserted, sought) == Some(value));
        } else if entries[0].0 == sought {
            assert(assoc_lookup(inserted, sought) == Some(entries[0].1));
            assert(assoc_lookup(entries, sought) == Some(entries[0].1));
        } else {
            assert(assoc_lookup(inserted, sought) == assoc_lookup(entries.drop_first(), sought));
            assert(assoc_lookup(entries, sought) == assoc_lookup(entries.drop_first(), sought));
        }
    }
}

/// What a lookup finds after appending one entry: the old binding first,
/// the appended entry only for a previously unbound key.
pub proof fn lemma_assoc_lookup_push<V>(
    entries: Seq<(Seq<char>, V)>,
    entry: (Seq<char>, V),
    sought: Seq<char>,
)
    ensures
        assoc_lookup(entries.push(entry), sought) == match assoc_lookup(entries, sought) {
            Some(v) => Some(v),
            None => if entry.0 == sought {
                Some(entry.1)
            } else {
                None
            },
        },
    decreases entries.len(),
{
    let appended = entries.push(entry);
    assert(appended.len() == entries.len() + 1);
    if entries.len() == 0 {
        assert(appended[0] == entry);
        assert(appended.drop_first() =~= Seq::<(Seq<char>, V)>::empty());
        if entry.0 == sought {
            assert(assoc_lookup(appended, sought) == Some(entry.1));
        } else {
            assert(assoc_lookup(appended, sought) == assoc_lookup(appended.drop_first(), sought));
            assert(assoc_lookup(appended.drop_first(), sought) is None);
        }
    } else {
        lemma_assoc_lookup_push(entries.drop_first(), entry, sought);
        assert(appended[0] == entries[0]);
        assert(appended.drop_first() =~= entries.drop_first().push(entry));
        if entries[0].0 == sought {
            assert(assoc_lookup(appended, sought) == Some(entries[0].1));
            assert(assoc_lookup(entries, sought) == Some(entries[0].1));
        } else {
            assert(assoc_lookup(appended, sought) == assoc_lookup(
                entries.drop_first().push(entry),
                sought,
            ));
            assert(assoc_lookup(entries, sought) == assoc_lookup(entries.drop_first(), sought));
        }
    }
}

/// In a duplicate-free map whose last entry binds the key, the lookup
/// finds exactly that entry.
pub proof fn lemma_assoc_lookup_last<V>(entries: Seq<(Seq<char>, V)>, key: Seq<char>)
    requires
        assoc_distinct(entries),
        entries.len() > 0,
        entries.last().0 == key,
    ensures
        assoc_lookup(entries, key) == Some(entries.last().1),
    decreases entries.len(),
{
    if entries.len() > 1 {
        assert(entries[0].0 != key);
        lemma_assoc_lookup_last(entries.drop_first(), key);
        assert(entries.drop_first().last() == entries.last());
    }
}

/// A key the last entry does not bind looks up the same without it.
pub proof fn lemma_assoc_lookup_drop_last<V>(entries: Seq<(Seq<char>, V)>, sought: Seq<char>)
    requires
        entries.len() > 0,
        entries.last().0 != sought,
    ensures
        assoc_lookup(entries, sought) == assoc_lookup(entries.drop_last(), sought),
    decreases entries.len(),
{
    if entries.len() == 1 {
        assert(entries[0].0 != sought);
        assert(entries.drop_first() =~= Seq::<(Seq<char>, V)>::empty());
        assert(entries.drop_last() =~= Seq::<(Seq<char>, V)>::empty());
    } else {
        lemma_assoc_lookup_drop_last(entries.drop_first(), sought);
        assert(entries.drop_first().last() == entries.last());
        assert(entries.drop_first().drop_last() =~= entries.drop_last().drop_first());
        assert(entries.drop_last()[0] == entries[0]);
    }
}

/// Shadowing: in a merged scope, a child entry fully replaces a parent
/// entry of the same key, and parent entries answer only keys the child
/// does not bind. The child map must be duplicate-free, as any map built
/// through `insert` is.
pub proof fn lemma_assoc_merge_lookup<V>(
    parent: Seq<(Seq<char>, V)>,
    child: Seq<(Seq<char>, V)>,
    sought: Seq<char>,
)
    requires
        assoc_distinct(child),
    ensures
        assoc_lookup(assoc_merge(parent, child), sought) == match assoc_lookup(child, sought) {
            Some(v) => Some(v),
            None => assoc_lookup(parent, sought),
        },
    decreases child.len(),
{
    if child.len() > 0 {
        let shorter = child.drop_last();
        assert(assoc_distinct(shorter));
        lemma_assoc_merge_lookup(parent, shorter, sought);
        lemma_assoc_insert_lookup(
            assoc_merge(parent, shorter),
            child.last().0,
            child.last().1,
            sought,
        );
        if sought == child.last().0 {
            lemma_assoc_lookup_last(child, sought);
        } else {
            lemma_assoc_lookup_drop_last(child, sought);
        }
    }
}

/// The keys of a merged scope are exactly the union of both maps' keys.
pub proof fn lemma_assoc_merge_has_key<V>(
    parent: Seq<(Seq<char>, V)>,
    child: Seq<(Seq<char>, V)>,
    sought: Seq<char>,
)
    ensures
        assoc_has_key(assoc_merge(parent, child), sought) == (assoc_has_key(parent, sought)
            || assoc_has_key(child, sought)),
    decreases child.len(),
{
    if child.len() > 0 {
        let shorter = child.drop_last();
        lemma_assoc_merge_has_key(parent, shorter, sought);
        lemma_assoc_insert_lookup(
            assoc_merge(parent, shorter),
            child.last().0,
            child.last().1,
            sought,
        );
        assert(shorter.push(child.last()) =~= child);
        lemma_assoc_lookup_push(shorter, child.last(), sought);
    }
}

// ---------------------------------------------------------------------------
// Variable maps
// ---------------------------------------------------------------------------

/// Variables by key; insertion order is kept, keys are unique when the map
/// is built through [`Self::insert`].
#[derive(Debug)]
pub struct VariableConfigMap {
    pub entries: Vec<(String, VariableConfig)>,
}

impl View for VariableConfigMap {
    type V = Seq<(Seq<char>, SpecVariable)>;

    open spec fn view(&self) -> Seq<(Seq<char>, SpecVariable)> {
        Seq::new(self.entries@.len(), |i: int| (self.entries@[i].0@, self.entries@[i].1@))
    }
}

impl VariableConfigMap {
    /// An empty map.
    pub fn new() -> (r: Self)
        ensures
            r@ == Seq::<(Seq<char>, SpecVariable)>::empty(),
    {
        let r = VariableConfigMap { entries: Vec::new() };
        proof {
            assert(r@ =~= Seq::<(Seq<char>, SpecVariable)>::empty());
        }
        r
    }

    /// Number of entries.
    pub fn len(&self) -> (n: usize)
        ensures
            n == self@.len(),
    {
        self.entries.len()
    }

    /// Binds `key` to `value`, replacing any existing entry for `key` in
    /// place and appending otherwise.
    pub fn insert(&mut self, key: String, value: VariableConfig)
        ensures
            final(self)@ == assoc_insert(old(self)@, key@, value@),
    {
        let n = self.entries.len();
        let mut i: usize = 0;
        while i < n
            invariant
                n == self.entries@.len(),
                0 <= i <= n,
                *self == *old(self),
                forall|j: int| 0 <= j < i ==> (#[trigger] self@[j]).0 != key@,
            decreases n - i,
        {
            if self.entries[i].0 == key {
                proof {
                    lemma_assoc_insert_found(self@, key@, value@, i as int);
                }
                let ghost before = self@;
                self.entries[i] = (key, value);
                proof {
                    assert(self@ =~= before.update(i as int, (key@, value@)));
                }
                return ;
            }
            i = i + 1;
        }
        proof {
            lemma_assoc_insert_missing(self@, key@, value@);
        }
        let ghost before = self@;
        self.entries.push((key, value));
        proof {
            assert(self@ =~= before.push((key@, value@)));
        }
    }

    /// First definition bound to `key`, if any.
    pub fn get<'a>(&'a self, key: &String) -> (r: Option<&'a VariableConfig>)
        ensures
            match assoc_lookup(self@, key@) {
                Some(v) => r matches Some(found) && found@ == v,
                None => r is None,
            },
    {
        let n = self.entries.len();
        let mut i: usize = 0;
        while i < n
            invariant
                n == self.entries@.len(),
                forall|j: int| 0 <= j < i ==> (#[trigger] self@[j]).0 != key@,
            decreases n - i,
        {
            if self.entries[i].0 == *key {
                proof {
                    lemma_assoc_lookup_past_prefix(self@, key@, i as int);
                    assert(self@.skip(i as int)[0] == self@[i as int]);
                }
                return Some(&self.entries[i].1);
            }
            i = i + 1;
        }
        proof {
            lemma_assoc_lookup_past_prefix(self@, key@, n as int);
            assert(self@.skip(n as int) =~= Seq::<(Seq<char>, SpecVariable)>::empty());
        }
        None
    }

    /// Whether some entry binds `key`.
    pub fn contains_key(&self, key: &str) -> (r: bool)
        ensures
            r == assoc_has_key(self@, key@),
    {
        let owned = String::from_str(key);
        self.get(&owned).is_some()
    }

    /// Overlays `other` on this map: every entry of `other` is inserted, in
    /// order, so its definitions replace same-key definitions of this map.
    pub fn extend(&mut self, other: VariableConfigMap)
        ensures
            final(self)@ == assoc_merge(old(self)@, other@),
    {
        let ghost others: Seq<(Seq<char>, SpecVariable)> = other@;
        let mut rest = other.entries;
        let n = rest.len();
        let mut i: usize = 0;
        proof {
            assert(others.take(0) =~= Seq::<(Seq<char>, SpecVariable)>::empty());
        }
        while rest.len() > 0
            invariant
                others.len() == n,
                i + rest@.len() == others.len(),
                self@ == assoc_merge(old(self)@, others.take(i as int)),
                forall|j: int| 0 <= j < rest@.len() ==> ((#[trigger] rest@[j]).0@, rest@[j].1@)
                    == others[j + i],
            decreases rest@.len(),
        {
            let (key, value) = rest.remove(0);
            self.insert(key, value);
            i = i + 1;
            proof {
                assert(others.take(i as int).drop_last() =~= others.take(i as int - 1));
                assert(others.take(i as int).last() == others[i as int - 1]);
            }
        }
        proof {
            assert(others.take(others.len() as int) =~= others);
        }
    }
}

impl Default for VariableConfigMap {
    /// An empty map.
    fn default() -> (r: Self)
        ensures
            r@ == Seq::<(Seq<char>, SpecVariable)>::empty(),
    {
        VariableConfigMap::new()
    }
}

// ---------------------------------------------------------------------------
// Commands
// ---------------------------------------------------------------------------

/// One command of the declarative tree: its own variables, nested
/// subcommands of the same shape, and an optional action. A command without
/// an action is a pure grouping node and compiles to a grammar node that
/// requires a subcommand.
#[derive(Debug)]
pub struct CommandConfig {
    /// Optional override of the externally visible identifier; the map key
    /// is the identifier when absent.
    pub name: Option<String>,
    /// Platform predicate; the command and its whole subtree are dropped
    /// from the grammar when it excludes the running platform.
    pub platform: Option<OneOrManyPlatforms>,
    pub description: Option<String>,
    /// Excluded from help listings but still reachable.
    pub hidden: bool,
    pub variables: VariableConfigMap,
    pub commands: CommandConfigMap,
    pub action: Option<ActionConfig>,
}

/// Commands by key; insertion order is kept, keys are unique when the map
/// is built through [`Self::insert`].
#[derive(Debug)]
pub struct CommandConfigMap {
    pub entries: Vec<(String, CommandConfig)>,
}

/// Model of a command definition.
pub struct SpecCommand {
    pub name: Option<Seq<char>>,
    pub platform: Option<SpecPlatformFilter>,
    pub description: Option<Seq<char>>,
    pub hidden: bool,
    pub variables: Seq<(Seq<char>, SpecVariable)>,
    pub commands: Seq<(Seq<char>, SpecCommand)>,
    pub action: Option<SpecAction>,
}

/// Model of a platform predicate, if one is given.
pub open spec fn opt_platform_view(o: Option<OneOrManyPlatforms>) -> Option<SpecPlatformFilter> {
    match o {
        Some(p) => Some(p@),
        None => None,
    }
}

/// Model of an action, if one is given.
pub open spec fn opt_action_view(o: Option<ActionConfig>) -> Option<SpecAction> {
    match o {
        Some(a) => Some(a@),
        None => None,
    }
}

/// Model of a command definition.
pub open spec fn spec_command_view(c: CommandConfig) -> SpecCommand
    decreases c,
{
    SpecCommand {
        name: opt_str_view(c.name),
        platform: opt_platform_view(c.platform),
        description: opt_str_view(c.description),
        hidden: c.hidden,
        variables: c.variables@,
        commands: spec_command_entries_view(c.commands.entries@),
        action: opt_action_view(c.action),
    }
}

/// Model of a command map's entries, in order.
pub open spec fn spec_command_entries_view(entries: Seq<(String, CommandConfig)>) -> Seq<
    (Seq<char>, SpecCommand),
>
    decreases entries,
{
    if entries.len() == 0 {
        Seq::empty()
    } else {
        spec_command_entries_view(entries.drop_last()).push(
            (entries.last().0@, spec_command_view(entries.last().1)),
        )
    }
}

/// The model of a command map reads off entry by entry.
pub proof fn lemma_command_entries_view(entries: Seq<(String, CommandConfig)>)
    ensures
        spec_command_entries_view(entries).len() == entries.len(),
        forall|i: int| 0 <= i < entries.len() ==> #[trigger] spec_command_entries_view(entries)[i]
            == (entries[i].0@, spec_command_view(entries[i].1)),
    decreases entries.len(),
{
    if entries.len() > 0 {
        lemma_command_entries_view(entries.drop_last());
    }
}

impl View for CommandConfig {
    type V = SpecCommand;

    open spec fn view(&self) -> SpecCommand {
        spec_command_view(*self)
    }
}

impl View for CommandConfigMap {
    type V = Seq<(Seq<char>, SpecCommand)>;

    open spec fn view(&self) -> Seq<(Seq<char>, SpecCommand)> {
        spec_command_entries_view(self.entries@)
    }
}

impl CommandConfigMap {
    /// An empty map.
    pub fn new() -> (r: Self)
        ensures
            r@ == Seq::<(Seq<char>, SpecCommand)>::empty(),
    {
        CommandConfigMap { entries: Vec::new() }
    }

    /// Number of entries.
    pub fn len(&self) -> (n: usize)
        ensures
            n == self@.len(),
    {
        proof {
            lemma_command_entries_view(self.entries@);
        }
        self.entries.len()
    }

    /// Binds `key` to `command`, replacing any existing entry for `key` in
    /// place and appending otherwise.
    pub fn insert(&mut self, key: String, command: CommandConfig)
        ensures
            final(self)@ == assoc_insert(old(self)@, key@, command@),
    {
        proof {
            lemma_command_entries_view(self.entries@);
        }
        let n = self.entries.len();
        let mut i: usize = 0;
        while i < n
            invariant
                n == self.entries@.len(),
                0 <= i <= n,
                *self == *old(self),
                forall|j: int| 0 <= j < i ==> (#[trigger] self.entries@[j]).0@ != key@,
            decreases n - i,
        {
            if self.entries[i].0 == key {
                proof {
                    lemma_command_entries_view(self.entries@);
                    assert forall|j: int| 0 <= j < i implies (#[trigger] self@[j]).0 != key@ by {
                        assert(self@[j] == (
                            self.entries@[j].0@,
                            spec_command_view(self.entries@[j].1),
                        ));
                    }
                    lemma_assoc_insert_found(self@, key@, command@, i as int);
                }
                let ghost before = self.entries@;
                self.entries[i] = (key, command);
                proof {
                    lemma_command_entries_view(before);
                    lemma_command_entries_view(self.entries@);
                    assert(self@ =~= spec_command_entries_view(before).update(
                        i as int,
                        (key@, command@),
                    ));
                }
                return ;
            }
            i = i + 1;
        }
        proof {
            lemma_command_entries_view(self.entries@);
            assert forall|j: int| 0 <= j < self@.len() implies (#[trigger] self@[j]).0 != key@ by {
                assert(self@[j] == (self.entries@[j].0@, spec_command_view(self.entries@[j].1)));
            }
            lemma_assoc_insert_missing(self@, key@, command@);
        }
        let ghost before = self.entries@;
        self.entries.push((key, command));
        proof {
            lemma_command_entries_view(before);
            lemma_command_entries_view(self.entries@);
            assert(self@ =~= spec_command_entries_view(before).push((key@, command@)));
        }
    }
}

impl Default for CommandConfigMap {
    /// An empty map.
    fn default() -> (r: Self)
        ensures
            r@ == Seq::<(Seq<char>, SpecCommand)>::empty(),
    {
        CommandConfigMap::new()
    }
}

// ---------------------------------------------------------------------------
// The configuration root
// ---------------------------------------------------------------------------

/// The configuration tree a document loader produces; read-only afterwards.
/// Imports are resolved by the loader and carried here only for reference.
#[derive(Debug)]
pub struct Config {
    pub imports: Vec<String>,
    pub description: Option<String>,
    pub variables: VariableConfigMap,
    pub commands: CommandConfigMap,
    pub options: Options,
}

/// Model of the configuration root.
pub struct SpecConfig {
    pub imports: Seq<Seq<char>>,
    pub description: Option<Seq<char>>,
    pub variables: Seq<(Seq<char>, SpecVariable)>,
    pub commands: Seq<(Seq<char>, SpecCommand)>,
    pub options: Options,
}

impl View for Config {
    type V = SpecConfig;

    open spec fn view(&self) -> SpecConfig {
        SpecConfig {
            imports: str_vec_view(self.imports),
            description: opt_str_view(self.description),
            variables: self.variables@,
            commands: self.commands@,
            options: self.options,
        }
    }
}

impl Clone for VariableConfigMap {
    fn clone(&self) -> (r: Self)
        ensures
            r@ == self@,
    {
        let mut entries: Vec<(String, VariableConfig)> = Vec::new();
        let n = self.entries.len();
        let mut i: usize = 0;
        while i < n
            invariant
                n == self.entries@.len(),
                0 <= i <= n,
                entries@.len() == i,
                forall|j: int| 0 <= j < i ==> ((#[trigger] entries@[j]).0@, entries@[j].1@)
                    == self@[j],
            decreases n - i,
        {
            entries.push((self.entries[i].0.clone(), self.entries[i].1.clone()));
            i = i + 1;
        }
        let r = VariableConfigMap { entries };
        proof {
            assert(r@ =~= self@);
        }
        r
    }
}

} // verus!
