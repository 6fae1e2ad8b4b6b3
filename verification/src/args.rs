//! Looking argument values up in a parsed invocation.
//!
//! The [`ArgumentResolver`] capability is the only view the rest of the
//! system has of the parsing engine's match result: the compiler and the
//! resolver never touch the engine's native types. [`ArgumentLookup`] is the
//! verified implementation over the modeled invocation;
//! [`ClapArgumentResolver`] adapts the real engine's match result.

use vstd::prelude::*;

use clap::ArgMatches;

use crate::config::assoc_lookup;

verus! {

/// Reserved identifier of the implicit trailing argument an alias command
/// gains; it captures every remaining token verbatim. A user-defined
/// variable of the same key would be shadowed by it in the grammar.
pub const ALIAS_ARGS_NAME: &'static str = "ARGS";

/// Capable of resolving command-line argument values.
pub trait ArgumentResolver {
    /// For a given `key`, this will return `Some(String)` with the argument
    /// value matching the key, otherwise `None` is returned.
    fn get(&self, key: &String) -> Option<String>;

    /// For a given `key`, this will return `Some(Vec<String>)` with the
    /// argument values matching the key, otherwise `None` is returned.
    fn get_many(&self, key: &String) -> Option<Vec<String>>;
}

// ---------------------------------------------------------------------------
// The parsing engine's own match result
// ---------------------------------------------------------------------------

/// The parsing engine's match result; opaque to this core, which only
/// carries values of it through.
#[verifier::external_type_specification]
#[verifier::external_body]
pub struct ExArgMatches(ArgMatches);

/// Adapts one matched level of the parsing engine's result to
/// [`ArgumentResolver`]. [`ArgumentLookup`] is the verified counterpart
/// over the modeled invocation.
pub struct ClapArgumentResolver {
    arg_matches: ArgMatches,
}

impl ClapArgumentResolver {
    /// Captures one matched level of a parsed invocation.
    ///
    /// Relies on `ArgMatches::clone`: a copy of the given match result.
    #[verifier::external_body]
    pub fn from_arg_matches(arg_matches: &ArgMatches) -> ClapArgumentResolver {
        ClapArgumentResolver { arg_matches: arg_matches.clone() }
    }

    /// Relies on `ArgMatches::try_get_one`: the single string value bound
    /// to the id, nothing when the argument is unset; an id the match
    /// result does not know yields nothing as well.
    #[verifier::external_body]
    fn lookup_one(&self, key: &String) -> Option<String> {
        match self.arg_matches.try_get_one::<String>(key) {
            Ok(Some(found_value)) => Some(found_value.clone()),
            Ok(None) => None,
            Err(_) => None,
        }
    }

    /// Relies on `ArgMatches::try_get_many`: all string values bound to
    /// the id, in the order given, nothing when the argument is unset; an
    /// id the match result does not know yields nothing as well.
    #[verifier::external_body]
    fn lookup_many(&self, key: &String) -> Option<Vec<String>> {
        match self.arg_matches.try_get_many::<String>(key) {
            Ok(Some(found_values)) => Some(found_values.cloned().collect()),
            Ok(None) => None,
            Err(_) => None,
        }
    }
}

impl ArgumentResolver for ClapArgumentResolver {
    fn get(&self, key: &String) -> Option<String> {
        self.lookup_one(key)
    }

    fn get_many(&self, key: &String) -> Option<Vec<String>> {
        self.lookup_many(key)
    }
}

// ---------------------------------------------------------------------------
// The modeled invocation
// ---------------------------------------------------------------------------

/// The values bound to the arguments of one matched grammar node, by
/// argument id. A key that is present with an empty list is distinct from
/// an absent key.
#[derive(Debug, PartialEq)]
pub struct ArgumentLookup {
    pub entries: Vec<(String, Vec<String>)>,
}

/// Model of one value list.
pub open spec fn str_values_view(v: Vec<String>) -> Seq<Seq<char>> {
    Seq::new(v@.len(), |i: int| v@[i]@)
}

impl View for ArgumentLookup {
    type V = Seq<(Seq<char>, Seq<Seq<char>>)>;

    open spec fn view(&self) -> Seq<(Seq<char>, Seq<Seq<char>>)> {
        Seq::new(self.entries@.len(), |i: int| (self.entries@[i].0@, str_values_view(
            self.entries@[i].1,
        )))
    }
}

/// The single value [`ArgumentLookup::get`] returns: the first value bound
/// to the key, if the key is bound to at least one value.
pub open spec fn spec_lookup_one(
    entries: Seq<(Seq<char>, Seq<Seq<char>>)>,
    key: Seq<char>,
) -> Option<Seq<char>> {
    match assoc_lookup(entries, key) {
        Some(values) => if values.len() > 0 {
            Some(values[0])
        } else {
            None
        },
        None => None,
    }
}

impl ArgumentLookup {
    /// An empty scope.
    pub fn new() -> (r: Self)
        ensures
            r@ == Seq::<(Seq<char>, Seq<Seq<char>>)>::empty(),
    {
        let r = ArgumentLookup { entries: Vec::new() };
        proof {
            assert(r@ =~= Seq::<(Seq<char>, Seq<Seq<char>>)>::empty());
        }
        r
    }

    /// Appends the value list of one argument; `key` must not be bound yet
    /// for the scope to stay unambiguous, though lookups read the first
    /// binding either way.
    pub fn push_entry(&mut self, key: String, values: Vec<String>)
        ensures
            final(self)@ == old(self)@.push((key@, str_values_view(values))),
    {
        let ghost before = self@;
        self.entries.push((key, values));
        proof {
            assert(self@ =~= before.push((key@, str_values_view(values))));
        }
    }

    /// First value list bound to `key`, if any.
    fn lookup<'a>(&'a self, key: &String) -> (r: Option<&'a Vec<String>>)
        ensures
            match assoc_lookup(self@, key@) {
                Some(values) => r matches Some(found) && str_values_view(*found) == values,
                None => r is None,
            },
    {
        let n = self.entries.len();
        let mut i: usize = 0;
        while i < n
            invariant
                n == self.entries@.len(),
                forall|j: int| 0 <= j < i ==> (#[trigger] self@[j]).0 != key@,
            decreases n - i,
        {
            if self.entries[i].0 == *key {
                proof {
                    crate::config::lemma_assoc_lookup_past_prefix(self@, key@, i as int);
                    assert(self@.skip(i as int)[0] == self@[i as int]);
                }
                return Some(&self.entries[i].1);
            }
            i = i + 1;
        }
        proof {
            crate::config::lemma_assoc_lookup_past_prefix(self@, key@, n as int);
            assert(self@.skip(n as int) =~= Seq::<(Seq<char>, Seq<Seq<char>>)>::empty());
        }
        None
    }

    /// The first value bound to `key`: the single value of a singly-bound
    /// argument. Absent keys and empty value lists yield nothing.
    pub fn get_value(&self, key: &String) -> (r: Option<String>)
        ensures
            match spec_lookup_one(self@, key@) {
                Some(value) => r matches Some(found) && found@ == value,
                None => r is None,
            },
    {
        match self.lookup(key) {
            Some(values) => if values.len() > 0 {
                Some(values[0].clone())
            } else {
                None
            },
            None => None,
        }
    }

    /// All values bound to `key`, in order; `Some` with an empty list when
    /// the key is bound to no values, `None` when it is not bound at all.
    pub fn get_values(&self, key: &String) -> (r: Option<Vec<String>>)
        ensures
            match assoc_lookup(self@, key@) {
                Some(values) => r matches Some(found) && str_values_view(found) == values,
                None => r is None,
            },
    {
        match self.lookup(key) {
            Some(values) => {
                let mut out: Vec<String> = Vec::new();
                let n = values.len();
                let mut i: usize = 0;
                while i < n
                    invariant
                        n == values@.len(),
                        0 <= i <= n,
                        out@.len() == i,
                        forall|j: int| 0 <= j < i ==> (#[trigger] out@[j])@ == values@[j]@,
                    decreases n - i,
                {
                    out.push(values[i].clone());
                    i = i + 1;
                }
                proof {
                    assert(str_values_view(out) =~= str_values_view(*values));
                }
                Some(out)
            },
            None => None,
        }
    }
}

impl ArgumentResolver for ArgumentLookup {
    fn get(&self, key: &String) -> Option<String> {
        self.get_value(key)
    }

    fn get_many(&self, key: &String) -> Option<Vec<String>> {
        self.get_values(key)
    }
}

/// One level of the matched path: which child the parsing engine selected,
/// and the values it bound at that level.
#[derive(Debug, PartialEq)]
pub struct InvocationMatch {
    /// The local lookup scope of this level.
    pub arguments: ArgumentLookup,
    /// The matched child, if the invocation descended further.
    pub subcommand: Option<MatchedSubcommand>,
}

/// A matched child node and its own nested match.
#[derive(Debug, PartialEq)]
pub struct MatchedSubcommand {
    /// The externally visible name the engine matched.
    pub name: String,
    pub matches: Box<InvocationMatch>,
}

/// Model of a matched path.
pub struct SpecInvocation {
    pub arguments: Seq<(Seq<char>, Seq<Seq<char>>)>,
    pub subcommand: Option<(Seq<char>, Box<SpecInvocation>)>,
}

/// Model of a matched path.
pub open spec fn spec_invocation_view(m: InvocationMatch) -> SpecInvocation
    decreases m,
{
    SpecInvocation {
        arguments: m.arguments@,
        subcommand: match m.subcommand {
            Some(sub) => Some((sub.name@, Box::new(spec_invocation_view(*sub.matches)))),
            None => None,
        },
    }
}

impl View for InvocationMatch {
    type V = SpecInvocation;

    open spec fn view(&self) -> SpecInvocation {
        spec_invocation_view(*self)
    }
}

} // verus!
