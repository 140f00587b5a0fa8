//! The response evaluation engine: the variable scope, interpolation,
//! assertions and captures.

pub mod assertions;
pub mod capture;
pub mod execution;
pub mod interpolate;

pub use crate::runtime::assertions::AssertionResult;
pub use crate::runtime::execution::ExecutionResult;

use vstd::prelude::*;
use crate::config::Config;
use crate::strmap::StringMap;

verus! {
/// The state of a run: the configuration, the variable scope, and the
/// process environment as it was handed over.
///
/// The scope is the one thing that the requests of a run share: a capture
/// of one request is seen by the requests after it.
#[derive(Debug)]
pub struct ExecutionContext {
    pub config: Config,
    pub variables: StringMap,
    pub environment: StringMap,
}

/// Why a request could not be prepared.
#[derive(Debug, Clone, Copy, PartialEq, Eq, Structural)]
pub enum RuntimeError {
    /// A placeholder could not be scanned.
    MalformedPlaceholder,
}

impl RuntimeError {
    /// The message of the error.
    pub fn message(&self) -> (r: &'static str)
        ensures
            r@ == "Malformed placeholder"@,
    {
        match self {
            RuntimeError::MalformedPlaceholder => "Malformed placeholder",
        }
    }
}

impl ExecutionContext {
    /// The state at the start of a run: the scope holds the variables of the
    /// configuration, and the environment is empty.
    pub fn new(config: Config) -> (r: Self)
        ensures
            r.config == config,
            r.variables@ == config.variables@,
            r.variables.pairs() == config.variables.pairs(),
            r.environment@ == Map::<Seq<char>, Seq<char>>::empty(),
    {
        let variables = config.variables.clone();
        ExecutionContext { config, variables, environment: StringMap::new() }
    }

    /// Hands over the process environment, which is consulted for names
    /// that begin with `$` and for names that the scope does not hold.
    pub fn set_environment(&mut self, environment: StringMap)
        ensures
            final(self).environment == environment,
            final(self).variables == old(self).variables,
            final(self).config == old(self).config,
    {
        self.environment = environment;
    }

    /// Stores `value` under `key` in the scope, over what was stored there.
    pub fn set_variable(&mut self, key: String, value: String)
        ensures
            final(self).variables@ == old(self).variables@.insert(key@, value@),
            final(self).environment == old(self).environment,
            final(self).config == old(self).config,
    {
        self.variables.insert(key, value);
    }

    /// What the scope holds under `key`.
    pub fn get_variable(&self, key: &str) -> (r: Option<&String>)
        ensures
            match r {
                Some(value) => self.variables@.contains_key(key@) && self.variables@[key@]
                    == value@,
                None => !self.variables@.contains_key(key@),
            },
    {
        self.variables.get(key)
    }

    /// Stores each pair in the scope, in order: the overrides given on the
    /// command line, which shadow what the configuration declares.
    pub fn apply_overrides(&mut self, pairs: &Vec<(String, String)>)
        ensures
            final(self).variables@ == overridden(
                old(self).variables@,
                Seq::new(pairs@.len(), |i: int| (pairs@[i].0@, pairs@[i].1@)),
                pairs@.len() as int,
            ),
            final(self).environment == old(self).environment,
            final(self).config == old(self).config,
    {
        let ghost given = Seq::new(pairs@.len(), |i: int| (pairs@[i].0@, pairs@[i].1@));
        let mut i: usize = 0;
        while i < pairs.len()
            invariant
                i <= pairs.len(),
                given == Seq::new(pairs@.len(), |i: int| (pairs@[i].0@, pairs@[i].1@)),
                self.variables@ == overridden(old(self).variables@, given, i as int),
                self.environment == old(self).environment,
                self.config == old(self).config,
            decreases pairs.len() - i,
        {
            self.set_variable(pairs[i].0.clone(), pairs[i].1.clone());
            i += 1;
        }
    }
}

/// A scope after the first `count` of a list of pairs are stored in it, in
/// order.
pub open spec fn overridden(
    scope: Map<Seq<char>, Seq<char>>,
    pairs: Seq<(Seq<char>, Seq<char>)>,
    count: int,
) -> Map<Seq<char>, Seq<char>>
    decreases count,
{
    if count <= 0 {
        scope
    } else {
        overridden(scope, pairs, count - 1).insert(pairs[count - 1].0, pairs[count - 1].1)
    }
}

/// What is stored last under a name is what the scope then holds under it.
pub proof fn lemma_later_write_shadows(
    scope: Map<Seq<char>, Seq<char>>,
    name: Seq<char>,
    earlier: Seq<char>,
    later: Seq<char>,
)
    ensures
        scope.insert(name, earlier).insert(name, later) == scope.insert(name, later),
        scope.insert(name, later)[name] == later,
{
}

} // verus!
