//! The shared data shapes of an analysis run: configuration parameters as
//! fetched from the server, and the suggestions the advisors produce.

use vstd::prelude::*;
use crate::text::{str_eq, view_opt};

verus! {

/// One server configuration parameter with its current value and metadata.
#[derive(Debug, Clone)]
pub struct PgConfigParam {
    pub name: String,
    pub current_value: String,
    pub default_value: Option<String>,
    pub unit: Option<String>,
    pub context: String,
}

/// The mathematical value of one configuration parameter.
#[verifier::ext_equal]
pub struct PgParamV {
    pub name: Seq<char>,
    pub current_value: Seq<char>,
    pub default_value: Option<Seq<char>>,
    pub unit: Option<Seq<char>>,
    pub context: Seq<char>,
}

impl View for PgConfigParam {
    type V = PgParamV;

    open spec fn view(&self) -> PgParamV {
        PgParamV {
            name: self.name@,
            current_value: self.current_value@,
            default_value: view_opt(self.default_value),
            unit: view_opt(self.unit),
            context: self.context@,
        }
    }
}

/// The views of a sequence of parameters.
pub open spec fn params_view(ps: Seq<PgConfigParam>) -> Seq<PgParamV> {
    ps.map_values(|p: PgConfigParam| p@)
}

/// How urgent one suggestion is.
#[derive(Debug, Clone, Copy, PartialEq, Eq, Hash, Structural)]
pub enum SuggestionLevel {
    /// Needs immediate attention.
    Critical,
    /// Should be addressed.
    Important,
    /// Worth doing for better performance.
    Recommended,
    /// Informational, or a best practice.
    Info,
}

impl SuggestionLevel {
    /// The level's name, as reports print it.
    pub fn as_str(&self) -> (r: &'static str)
        ensures
            r@ == match *self {
                SuggestionLevel::Critical => "CRITICAL"@,
                SuggestionLevel::Important => "IMPORTANT"@,
                SuggestionLevel::Recommended => "RECOMMENDED"@,
                SuggestionLevel::Info => "INFO"@,
            },
    {
        match self {
            SuggestionLevel::Critical => "CRITICAL",
            SuggestionLevel::Important => "IMPORTANT",
            SuggestionLevel::Recommended => "RECOMMENDED",
            SuggestionLevel::Info => "INFO",
        }
    }
}

/// One configuration suggestion: the parameter, its current and suggested
/// values, how urgent the change is, and why.
pub struct ConfigSuggestion {
    pub parameter: String,
    pub current_value: String,
    pub suggested_value: String,
    pub level: SuggestionLevel,
    pub rationale: String,
}

/// Which group of settings a suggestion belongs to.
#[derive(Debug, Clone, Copy, PartialEq, Eq, Hash, Structural)]
pub enum ConfigCategory {
    /// Memory allocation parameters.
    Memory,
    /// Concurrency and parallelism.
    Concurrency,
    /// Write-ahead log and checkpoint settings.
    Wal,
    /// Query planner cost model.
    Planner,
    /// Autovacuum settings.
    Autovacuum,
    /// Logging and diagnostics.
    Logging,
    /// Table and index health.
    TableIndex,
}

impl ConfigCategory {
    /// The category's heading, as reports print it.
    pub fn as_str(&self) -> (r: &'static str)
        ensures
            r@ == match *self {
                ConfigCategory::Memory => "Memory Configuration"@,
                ConfigCategory::Concurrency => "Concurrency and Parallelism"@,
                ConfigCategory::Wal => "WAL and Checkpoint Management"@,
                ConfigCategory::Planner => "Query Planner Cost Model"@,
                ConfigCategory::Autovacuum => "Autovacuum Configuration"@,
                ConfigCategory::Logging => "Logging and Diagnostics"@,
                ConfigCategory::TableIndex => "Table and Index Health"@,
            },
    {
        match self {
            ConfigCategory::Memory => "Memory Configuration",
            ConfigCategory::Concurrency => "Concurrency and Parallelism",
            ConfigCategory::Wal => "WAL and Checkpoint Management",
            ConfigCategory::Planner => "Query Planner Cost Model",
            ConfigCategory::Autovacuum => "Autovacuum Configuration",
            ConfigCategory::Logging => "Logging and Diagnostics",
            ConfigCategory::TableIndex => "Table and Index Health",
        }
    }
}

/// The first parameter with this exact name, if any.
pub open spec fn param_find(ps: Seq<PgParamV>, name: Seq<char>) -> Option<PgParamV>
    decreases ps.len(),
{
    if ps.len() == 0 {
        None
    } else if ps[0].name == name {
        Some(ps[0])
    } else {
        param_find(ps.drop_first(), name)
    }
}

/// Looks a parameter up by name.
pub fn get_param<'a>(params: &'a Vec<PgConfigParam>, name: &str) -> (r: Option<&'a PgConfigParam>)
    ensures
        match r {
            Some(p) => param_find(params_view(params@), name@) == Some(p@),
            None => param_find(params_view(params@), name@) is None,
        },
{
    let ghost pv = params_view(params@);
    proof {
        assert(pv.skip(0) =~= pv);
    }
    let mut i: usize = 0;
    while i < params.len()
        invariant
            i <= params.len(),
            pv == params_view(params@),
            param_find(pv.skip(i as int), name@) == param_find(pv, name@),
        decreases params.len() - i,
    {
        proof {
            assert(pv.skip(i as int)[0] == pv[i as int]);
            assert(pv.skip(i as int).drop_first() =~= pv.skip(i as int + 1));
            assert(pv[i as int] == params@[i as int]@);
        }
        if str_eq(params[i].name.as_str(), name) {
            return Some(&params[i]);
        }
        i += 1;
    }
    proof {
        assert(pv.skip(pv.len() as int) =~= Seq::<PgParamV>::empty());
    }
    None
}

/// The current value of a parameter, or `unknown` when it is absent.
pub fn param_value_string(params: &Vec<PgConfigParam>, name: &str) -> (r: String)
    ensures
        r@ == match param_find(params_view(params@), name@) {
            Some(p) => p.current_value,
            None => "unknown"@,
        },
{
    match get_param(params, name) {
        Some(param) => param.current_value.clone(),
        None => "unknown".to_owned(),
    }
}

} // verus!
