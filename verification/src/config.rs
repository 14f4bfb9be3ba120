//! The values a run is configured with.

use crate::robots::USER_AGENT;
use vstd::prelude::*;
use vstd::string::StringExecFns;

verus! {

/// The settings of a run.
#[derive(Debug)]
pub struct Config {
    /// The absolute URL at which crawling starts.
    pub origin_url: String,
    /// How many levels beyond the origin are visited at most.
    pub depth: u64,
    /// The stem of the store's file name.
    pub database_name: String,
    /// The name under which robots files are read, where it is not the
    /// crawler's own.
    pub user_agent: Option<String>,
}

impl Config {
    /// The name under which robots files are read.
    pub open spec fn agent_spec(&self) -> Seq<char> {
        match self.user_agent {
            Some(a) => a@,
            None => USER_AGENT@,
        }
    }

    /// The name under which robots files are read: the configured one, or
    /// the crawler's own where none is configured.
    pub fn agent(&self) -> (r: String)
        ensures
            r@ == self.agent_spec(),
    {
        match &self.user_agent {
            Some(a) => a.clone(),
            None => String::from_str(USER_AGENT),
        }
    }
}

} // verus!
