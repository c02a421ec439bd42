use vstd::prelude::*;
use vstd::string::*;

use crate::params::{ExtraArgs, KeyValue, Parameter};

verus! {

/// The command line: what to do.
#[derive(Debug, Clone)]
pub struct Args {
    pub action: Action,
}

#[derive(Debug, Clone)]
pub enum Action {
    /// Compare the responses of the two requests of a profile.
    Run(RunArgs),
    /// Ask for two URLs and print a profile for them.
    Parse,
}

/// The arguments of a comparison run.
#[derive(Debug, Clone)]
pub struct RunArgs {
    /// The name of the profile to run.
    pub profile: String,
    /// Overrides of query parameters.
    pub query: Vec<KeyValue>,
    /// Overrides of headers.
    pub header: Vec<KeyValue>,
    /// Overrides of body fields.
    pub body: Vec<KeyValue>,
    /// The configuration file.
    pub config: Option<String>,
}

/// The pairs of a list of `key=value` overrides.
pub open spec fn key_value_pairs(args: Seq<KeyValue>) -> Seq<(Seq<char>, Seq<char>)> {
    args.map_values(|a: KeyValue| (a.key@, a.value@))
}

impl RunArgs {
    /// The configuration file to read: the one given, else `./zdiff.yml`.
    pub fn config_path(&self) -> (r: String)
        ensures
            r@ == match self.config {
                Some(c) => c@,
                None => "./zdiff.yml"@,
            },
    {
        match &self.config {
            Some(c) => c.clone(),
            None => String::from_str("./zdiff.yml"),
        }
    }

    /// The overrides of this run, by target.
    pub fn extra_args(&self) -> (r: ExtraArgs)
        ensures
            r.headers@ == key_value_pairs(self.header@),
            r.query@ == key_value_pairs(self.query@),
            r.body@ == key_value_pairs(self.body@),
    {
        let r = ExtraArgs {
            headers: Parameter::from_key_values(&self.header),
            query: Parameter::from_key_values(&self.query),
            body: Parameter::from_key_values(&self.body),
        };
        assert(r.headers@ =~= key_value_pairs(self.header@));
        assert(r.query@ =~= key_value_pairs(self.query@));
        assert(r.body@ =~= key_value_pairs(self.body@));
        r
    }
}

} // verus!
