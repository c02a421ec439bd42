use vstd::prelude::*;

use crate::diff::{diff_text_styled, line_diff, rendered_hunks, DiffStyle, CONTEXT_LINES};
use crate::params::ExtraArgs;
use crate::request::{MergeError, MergedRequest, RequestProfile};
use crate::response::{NormalizeError, ResponseExt, ResponseProfile};

verus! {

/// A named comparison: two request templates and how their responses are
/// compared.
#[derive(Debug)]
pub struct DiffProfile {
    pub req1: RequestProfile,
    pub req2: RequestProfile,
    /// Without it, the raw bodies are compared.
    pub res: Option<ResponseProfile>,
}

pub type Profile = DiffProfile;

/// One side of a comparison.
#[derive(Debug, Clone, Copy, PartialEq, Eq, Structural)]
pub enum Leg {
    First,
    Second,
}

/// Why a comparison stopped, and on which side.
#[derive(Debug, Clone, Copy, PartialEq, Eq, Structural)]
pub enum CompareError {
    Merge(Leg, MergeError),
    Normalize(Leg, NormalizeError),
}

impl DiffProfile {
    pub fn new(req1: RequestProfile, req2: RequestProfile, res: Option<ResponseProfile>) -> (r: DiffProfile)
        ensures
            r.req1 == req1,
            r.req2 == req2,
            r.res == res,
    {
        DiffProfile { req1, req2, res }
    }

    /// Both requests, each template merged with the same overrides; the
    /// first failure stops it.
    pub fn requests(&self, args: &ExtraArgs) -> (r: Result<(MergedRequest, MergedRequest), CompareError>)
        ensures
            match (self.req1.merged_with(args), self.req2.merged_with(args)) {
                (Err(e), _) => r == Err::<(MergedRequest, MergedRequest), CompareError>(CompareError::Merge(Leg::First, e)),
                (Ok(_), Err(e)) => r == Err::<(MergedRequest, MergedRequest), CompareError>(CompareError::Merge(Leg::Second, e)),
                (Ok(m1), Ok(m2)) => r is Ok && (r->Ok_0).0@ == m1 && (r->Ok_0).1@ == m2,
            },
    {
        let m1 = match self.req1.merge(args) {
            Ok(m) => m,
            Err(e) => {
                return Err(CompareError::Merge(Leg::First, e));
            },
        };
        let m2 = match self.req2.merge(args) {
            Ok(m) => m,
            Err(e) => {
                return Err(CompareError::Merge(Leg::Second, e));
            },
        };
        Ok((m1, m2))
    }

    /// The rendered diff of the texts of two responses under this profile;
    /// the first failure stops it.
    pub fn diff_responses(&self, res1: &ResponseExt, res2: &ResponseExt, style: &DiffStyle) -> (r: Result<String, CompareError>)
        ensures
            match (res1.text_under(self.res), res2.text_under(self.res)) {
                (Err(e), _) => r == Err::<String, CompareError>(CompareError::Normalize(Leg::First, e)),
                (Ok(_), Err(e)) => r == Err::<String, CompareError>(CompareError::Normalize(Leg::Second, e)),
                (Ok(t1), Ok(t2)) => r is Ok && r->Ok_0@ == rendered_hunks(*style, line_diff(t1, t2, CONTEXT_LINES as nat))
                    && (t1 == t2 ==> r->Ok_0@.len() == 0),
            },
    {
        let t1 = match res1.get_text(&self.res) {
            Ok(t) => t,
            Err(e) => {
                return Err(CompareError::Normalize(Leg::First, e));
            },
        };
        let t2 = match res2.get_text(&self.res) {
            Ok(t) => t,
            Err(e) => {
                return Err(CompareError::Normalize(Leg::Second, e));
            },
        };
        Ok(diff_text_styled(t1.as_str(), t2.as_str(), style))
    }
}

} // verus!
