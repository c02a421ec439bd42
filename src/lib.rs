//! Compare the responses of two HTTP endpoints that should behave alike.
//!
//! The library covers the computing core of such a comparison: the override
//! parameters given on the command line, the merge of a stored request
//! template with those overrides, the normalisation of a response into a
//! comparable text, and the rendering of a line diff between two such texts.
pub mod cli;
pub mod diff;
pub mod fields;
pub mod json;
pub mod params;
pub mod profile;
pub mod request;
pub mod response;

pub use cli::{Action, Args, RunArgs};
pub use diff::{diff_changes, diff_text, diff_text_styled, render_diff, ChangeTag, DiffStyle, InlineChange, Paint, TagStyle};
pub use fields::FieldMap;
pub use json::{parse_scalar, Scalar};
pub use request::{ContentKind, InvalidUrl, MergeError, MergedRequest, RequestProfile};
pub use response::{eq_ignore_ascii_case, filter_json, NormalizeError, ResponseExt, ResponseProfile};
pub use profile::{CompareError, DiffProfile, Leg, Profile};
pub use params::{ExtraArgs, KeyVal, KeyValType, KeyValue, KeyValueError, Parameter};
