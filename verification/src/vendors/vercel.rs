//! Records of the Vercel secrets provider and the decisions taken when
//! uploading environment variables.

use vstd::prelude::*;
use vstd::string::*;

use crate::provision::stage_name;
use crate::provision::Stage;

verus! {

/// A project as the provider reports it.
#[derive(Debug, Clone)]
pub struct Project {
    pub id: String,
}

/// The deployment targets an environment variable is uploaded for: every
/// stage when none is given, otherwise exactly the given stage.
pub fn stage_targets(stage: Option<Stage>) -> (r: Vec<String>)
    ensures
        match stage {
            None => r@.len() == 2 && r@[0]@ == "production"@ && r@[1]@ == "development"@,
            Some(s) => r@.len() == 1 && r@[0]@ == stage_name(s),
        },
{
    let mut v: Vec<String> = Vec::new();
    match stage {
        None => {
            v.push(String::from_str("production"));
            v.push(String::from_str("development"));
        },
        Some(s) => {
            v.push(String::from_str(s.env_name()));
        },
    }
    v
}

/// How a variable's value is stored by the provider: encrypted for secrets,
/// plain otherwise.
pub fn env_var_kind(secret: bool) -> (r: &'static str)
    ensures
        secret ==> r@ == "encrypted"@,
        !secret ==> r@ == "plain"@,
{
    if secret {
        "encrypted"
    } else {
        "plain"
    }
}

} // verus!
