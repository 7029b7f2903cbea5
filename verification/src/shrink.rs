//! Releasing excess capacity, recursively.

use vstd::prelude::*;

use crate::app_spec::AppSpec;
use crate::provision::EnvVar;
use crate::provision::ProvisionOutput;

verus! {

/// Shrinks a value's buffers to fit its contents. Implementations release
/// capacity only; they never change what a value holds.
pub trait ShrinkToFit {
    fn shrink_to_fit(&mut self);
}

/// Relies on std::string::String::shrink_to_fit: excess capacity is dropped,
/// the contents stay as they are.
#[verifier::external_body]
fn shrink_string(s: &mut String)
    ensures
        final(s)@ == old(s)@,
{
    s.shrink_to_fit()
}

/// Relies on std Vec::shrink_to_fit: excess capacity is dropped, the elements
/// stay as they are.
#[verifier::external_body]
fn shrink_vec<T>(v: &mut Vec<T>)
    ensures
        final(v)@ == old(v)@,
{
    v.shrink_to_fit()
}

impl ShrinkToFit for String {
    fn shrink_to_fit(&mut self) {
        shrink_string(self);
    }
}

impl<T> ShrinkToFit for Vec<T> {
    fn shrink_to_fit(&mut self) {
        shrink_vec(self);
    }
}

impl ShrinkToFit for EnvVar {
    fn shrink_to_fit(&mut self) {
        shrink_string(&mut self.key);
        shrink_string(&mut self.value);
    }
}

impl ShrinkToFit for ProvisionOutput {
    fn shrink_to_fit(&mut self) {
        shrink_vec(&mut self.env_vars);
    }
}

impl ShrinkToFit for AppSpec {
    fn shrink_to_fit(&mut self) {
        shrink_string(&mut self.name);
        shrink_string(&mut self.domain);
    }
}

} // verus!
