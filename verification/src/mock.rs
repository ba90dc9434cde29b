//! Stand-ins for services, to try the stages without the services behind
//! them.

use crate::common::error::NatureError;
use crate::common::instance::Instance;
use vstd::prelude::*;

verus! {

/// What checks an instance on its way in.
pub trait InstanceServiceTrait {
    /// Checks `instance` and completes what the caller left out. Gives the
    /// id of the instance.
    fn verify(&self, instance: &mut Instance) -> (r: Result<u64, NatureError>);
}

/// A check of instances that answers what it was told to answer and leaves
/// the instance alone.
#[derive(Debug)]
pub struct MockInstanceTrait {
    /// What every check answers.
    pub result: Result<u64, NatureError>,
}

impl InstanceServiceTrait for MockInstanceTrait {
    fn verify(&self, instance: &mut Instance) -> (r: Result<u64, NatureError>)
        ensures
            final(instance)@ == old(instance)@,
            match r {
                Ok(id) => self.result == Ok::<u64, NatureError>(id),
                Err(e) => self.result matches Err(x) && e@ == x@,
            },
    {
        match &self.result {
            Ok(id) => Ok(*id),
            Err(e) => Err(e.duplicate()),
        }
    }
}

} // verus!
