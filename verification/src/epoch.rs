use vstd::prelude::*;

use crate::validator_verifier::ValidatorVerifier;

verus! {

/// Owns the validator verifier of one epoch. An instance is created at epoch
/// start and replaced wholesale on reconfiguration — a new value is built and
/// the old one dropped — so a reader always sees one internally consistent
/// snapshot and never a torn state.
#[derive(PartialEq, Eq, Debug)]
pub struct EpochManager {
    pub epoch: u64,
    pub validators: ValidatorVerifier,
}

impl EpochManager {
    pub fn new(epoch: u64, validators: ValidatorVerifier) -> (m: Self)
        ensures
            m.epoch == epoch,
            m.validators == validators,
    {
        EpochManager { epoch, validators }
    }

    pub fn epoch(&self) -> (e: u64)
        ensures
            e == self.epoch,
    {
        self.epoch
    }

    pub fn validators(&self) -> (v: &ValidatorVerifier)
        ensures
            *v == self.validators,
    {
        &self.validators
    }
}

impl Clone for EpochManager {
    /// The copy carries the same epoch number and the same validator set.
    fn clone(&self) -> (r: Self)
        ensures
            r.epoch == self.epoch,
            r.validators.entries@ == self.validators.entries@,
            r.validators.quorum == self.validators.quorum,
            self.validators.wf() ==> r.validators.wf(),
    {
        EpochManager { epoch: self.epoch, validators: self.validators.clone() }
    }
}

} // verus!
