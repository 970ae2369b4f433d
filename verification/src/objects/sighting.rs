//! A read matched to the participant who wears the chip.
use vstd::prelude::*;
use crate::objects::participant::{Participant, same_participant};
use crate::objects::read::{Read, same_read};

verus! {

#[derive(Debug)]
pub struct Sighting {
    pub participant: Participant,
    pub read: Read,
}

impl Sighting {
    /// Whether two sightings name the same participant and the same read.
    pub fn equals(&self, other: &Sighting) -> (r: bool)
        ensures
            r == (same_participant(self.participant@, other.participant@) && same_read(self.read@, other.read@)),
    {
        self.participant.equals(&other.participant) && self.read.equals(&other.read)
    }
}

impl Clone for Sighting {
    fn clone(&self) -> (r: Sighting)
        ensures
            r.participant@ == self.participant@,
            r.read@ == self.read@,
    {
        Sighting { participant: self.participant.clone(), read: self.read.clone() }
    }
}

} // verus!
