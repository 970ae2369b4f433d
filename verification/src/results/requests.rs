//! What the portal asks a results site for.
use vstd::prelude::*;

verus! {

#[derive(Debug)]
pub struct GetParticipantsRequest {
    pub slug: String,
    pub year: String,
}

#[derive(Debug)]
pub struct GetBibChipsRequest {
    pub slug: String,
    pub year: String,
}

#[derive(Debug)]
pub struct GetEventRequest {
    pub slug: String,
}

impl Clone for GetParticipantsRequest {
    fn clone(&self) -> (r: GetParticipantsRequest)
        ensures
            r.slug@ == self.slug@,
            r.year@ == self.year@,
    {
        GetParticipantsRequest { slug: self.slug.clone(), year: self.year.clone() }
    }
}

impl Clone for GetBibChipsRequest {
    fn clone(&self) -> (r: GetBibChipsRequest)
        ensures
            r.slug@ == self.slug@,
            r.year@ == self.year@,
    {
        GetBibChipsRequest { slug: self.slug.clone(), year: self.year.clone() }
    }
}

impl Clone for GetEventRequest {
    fn clone(&self) -> (r: GetEventRequest)
        ensures
            r.slug@ == self.slug@,
    {
        GetEventRequest { slug: self.slug.clone() }
    }
}

} // verus!
