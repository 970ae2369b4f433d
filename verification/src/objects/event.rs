//! An event as the results service lists it.
use vstd::prelude::*;

verus! {

#[derive(Debug)]
pub struct Event {
    pub name: String,
    pub slug: String,
    pub website: String,
    pub image: String,
    pub contact_email: String,
    pub access_restricted: bool,
    pub kind: String,
    pub recent_time: String,
}

impl Clone for Event {
    fn clone(&self) -> (r: Event)
        ensures
            r.name@ == self.name@,
            r.slug@ == self.slug@,
            r.website@ == self.website@,
            r.image@ == self.image@,
            r.contact_email@ == self.contact_email@,
            r.access_restricted == self.access_restricted,
            r.kind@ == self.kind@,
            r.recent_time@ == self.recent_time@,
    {
        Event { name: self.name.clone(), slug: self.slug.clone(), website: self.website.clone(), image: self.image.clone(), contact_email: self.contact_email.clone(), access_restricted: self.access_restricted, kind: self.kind.clone(), recent_time: self.recent_time.clone() }
    }
}

} // verus!
