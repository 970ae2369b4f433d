//! One year of an event as the results service lists it.
use vstd::prelude::*;

verus! {

#[derive(Debug)]
pub struct EventYear {
    pub year: String,
    pub date_time: String,
    pub live: bool,
}

impl Clone for EventYear {
    fn clone(&self) -> (r: EventYear)
        ensures
            r.year@ == self.year@,
            r.date_time@ == self.date_time@,
            r.live == self.live,
    {
        EventYear { year: self.year.clone(), date_time: self.date_time.clone(), live: self.live }
    }
}

} // verus!
