//! What a results site answers.
use vstd::prelude::*;
use crate::objects::bibchip::BibChip;
use crate::objects::event::Event;
use crate::objects::event_year::EventYear;
use crate::objects::participant::Participant;

verus! {

#[derive(Debug)]
pub struct GetEventsResponse {
    pub events: Vec<Event>,
}

#[derive(Debug)]
pub struct GetEventResponse {
    pub event: Event,
    pub event_years: Vec<EventYear>,
}

#[derive(Debug)]
pub struct GetParticipantsResponse {
    pub participants: Vec<Participant>,
}

#[derive(Debug)]
pub struct GetBibChipsResponse {
    pub bib_chips: Vec<BibChip>,
}

} // verus!
