//! A participant of an event, as the results service knows them.
use vstd::prelude::*;

verus! {

#[derive(Debug)]
pub struct Participant {
    id: u64,
    bib: String,
    first: String,
    last: String,
    age: u16,
    gender: String,
    age_group: String,
    distance: String,
    chip: String,
    anonymous: bool,
}

/// The contents of a participant record.
pub struct ParticipantView {
    pub id: u64,
    pub bib: Seq<char>,
    pub first: Seq<char>,
    pub last: Seq<char>,
    pub age: u16,
    pub gender: Seq<char>,
    pub age_group: Seq<char>,
    pub distance: Seq<char>,
    pub chip: Seq<char>,
    pub anonymous: bool,
}

impl View for Participant {
    type V = ParticipantView;

    closed spec fn view(&self) -> ParticipantView {
        ParticipantView {
            id: self.id,
            bib: self.bib@,
            first: self.first@,
            last: self.last@,
            age: self.age,
            gender: self.gender@,
            age_group: self.age_group@,
            distance: self.distance@,
            chip: self.chip@,
            anonymous: self.anonymous,
        }
    }
}

/// Two records agree on everything but the id.
pub open spec fn same_participant(a: ParticipantView, b: ParticipantView) -> bool {
    &&& a.bib == b.bib
    &&& a.first == b.first
    &&& a.last == b.last
    &&& a.age == b.age
    &&& a.gender == b.gender
    &&& a.age_group == b.age_group
    &&& a.distance == b.distance
    &&& a.chip == b.chip
    &&& a.anonymous == b.anonymous
}

impl Participant {
    pub fn new(
        id: u64,
        bib: String,
        first: String,
        last: String,
        age: u16,
        gender: String,
        age_group: String,
        distance: String,
        chip: String,
        anonymous: bool,
    ) -> (r: Participant)
        ensures
            r@ == (ParticipantView {
                id,
                bib: bib@,
                first: first@,
                last: last@,
                age,
                gender: gender@,
                age_group: age_group@,
                distance: distance@,
                chip: chip@,
                anonymous,
            }),
    {
        Participant { id, bib, first, last, age, gender, age_group, distance, chip, anonymous }
    }

    pub fn id(&self) -> (r: u64)
        ensures
            r == self@.id,
    {
        self.id
    }

    pub fn bib(&self) -> (r: &str)
        ensures
            r@ == self@.bib,
    {
        self.bib.as_str()
    }

    pub fn first(&self) -> (r: &str)
        ensures
            r@ == self@.first,
    {
        self.first.as_str()
    }

    pub fn last(&self) -> (r: &str)
        ensures
            r@ == self@.last,
    {
        self.last.as_str()
    }

    pub fn age(&self) -> (r: u16)
        ensures
            r == self@.age,
    {
        self.age
    }

    pub fn gender(&self) -> (r: &str)
        ensures
            r@ == self@.gender,
    {
        self.gender.as_str()
    }

    pub fn age_group(&self) -> (r: &str)
        ensures
            r@ == self@.age_group,
    {
        self.age_group.as_str()
    }

    pub fn distance(&self) -> (r: &str)
        ensures
            r@ == self@.distance,
    {
        self.distance.as_str()
    }

    pub fn chip(&self) -> (r: &str)
        ensures
            r@ == self@.chip,
    {
        self.chip.as_str()
    }

    pub fn anonymous(&self) -> (r: bool)
        ensures
            r == self@.anonymous,
    {
        self.anonymous
    }

    /// Whether two participant records agree in every field.
    /// Whether two records describe the same participant; the id they were
    /// stored under does not count.
    pub fn equals(&self, other: &Participant) -> (r: bool)
        ensures
            r == same_participant(self@, other@),
    {
        self.bib == other.bib && self.first == other.first && self.last
            == other.last && self.age == other.age && self.gender == other.gender && self.age_group
            == other.age_group && self.distance == other.distance && self.chip == other.chip
            && self.anonymous == other.anonymous
    }
}

impl Clone for Participant {
    fn clone(&self) -> (r: Participant)
        ensures
            r@ == self@,
    {
        Participant {
            id: self.id,
            bib: self.bib.clone(),
            first: self.first.clone(),
            last: self.last.clone(),
            age: self.age,
            gender: self.gender.clone(),
            age_group: self.age_group.clone(),
            distance: self.distance.clone(),
            chip: self.chip.clone(),
            anonymous: self.anonymous,
        }
    }
}

} // verus!
