//! The link between a bib number and the chip a participant wears.
use vstd::prelude::*;

verus! {

#[derive(Debug)]
pub struct BibChip {
    bib: String,
    chip: String,
}

impl View for BibChip {
    type V = (Seq<char>, Seq<char>);

    /// The bib, then the chip.
    closed spec fn view(&self) -> (Seq<char>, Seq<char>) {
        (self.bib@, self.chip@)
    }
}

impl BibChip {
    pub fn new(bib: String, chip: String) -> (r: BibChip)
        ensures
            r@ == (bib@, chip@),
    {
        BibChip { bib, chip }
    }

    pub fn bib(&self) -> (r: &str)
        ensures
            r@ == self@.0,
    {
        self.bib.as_str()
    }

    pub fn chip(&self) -> (r: &str)
        ensures
            r@ == self@.1,
    {
        self.chip.as_str()
    }

    pub fn equals(&self, other: &BibChip) -> (r: bool)
        ensures
            r == (self@ == other@),
    {
        self.bib == other.bib && self.chip == other.chip
    }
}

impl Clone for BibChip {
    fn clone(&self) -> (r: BibChip)
        ensures
            r@ == self@,
    {
        BibChip { bib: self.bib.clone(), chip: self.chip.clone() }
    }
}

} // verus!
