//! A named setting and its value, as stored text.
use vstd::prelude::*;

verus! {

#[derive(Debug)]
pub struct Setting {
    name: String,
    value: String,
}

impl View for Setting {
    type V = (Seq<char>, Seq<char>);

    /// The name, then the value.
    closed spec fn view(&self) -> (Seq<char>, Seq<char>) {
        (self.name@, self.value@)
    }
}

impl Setting {
    pub fn new(name: String, value: String) -> (r: Setting)
        ensures
            r@ == (name@, value@),
    {
        Setting { name, value }
    }

    #[allow(non_snake_case)]
    pub fn Name(&self) -> (r: &String)
        ensures
            r@ == self@.0,
    {
        &self.name
    }

    #[allow(non_snake_case)]
    pub fn Value(&self) -> (r: &String)
        ensures
            r@ == self@.1,
    {
        &self.value
    }
}

impl Clone for Setting {
    fn clone(&self) -> (r: Setting)
        ensures
            r@ == self@,
    {
        Setting { name: self.name.clone(), value: self.value.clone() }
    }
}

} // verus!
