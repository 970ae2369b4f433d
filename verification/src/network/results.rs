//! A results site the portal can fetch events and participants from.
use vstd::prelude::*;

verus! {

pub struct ResultsApi {
    id: usize,
    nickname: String,
    kind: String,
    token: String,
    uri: String,
}

/// The contents of a results site entry.
pub struct ResultsApiView {
    pub id: usize,
    pub nickname: Seq<char>,
    pub kind: Seq<char>,
    pub token: Seq<char>,
    pub uri: Seq<char>,
}

impl View for ResultsApi {
    type V = ResultsApiView;

    closed spec fn view(&self) -> ResultsApiView {
        ResultsApiView {
            id: self.id,
            nickname: self.nickname@,
            kind: self.kind@,
            token: self.token@,
            uri: self.uri@,
        }
    }
}

impl ResultsApi {
    pub fn new(id: usize, nickname: String, kind: String, token: String, uri: String) -> (r:
        ResultsApi)
        ensures
            r@ == (ResultsApiView { id, nickname: nickname@, kind: kind@, token: token@, uri: uri@ }),
    {
        ResultsApi { id, nickname, kind, token, uri }
    }
}

} // verus!
