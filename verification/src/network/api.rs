//! A remote service the portal uploads reads to.
use vstd::prelude::*;

verus! {

pub const API_TYPE_CHRONOKEEP_REMOTE: &'static str = "CHRONOKEEP_REMOTE";
pub const API_TYPE_CHRONOKEEP_REMOTE_SELF: &'static str = "CHRONOKEEP_REMOTE_SELF";

pub const API_URI_CHRONOKEEP_REMOTE: &'static str = "https://remote.chronokeep.com/";

#[derive(Debug)]
pub struct Api {
    id: i64,
    nickname: String,
    kind: String,
    token: String,
    uri: String,
}

/// The contents of a service entry.
pub struct ApiView {
    pub id: i64,
    pub nickname: Seq<char>,
    pub kind: Seq<char>,
    pub token: Seq<char>,
    pub uri: Seq<char>,
}

impl View for Api {
    type V = ApiView;

    closed spec fn view(&self) -> ApiView {
        ApiView {
            id: self.id,
            nickname: self.nickname@,
            kind: self.kind@,
            token: self.token@,
            uri: self.uri@,
        }
    }
}

/// Two entries name the same service: all but the id agree.
pub open spec fn same_api(a: ApiView, b: ApiView) -> bool {
    &&& a.nickname == b.nickname
    &&& a.kind == b.kind
    &&& a.token == b.token
    &&& a.uri == b.uri
}

impl Api {
    pub fn new(id: i64, nickname: String, kind: String, token: String, uri: String) -> (r: Api)
        ensures
            r@ == (ApiView { id, nickname: nickname@, kind: kind@, token: token@, uri: uri@ }),
    {
        Api { id, nickname, kind, token, uri }
    }

    pub fn id(&self) -> (r: i64)
        ensures
            r == self@.id,
    {
        self.id
    }

    pub fn nickname(&self) -> (r: &str)
        ensures
            r@ == self@.nickname,
    {
        self.nickname.as_str()
    }

    pub fn kind(&self) -> (r: &str)
        ensures
            r@ == self@.kind,
    {
        self.kind.as_str()
    }

    pub fn token(&self) -> (r: &str)
        ensures
            r@ == self@.token,
    {
        self.token.as_str()
    }

    pub fn uri(&self) -> (r: &str)
        ensures
            r@ == self@.uri,
    {
        self.uri.as_str()
    }

    pub fn equal(&self, other: &Api) -> (r: bool)
        ensures
            r == same_api(self@, other@),
    {
        self.nickname == other.nickname && self.kind == other.kind && self.token == other.token
            && self.uri == other.uri
    }
}

impl Clone for Api {
    fn clone(&self) -> (r: Api)
        ensures
            r@ == self@,
    {
        Api {
            id: self.id,
            nickname: self.nickname.clone(),
            kind: self.kind.clone(),
            token: self.token.clone(),
            uri: self.uri.clone(),
        }
    }
}

} // verus!
