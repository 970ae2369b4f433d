//! Saving the whole list of services a client sends at once.
use vstd::prelude::*;
use vstd::string::StringExecFns;
use crate::control::socket::{api_views, ends_in_slash, with_slash};
use crate::control::socket::errors::Errors;
use crate::control::socket::responses::Responses;
use crate::database::memstore::{same_rows, MemStore};
use crate::database::memstore::rows::apis_after_save;
use crate::network::api::{Api, ApiView, API_TYPE_CHRONOKEEP_REMOTE, API_TYPE_CHRONOKEEP_REMOTE_SELF};
use crate::remote::uploader::{first_remote, has_remote, is_remote_kind};
use crate::text::str_equal;

verus! {

/// The list would leave more than one remote service: it holds a remote
/// service other than the stored one, or, with none stored, two of them.
pub open spec fn list_adds_remote(stored: Seq<ApiView>, list: Seq<ApiView>) -> bool {
    if has_remote(stored) {
        let i = choose|i: int| first_remote(stored, i);
        exists|k: int| 0 <= k < list.len() && is_remote_kind(#[trigger] list[k].kind) && list[k].id != stored[i].id
    } else {
        exists|k: int, m: int| 0 <= k < m < list.len() && is_remote_kind(#[trigger] list[k].kind) && is_remote_kind(#[trigger] list[m].kind)
    }
}

/// The list holds a service of a kind the portal does not take.
pub open spec fn list_has_unknown_kind(list: Seq<ApiView>) -> bool {
    exists|k: int| 0 <= k < list.len() && !is_remote_kind(#[trigger] list[k].kind)
}

/// A service as it is saved from the list: where a remote service is stored
/// already, its address ends in a slash.
pub open spec fn as_saved(stored: Seq<ApiView>, x: ApiView) -> ApiView {
    if has_remote(stored) {
        ApiView { uri: if ends_in_slash(x.uri) { x.uri } else { x.uri + "/"@ }, ..x }
    } else {
        x
    }
}

/// The services and the last id given after saving `xs` in order, and
/// whether one could not be saved for want of an id.
pub open spec fn apis_after_saves(apis: Seq<ApiView>, last: i64, xs: Seq<ApiView>) -> (Seq<ApiView>, i64, bool)
    decreases xs.len(),
{
    if xs.len() == 0 {
        (apis, last, false)
    } else {
        let before = apis_after_saves(apis, last, xs.drop_last());
        let x = xs.last();
        if x.id > 0 || before.1 < i64::MAX {
            (apis_after_save(before.0, x, before.1), if x.id > 0 { before.1 } else { (before.1 + 1) as i64 }, before.2)
        } else {
            (before.0, before.1, true)
        }
    }
}

fn is_remote(a: &Api) -> (r: bool)
    ensures
        r == is_remote_kind(a@.kind),
{
    str_equal(a.kind(), API_TYPE_CHRONOKEEP_REMOTE) || str_equal(a.kind(), API_TYPE_CHRONOKEEP_REMOTE_SELF)
}

/// Checks the list a client sent and saves it: at most one remote service
/// may result, and only remote services are taken. Gives the answer to the
/// client and the answer to every client.
pub fn save_all_apis(store: &mut MemStore, list: &Vec<Api>) -> (r: (Vec<Responses>, Vec<Responses>))
    requires
        old(store).wf(),
    ensures
        final(store).wf(),
        final(store)@.settings == old(store)@.settings,
        final(store)@.reads == old(store)@.reads,
        final(store)@.next_id == old(store)@.next_id,
        final(store)@.readers == old(store)@.readers,
        list_adds_remote(old(store)@.apis, api_views(list@)) ==> final(store)@ == old(store)@
            && r.0@ == seq![Responses::Error { error: Errors::TooManyRemoteApi }] && r.1@.len() == 0,
        !list_adds_remote(old(store)@.apis, api_views(list@)) && list_has_unknown_kind(api_views(list@))
            ==> final(store)@ == old(store)@ && r.1@.len() == 0 && r.0@.len() == 1
            && (r.0@[0] matches Responses::Error { error: Errors::InvalidApiType { message } }
            && message@ == "one or more invalid api types found"@),
        !list_adds_remote(old(store)@.apis, api_views(list@)) && !list_has_unknown_kind(api_views(list@)) ==> ({
            let saved = apis_after_saves(old(store)@.apis, old(store)@.last_api_id,
                api_views(list@).map_values(|x: ApiView| as_saved(old(store)@.apis, x)));
            &&& final(store)@.apis == saved.0
            &&& final(store)@.last_api_id == saved.1
            &&& saved.2 ==> r.1@.len() == 0 && r.0@.len() == 1 && (r.0@[0] matches Responses::Error {
                error: Errors::DatabaseError { message } } && message@ == "error saving one or more apis"@)
            &&& !saved.2 ==> r.0@.len() == 0 && r.1@.len() == 1 && (r.1@[0] matches Responses::ApiList { apis }
                && api_views(apis@) == final(store)@.apis)
        }),
{
    let stored = match store.get_apis() {
        Ok(v) => v,
        Err(_) => Vec::new(),
    };
    let ghost sv = api_views(stored@);
    let ghost lv = api_views(list@);
    // the stored remote service, if any
    let mut remote: Option<i64> = None;
    let mut i: usize = 0;
    while i < stored.len()
        invariant
            i <= stored@.len(),
            sv == api_views(stored@),
            remote is None ==> forall|j: int| 0 <= j < i ==> !is_remote_kind(#[trigger] sv[j].kind),
            remote matches Some(id) ==> exists|f: int| first_remote(sv, f) && sv[f].id == id,
        decreases stored.len() - i,
    {
        assert(sv[i as int] == stored@[i as int]@);
        if remote.is_none() && is_remote(&stored[i]) {
            assert(first_remote(sv, i as int));
            remote = Some(stored[i].id());
        }
        i = i + 1;
    }
    proof {
        if remote is None {
            assert(!has_remote(sv));
        } else {
            let f = choose|f: int| first_remote(sv, f) && sv[f].id == remote->0;
            assert(has_remote(sv));
            let c = choose|c: int| first_remote(sv, c);
            if c < f {
                assert(!is_remote_kind(sv[c].kind));
            }
            if c > f {
                assert(!is_remote_kind(sv[f].kind));
            }
            assert(c == f);
        }
    }
    // check the list
    let mut clash = false;
    let mut unknown = false;
    let mut seen_remote = false;
    let mut k: usize = 0;
    while k < list.len()
        invariant
            k <= list@.len(),
            lv == api_views(list@),
            sv == api_views(stored@),
            remote is None <==> !has_remote(sv),
            remote matches Some(id) ==> id == sv[choose|c: int| first_remote(sv, c)].id,
            unknown == exists|j: int| 0 <= j < k && !is_remote_kind(#[trigger] lv[j].kind),
            seen_remote == exists|j: int| 0 <= j < k && is_remote_kind(#[trigger] lv[j].kind),
            remote matches Some(id) ==> clash == exists|j: int| 0 <= j < k && is_remote_kind(#[trigger] lv[j].kind) && lv[j].id != id,
            remote is None ==> clash == exists|j: int, m: int| 0 <= j < m < k && is_remote_kind(#[trigger] lv[j].kind) && is_remote_kind(#[trigger] lv[m].kind),
        decreases list.len() - k,
    {
        let a = &list[k];
        let ghost seen_before = seen_remote;
        assert(lv[k as int] == list@[k as int]@);
        if is_remote(a) {
            match remote {
                Some(id) => {
                    if a.id() != id {
                        clash = true;
                    }
                },
                None => {
                    if seen_remote {
                        proof {
                            let j = choose|j: int| 0 <= j < k && is_remote_kind(#[trigger] lv[j].kind);
                            assert(0 <= j < k as int + 1 && is_remote_kind(lv[j].kind) && is_remote_kind(lv[k as int].kind));
                        }
                        clash = true;
                    }
                },
            }
            seen_remote = true;
        } else {
            unknown = true;
        }
        proof {
            if remote is None && !is_remote_kind(lv[k as int].kind) {
                assert forall|j: int, m: int| 0 <= j < m < k + 1 && is_remote_kind(#[trigger] lv[j].kind)
                    && is_remote_kind(#[trigger] lv[m].kind) implies m < k by {}
            }
            if remote is None && is_remote_kind(lv[k as int].kind) && !seen_before {
                assert forall|j: int, m: int| 0 <= j < m < k + 1 && is_remote_kind(#[trigger] lv[j].kind)
                    && is_remote_kind(#[trigger] lv[m].kind) implies false by {
                    if m == k {
                        assert(0 <= j < k && is_remote_kind(lv[j].kind));
                    } else {
                        assert(0 <= j < k && is_remote_kind(lv[j].kind));
                    }
                }
            }
        }
        k = k + 1;
    }
    assert(clash == list_adds_remote(sv, lv));
    assert(unknown == list_has_unknown_kind(lv));
    if clash {
        return (vec![Responses::Error { error: Errors::TooManyRemoteApi }], Vec::new());
    }
    if unknown {
        return (
            vec![Responses::Error { error: Errors::InvalidApiType { message: String::from_str("one or more invalid api types found") } }],
            Vec::new(),
        );
    }
    // save them in order
    let ghost xs = lv.map_values(|x: ApiView| as_saved(sv, x));
    let ghost last0 = store@.last_api_id;
    let ghost apis0 = store@.apis;
    let mut failed = false;
    let mut n: usize = 0;
    while n < list.len()
        invariant
            n <= list@.len(),
            lv == api_views(list@),
            xs == lv.map_values(|x: ApiView| as_saved(sv, x)),
            remote is None <==> !has_remote(sv),
            store.wf(),
            store@.settings == old(store)@.settings,
            store@.reads == old(store)@.reads,
            store@.next_id == old(store)@.next_id,
            store@.readers == old(store)@.readers,
            !list_has_unknown_kind(lv),
            ({
                let s = apis_after_saves(apis0, last0, xs.take(n as int));
                store@.apis == s.0 && store@.last_api_id == s.1 && failed == s.2
            }),
        decreases list.len() - n,
    {
        let a = &list[n];
        assert(lv[n as int] == list@[n as int]@);
        assert(is_remote_kind(lv[n as int].kind));
        let uri = if remote.is_some() { with_slash(String::from_str(a.uri())) } else { String::from_str(a.uri()) };
        let to_save = Api::new(a.id(), String::from_str(a.nickname()), String::from_str(a.kind()), String::from_str(a.token()), uri);
        assert(to_save@ == xs[n as int]);
        assert(xs.take(n + 1).drop_last() =~= xs.take(n as int));
        match store.save_api(&to_save) {
            Ok(_) => {},
            Err(_) => {
                failed = true;
            },
        }
        n = n + 1;
    }
    assert(xs.take(list@.len() as int) =~= xs);
    if failed {
        (vec![Responses::Error { error: Errors::DatabaseError { message: String::from_str("error saving one or more apis") } }], Vec::new())
    } else {
        let apis = match store.get_apis() {
            Ok(v) => v,
            Err(_) => Vec::new(),
        };
        (Vec::new(), vec![Responses::ApiList { apis }])
    }
}

} // verus!
