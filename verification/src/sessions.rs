//! Sessions: where and when people meet to play.

use crate::page::{
    belongs_to_page, lemma_listing_start, lemma_listing_step, listing, reported_total, total_of,
};
use crate::store::{Store, StoreView};
use crate::table::{lemma_count, values};
use crate::text::{contains_ignoring_case, contains_lowered, lowercase, lowercased};
use crate::types::{Session, SessionView};
use vstd::prelude::*;

verus! {

/// Whether a session is listed for a needle that its name holds if `name_hit`
/// and that its location holds if `location_hit`.
pub open spec fn session_listed_if(name_hit: bool, location_hit: bool) -> bool {
    name_hit || location_hit
}

/// Whether `needle` occurs in the name or in the location of the session,
/// letter case aside, as a function value.
pub open spec fn session_filter(needle: Seq<char>) -> spec_fn(SessionView) -> bool {
    |s: SessionView|
        session_listed_if(
            contains_ignoring_case(s.name, needle),
            contains_ignoring_case(s.location, needle),
        )
}

/// Whether the session `id` is a session of `principal`.
pub open spec fn owns_session(
    sessions: Map<u32, SessionView>,
    id: u32,
    principal: Seq<char>,
) -> bool {
    sessions.contains_key(id) && sessions[id].principal == principal
}

/// A session as it is, as a function value.
pub open spec fn show_session() -> spec_fn(SessionView) -> SessionView {
    |s: SessionView| s
}

/// The id that a record written at the time `now` gets where ids have 32
/// bits: the low 32 bits of `now`.
pub open spec fn short_id(now: u64) -> u32 {
    (now % 0x1_0000_0000) as u32
}

/// The id that a record written at the time `now` gets where ids have 32 bits.
pub fn short_id_at(now: u64) -> (id: u32)
    ensures
        id == short_id(now),
{
    (now % 0x1_0000_0000) as u32
}

/// Whether a session is listed for a needle that its name holds if `name_hit`
/// and that its location holds if `location_hit`.
pub fn session_listed(name_hit: bool, location_hit: bool) -> (r: bool)
    ensures
        r == session_listed_if(name_hit, location_hit),
{
    name_hit || location_hit
}

/// One page, of fifteen, of the sessions whose name or location holds
/// `sub_name`, in the order of their ids, with the number of all such sessions.
pub fn get_sessions(store: &Store, sub_name: &str, page_num: i32) -> (r: (Vec<Session>, i32))
    ensures
        r.0.deep_view() == listing(
            values(store@.sessions),
            session_filter(sub_name@),
            show_session(),
            page_num as int,
            15,
        ),
        r.1 == reported_total(
            values(store@.sessions).filter(session_filter(sub_name@)).len() as int,
        ),
{
    let needle = lowercase(sub_name);
    let ghost all = values(store@.sessions);
    let ghost keep = session_filter(sub_name@);
    let mut out: Vec<Session> = Vec::new();
    let mut count: usize = 0;
    let n = store.sessions.len();
    let mut i: usize = 0;
    proof {
        lemma_listing_start(all, keep, show_session(), page_num as int, 15);
        assert(out.deep_view() =~= Seq::<SessionView>::empty());
    }
    while i < n
        invariant
            i <= n,
            n == store@.sessions.len(),
            all == values(store@.sessions),
            keep == session_filter(sub_name@),
            needle@ == lowercased(sub_name@),
            count == all.take(i as int).filter(keep).len(),
            count <= i,
            out.deep_view() == listing(
                all.take(i as int),
                keep,
                show_session(),
                page_num as int,
                15,
            ),
        decreases n - i,
    {
        let session = store.sessions.value_at(i);
        proof {
            lemma_listing_step(all, keep, show_session(), i as int, page_num as int, 15);
            assert(all[i as int] == session@);
        }
        let name_hit = contains_lowered(session.name.as_str(), needle.as_str());
        let location_hit = contains_lowered(session.location.as_str(), needle.as_str());
        if session_listed(name_hit, location_hit) {
            if belongs_to_page(count, page_num, 15) {
                let ghost before = out.deep_view();
                out.push(session.clone());
                assert(out.deep_view() =~= before.push(session@));
            }
            count += 1;
        }
        i += 1;
    }
    assert(all.take(n as int) =~= all);
    (out, total_of(count))
}

/// Lists a session of `principal` at the time `now`, under the id that `now`
/// gives. A session that had this id is replaced.
pub fn add_session(
    store: &mut Store,
    now: u64,
    principal: String,
    username: String,
    name: String,
    location: String,
    daytime: String,
    contact: String,
    comment: String,
    recurring: String,
) -> (r: bool)
    requires
        old(store).wf(),
    ensures
        final(store).wf(),
        r,
        final(store)@.session_map() == old(store)@.session_map().insert(
            short_id(now),
            (SessionView {
                id: short_id(now),
                principal: principal@,
                username: username@,
                name: name@,
                location: location@,
                daytime: daytime@,
                contact: contact@,
                comment: comment@,
                recurring: recurring@,
            }),
        ),
        final(store)@ == (StoreView { sessions: final(store)@.sessions, ..old(store)@ }),
{
    let id = short_id_at(now);
    let session = Session {
        id,
        principal,
        username,
        name,
        location,
        daytime,
        contact,
        comment,
        recurring,
    };
    let ghost written = session@;
    store.sessions.insert(id, session);
    proof {
        old(store)@.lemma_put_session(store@, id, written);
    }
    true
}

/// Rewrites the session `id`, which must be a session of `principal`: every
/// field but the id and the owner is replaced. Nothing happens, and the answer
/// is `false`, where there is no such session or it is somebody else's.
pub fn update_session(
    store: &mut Store,
    id: u32,
    principal: String,
    username: String,
    name: String,
    location: String,
    daytime: String,
    contact: String,
    comment: String,
    recurring: String,
) -> (r: bool)
    requires
        old(store).wf(),
    ensures
        final(store).wf(),
        r == owns_session(old(store)@.session_map(), id, principal@),
        r ==> final(store)@.session_map() == old(store)@.session_map().insert(
            id,
            (SessionView {
                id,
                principal: principal@,
                username: username@,
                name: name@,
                location: location@,
                daytime: daytime@,
                contact: contact@,
                comment: comment@,
                recurring: recurring@,
            }),
        ),
        !r ==> final(store)@.session_map() == old(store)@.session_map(),
        final(store)@ == (StoreView { sessions: final(store)@.sessions, ..old(store)@ }),
{
    let at = match store.sessions.find(&id) {
        Some(at) => at,
        None => {
            return false;
        },
    };
    if store.sessions.value_at(at).principal != principal {
        return false;
    }
    let session = Session {
        id,
        principal,
        username,
        name,
        location,
        daytime,
        contact,
        comment,
        recurring,
    };
    let ghost written = session@;
    store.sessions.replace_at(at, session);
    proof {
        old(store)@.lemma_put_session(store@, id, written);
    }
    true
}

/// Takes the session `id` off the list, which only its owner can do. Nothing
/// happens, and the answer is `false`, where there is no such session or it is
/// somebody else's.
pub fn delete_session(store: &mut Store, id: u32, principal: String) -> (r: bool)
    requires
        old(store).wf(),
    ensures
        final(store).wf(),
        r == owns_session(old(store)@.session_map(), id, principal@),
        r ==> final(store)@.session_map() == old(store)@.session_map().remove(id),
        !r ==> final(store)@.session_map() == old(store)@.session_map(),
        final(store)@ == (StoreView { sessions: final(store)@.sessions, ..old(store)@ }),
{
    let at = match store.sessions.find(&id) {
        Some(at) => at,
        None => {
            return false;
        },
    };
    if store.sessions.value_at(at).principal != principal {
        return false;
    }
    store.sessions.remove_at(at);
    proof {
        old(store)@.lemma_cut_session(store@, id);
    }
    true
}

/// The number of sessions.
pub fn get_session_count(store: &Store) -> (n: u64)
    requires
        store.wf(),
    ensures
        n == store@.sessions.len(),
        n == store@.session_map().len(),
{
    proof {
        lemma_count::<u32, SessionView>(store@.sessions);
    }
    store.sessions.len() as u64
}

} // verus!
