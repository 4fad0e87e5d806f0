//! Profiles: who the users are, and how a profile is listed to others.

use crate::friends::find_request;
use crate::page::{
    belongs_to_page, lemma_listing_start, lemma_listing_step, lemma_selection_start,
    lemma_selection_step, listing, reported_total, selection, total_of,
};
use crate::store::{Store, StoreView};
use crate::table::{lemma_count, values};
use crate::text::{
    contains_ignoring_case, contains_lowered, has_name, joined, lowercase, lowercased, same_text,
};
use crate::types::{Friend, FriendView, Profile, ProfileView};
use vstd::prelude::*;

verus! {

/// Why a profile could not be written.
#[derive(Debug, PartialEq, Eq, Clone, Copy)]
pub enum Conflict {
    /// Another user already goes by the name that was asked for.
    UsernameTaken,
}

impl Conflict {
    /// What to tell the user who asked for the name `username`.
    pub fn message(&self, username: &str) -> (r: String)
        ensures
            r@ == "Username '"@ + username@ + "' is already taken"@,
    {
        let start = joined("Username '", username);
        joined(start.as_str(), "' is already taken")
    }
}

/// Whether some profile other than that of `principal` has the name `username`.
pub open spec fn username_taken(
    profiles: Seq<(Seq<char>, ProfileView)>,
    username: Seq<char>,
    principal: Seq<char>,
) -> bool {
    exists|i: int|
        0 <= i < profiles.len() && (#[trigger] profiles[i]).1.username == username
            && profiles[i].1.principal != principal
}

/// The profile that `update_profile` writes: that of `principal` with the
/// fields given, its friends and pending requests as they were; or, where
/// `principal` had no profile, a new one without friends or requests.
pub open spec fn written_profile(
    profiles: Map<Seq<char>, ProfileView>,
    principal: Seq<char>,
    username: Seq<char>,
    pob: Seq<char>,
    instruments: Seq<char>,
    bio: Option<Seq<char>>,
    avatar: Seq<u8>,
) -> ProfileView {
    if profiles.contains_key(principal) {
        ProfileView { username, avatar, pob, instruments, bio, ..profiles[principal] }
    } else {
        ProfileView {
            principal,
            username,
            avatar,
            pob,
            instruments,
            bio,
            friends: Seq::empty(),
            incoming_fr: Seq::empty(),
            outcoming_fr: Seq::empty(),
        }
    }
}

/// How one user shows in a list of people.
pub open spec fn summary_of(p: ProfileView) -> FriendView {
    FriendView { principal: p.principal, avatar: p.avatar, username: p.username }
}

/// [`summary_of`] as a function value.
pub open spec fn show_summary() -> spec_fn(ProfileView) -> FriendView {
    |p: ProfileView| summary_of(p)
}

/// Whether a request from or to `principal` is among `requests`.
pub open spec fn names_principal(requests: Seq<FriendView>, principal: Seq<char>) -> bool {
    exists|i: int| 0 <= i < requests.len() && (#[trigger] requests[i]).principal == principal
}

/// Whether `other` is listed to `me` as somebody to ask to be friends, where
/// `name_hit` says whether the name of `other` holds what `me` looks for: not
/// `me`, not a friend, and without a pending request in either direction.
pub open spec fn stranger_if(me: ProfileView, other: ProfileView, name_hit: bool) -> bool {
    &&& name_hit
    &&& other.principal != me.principal
    &&& !me.friends.contains(other.principal)
    &&& !names_principal(me.outcoming_fr, other.principal)
    &&& !names_principal(me.incoming_fr, other.principal)
}

/// Whether `other` is somebody whom `me` may still ask to be friends, and whose
/// name holds `filter`, letter case aside: not `me`, not a friend, and without
/// a pending request in either direction.
pub open spec fn is_stranger(me: ProfileView, filter: Seq<char>, other: ProfileView) -> bool {
    stranger_if(me, other, contains_ignoring_case(other.username, filter))
}

/// [`is_stranger`] as a function value.
pub open spec fn stranger_filter(me: ProfileView, filter: Seq<char>) -> spec_fn(
    ProfileView,
) -> bool {
    |other: ProfileView| is_stranger(me, filter, other)
}

/// Whether `principal` has a profile among `profiles`, as a function value.
pub open spec fn has_profile(profiles: Map<Seq<char>, ProfileView>) -> spec_fn(Seq<char>) -> bool {
    |principal: Seq<char>| profiles.contains_key(principal)
}

/// How `principal` shows by the profile among `profiles`, as a function value.
pub open spec fn summary_among(profiles: Map<Seq<char>, ProfileView>) -> spec_fn(
    Seq<char>,
) -> FriendView {
    |principal: Seq<char>|
        FriendView {
            principal,
            avatar: profiles[principal].avatar,
            username: profiles[principal].username,
        }
}

/// The principal of the administrator.
pub open spec fn admin_principal() -> Seq<char> {
    "zhaxx-r7zkt-gffvf-jvw46-hxhj5-xewo7-cwrq6-nmza3-wpiwz-swnet-vqe"@
}

/// The profile of `principal`, if there is one.
pub fn authentication(store: &Store, principal: String) -> (r: Option<Profile>)
    requires
        store.wf(),
    ensures
        r is Some <==> store@.profile_map().contains_key(principal@),
        r matches Some(p) ==> p@ == store@.profile_map()[principal@],
{
    match store.profiles.get(&principal) {
        Some(profile) => Some(profile.clone()),
        None => None,
    }
}

/// The profile of `principal`, if there is one.
pub fn get_profile(store: &Store, principal: String) -> (r: Option<Profile>)
    requires
        store.wf(),
    ensures
        r is Some <==> store@.profile_map().contains_key(principal@),
        r matches Some(p) ==> p@ == store@.profile_map()[principal@],
{
    authentication(store, principal)
}

/// The number of profiles.
pub fn get_profile_count(store: &Store) -> (n: u64)
    requires
        store.wf(),
    ensures
        n == store@.profiles.len(),
        n == store@.profile_map().len(),
{
    proof {
        lemma_count::<String, ProfileView>(store@.profiles);
    }
    store.profiles.len() as u64
}

/// Whether some profile other than that of `principal` has the name `username`.
fn name_in_use(store: &Store, username: &String, principal: &String) -> (r: bool)
    ensures
        r == username_taken(store@.profiles, username@, principal@),
{
    let n = store.profiles.len();
    let mut i: usize = 0;
    while i < n
        invariant
            i <= n,
            n == store@.profiles.len(),
            forall|j: int|
                0 <= j < i ==> !((#[trigger] store@.profiles[j]).1.username == username@
                    && store@.profiles[j].1.principal != principal@),
        decreases n - i,
    {
        let profile = store.profiles.value_at(i);
        if profile.username == *username && profile.principal != *principal {
            assert(store@.profiles[i as int].1.username == username@);
            return true;
        }
        i += 1;
    }
    false
}

/// Writes the profile of `principal`: a new one, or the fields given over the
/// one that is there, whose friends and pending requests stay. Nothing is
/// written where another user already has the name `username`.
pub fn update_profile(
    store: &mut Store,
    principal: String,
    username: String,
    pob: String,
    instruments: String,
    bio: Option<String>,
    avatar: Vec<u8>,
) -> (r: Result<Profile, Conflict>)
    requires
        old(store).wf(),
    ensures
        final(store).wf(),
        r is Err <==> username_taken(old(store)@.profiles, username@, principal@),
        r is Err ==> r->Err_0 == Conflict::UsernameTaken,
        r is Err ==> final(store)@ == old(store)@,
        r matches Ok(p) ==> p@ == written_profile(
            old(store)@.profile_map(),
            principal@,
            username@,
            pob@,
            instruments@,
            bio.deep_view(),
            avatar@,
        ),
        r matches Ok(p) ==> final(store)@.profile_map() == old(store)@.profile_map().insert(
            principal@,
            p@,
        ),
        final(store)@ == (StoreView { profiles: final(store)@.profiles, ..old(store)@ }),
{
    if name_in_use(store, &username, &principal) {
        return Err(Conflict::UsernameTaken);
    }
    let profile = match store.profiles.get(&principal) {
        Some(prev) => Profile {
            principal: prev.principal.clone(),
            username,
            avatar,
            pob,
            instruments,
            bio,
            friends: prev.friends.clone(),
            incoming_fr: prev.incoming_fr.clone(),
            outcoming_fr: prev.outcoming_fr.clone(),
        },
        None => Profile {
            principal: principal.clone(),
            username,
            avatar,
            pob,
            instruments,
            bio,
            friends: Vec::new(),
            incoming_fr: Vec::new(),
            outcoming_fr: Vec::new(),
        },
    };
    proof {
        if store@.profile_map().contains_key(principal@) {
            let prev = store@.profile_map()[principal@];
            assert(profile.friends.deep_view() =~= prev.friends);
            assert(profile.incoming_fr.deep_view() =~= prev.incoming_fr);
            assert(profile.outcoming_fr.deep_view() =~= prev.outcoming_fr);
        } else {
            assert(profile.friends.deep_view() =~= Seq::<Seq<char>>::empty());
            assert(profile.incoming_fr.deep_view() =~= Seq::<FriendView>::empty());
            assert(profile.outcoming_fr.deep_view() =~= Seq::<FriendView>::empty());
        }
    }
    let written = profile.clone();
    store.profiles.insert(principal, profile);
    proof {
        old(store)@.lemma_put_profile(store@, written@.principal, written@);
    }
    Ok(written)
}

/// Whether `principal` is the administrator.
pub fn is_admin(principal: &String) -> (r: bool)
    ensures
        r == (principal@ == admin_principal()),
{
    same_text(
        principal.as_str(),
        "zhaxx-r7zkt-gffvf-jvw46-hxhj5-xewo7-cwrq6-nmza3-wpiwz-swnet-vqe",
    )
}

/// The friends of `principal` as they show now, in the order in which they
/// became friends. A friend whose profile is gone is left out; a user without
/// a profile has no friends.
pub fn get_friends(store: &Store, principal: String) -> (r: Vec<Friend>)
    requires
        store.wf(),
    ensures
        r.deep_view() == if store@.profile_map().contains_key(principal@) {
            selection(
                store@.profile_map()[principal@].friends,
                has_profile(store@.profile_map()),
                summary_among(store@.profile_map()),
            )
        } else {
            Seq::<FriendView>::empty()
        },
{
    let mut out: Vec<Friend> = Vec::new();
    let me = match store.profiles.get(&principal) {
        Some(me) => me,
        None => {
            assert(out.deep_view() =~= Seq::<FriendView>::empty());
            return out;
        },
    };
    let ghost profiles = store@.profile_map();
    let ghost all = me.friends.deep_view();
    let n = me.friends.len();
    let mut i: usize = 0;
    proof {
        lemma_selection_start(all, has_profile(profiles), summary_among(profiles));
        assert(out.deep_view() =~= Seq::<FriendView>::empty());
    }
    while i < n
        invariant
            i <= n,
            n == me.friends.len(),
            store.wf(),
            profiles == store@.profile_map(),
            all == me.friends.deep_view(),
            out.deep_view() == selection(
                all.take(i as int),
                has_profile(profiles),
                summary_among(profiles),
            ),
        decreases n - i,
    {
        proof {
            lemma_selection_step(all, has_profile(profiles), summary_among(profiles), i as int);
        }
        let friend = &me.friends[i];
        assert(friend@ == all[i as int]);
        match store.profiles.get(friend) {
            Some(profile) => {
                let summary = Friend {
                    principal: friend.clone(),
                    avatar: profile.avatar.clone(),
                    username: profile.username.clone(),
                };
                let ghost before = out.deep_view();
                out.push(summary);
                assert(out.deep_view() =~= before.push(summary@));
            },
            None => {},
        }
        i += 1;
    }
    assert(all.take(n as int) =~= all);
    out
}

/// How the user of `profile` shows in a list of people.
pub fn summary(profile: &Profile) -> (r: Friend)
    ensures
        r@ == summary_of(profile@),
{
    Friend {
        principal: profile.principal.clone(),
        avatar: profile.avatar.clone(),
        username: profile.username.clone(),
    }
}

/// Whether `other` is listed to `me` as somebody to ask to be friends, where
/// `name_hit` says whether the name of `other` holds what `me` looks for.
pub fn may_ask(me: &Profile, other: &Profile, name_hit: bool) -> (r: bool)
    ensures
        r == stranger_if(me@, other@, name_hit),
{
    name_hit && other.principal != me.principal && !has_name(&me.friends, &other.principal)
        && find_request(&me.outcoming_fr, &other.principal).is_none() && find_request(
        &me.incoming_fr,
        &other.principal,
    ).is_none()
}

/// One page, of fifteen, of the people whom `my_principal` may still ask to be
/// friends and whose name holds `filter`, in the order of their principals,
/// with the number of all such people. A user without a profile sees nobody.
pub fn browse_people(store: &Store, my_principal: String, filter: String, page_num: i32) -> (r: (
    Vec<Friend>,
    i32,
))
    requires
        store.wf(),
    ensures
        store@.profile_map().contains_key(my_principal@) ==> r.0.deep_view() == listing(
            values(store@.profiles),
            stranger_filter(store@.profile_map()[my_principal@], filter@),
            show_summary(),
            page_num as int,
            15,
        ),
        store@.profile_map().contains_key(my_principal@) ==> r.1 == reported_total(
            values(store@.profiles).filter(
                stranger_filter(store@.profile_map()[my_principal@], filter@),
            ).len() as int,
        ),
        !store@.profile_map().contains_key(my_principal@) ==> r.0.deep_view().len() == 0,
        !store@.profile_map().contains_key(my_principal@) ==> r.1 == 0,
{
    let mut out: Vec<Friend> = Vec::new();
    let me = match store.profiles.get(&my_principal) {
        Some(me) => me,
        None => {
            assert(out.deep_view() =~= Seq::<FriendView>::empty());
            return (out, 0);
        },
    };
    let needle = lowercase(filter.as_str());
    let ghost all = values(store@.profiles);
    let ghost keep = stranger_filter(me@, filter@);
    let mut count: usize = 0;
    let n = store.profiles.len();
    let mut i: usize = 0;
    proof {
        lemma_listing_start(all, keep, show_summary(), page_num as int, 15);
        assert(out.deep_view() =~= Seq::<FriendView>::empty());
    }
    while i < n
        invariant
            i <= n,
            n == store@.profiles.len(),
            all == values(store@.profiles),
            keep == stranger_filter(me@, filter@),
            needle@ == lowercased(filter@),
            count == all.take(i as int).filter(keep).len(),
            count <= i,
            out.deep_view() == listing(
                all.take(i as int),
                keep,
                show_summary(),
                page_num as int,
                15,
            ),
        decreases n - i,
    {
        let other = store.profiles.value_at(i);
        proof {
            lemma_listing_step(all, keep, show_summary(), i as int, page_num as int, 15);
            assert(all[i as int] == other@);
        }
        let name_hit = contains_lowered(other.username.as_str(), needle.as_str());
        let hit = may_ask(me, other, name_hit);
        assert(hit == keep(all[i as int]));
        if hit {
            if belongs_to_page(count, page_num, 15) {
                let shown = summary(other);
                let ghost before = out.deep_view();
                out.push(shown);
                assert(out.deep_view() =~= before.push(shown@));
            }
            count += 1;
        }
        i += 1;
    }
    assert(all.take(n as int) =~= all);
    (out, total_of(count))
}

} // verus!
