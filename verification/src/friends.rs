//! Friendships: requests between two users, and what becomes of them.
//!
//! A pending request stands in two places: among the outgoing requests of the
//! user who sent it, and among the incoming requests of the user it went to.
//! Each operation writes the first user's profile and then the second's, so
//! where both are the same user the second write is the one that stays.

use crate::profiles::names_principal;
use crate::store::{Store, StoreView};
use crate::text::has_name;
use crate::types::{Friend, FriendView, Profile, ProfileView};
use vstd::prelude::*;

verus! {

/// `i` is the position of the first of `requests` that names `principal`.
pub open spec fn is_first_naming(requests: Seq<FriendView>, principal: Seq<char>, i: int) -> bool {
    &&& 0 <= i < requests.len()
    &&& requests[i].principal == principal
    &&& forall|j: int| 0 <= j < i ==> (#[trigger] requests[j]).principal != principal
}

/// `requests` without the first of them that names `principal`.
pub open spec fn without_request(requests: Seq<FriendView>, principal: Seq<char>) -> Seq<
    FriendView,
> {
    if names_principal(requests, principal) {
        requests.remove(choose|i: int| is_first_naming(requests, principal, i))
    } else {
        requests
    }
}

/// The position of the first of `requests` that names `principal`.
pub fn find_request(requests: &Vec<Friend>, principal: &String) -> (r: Option<usize>)
    ensures
        r is Some <==> names_principal(requests.deep_view(), principal@),
        r matches Some(i) ==> is_first_naming(requests.deep_view(), principal@, i as int)
            && without_request(requests.deep_view(), principal@) == requests.deep_view().remove(
            i as int,
        ),
{
    let mut i: usize = 0;
    while i < requests.len()
        invariant
            i <= requests.len(),
            forall|j: int|
                0 <= j < i ==> (#[trigger] requests.deep_view()[j]).principal != principal@,
        decreases requests.len() - i,
    {
        if requests[i].principal == *principal {
            proof {
                let all = requests.deep_view();
                assert(all[i as int].principal == principal@);
                assert(is_first_naming(all, principal@, i as int));
                let c = choose|c: int| is_first_naming(all, principal@, c);
                assert(c == i) by {
                    if c < i {
                        assert(all[c].principal != principal@);
                    } else if c > i {
                        assert(all[i as int].principal != principal@);
                    }
                }
            }
            return Some(i);
        }
        i += 1;
    }
    None
}

/// Takes the first request that names `principal` out of `requests`, and says
/// whether there was one.
pub fn take_request(requests: &mut Vec<Friend>, principal: &String) -> (r: bool)
    ensures
        r == names_principal(old(requests).deep_view(), principal@),
        final(requests).deep_view() == without_request(old(requests).deep_view(), principal@),
{
    match find_request(requests, principal) {
        Some(i) => {
            let ghost before = requests.deep_view();
            requests.remove(i);
            assert(requests.deep_view() =~= before.remove(i as int));
            true
        },
        None => false,
    }
}

/// How the user `principal` with the profile `p` stands in a request.
pub open spec fn request_naming(principal: Seq<char>, p: ProfileView) -> FriendView {
    FriendView { principal, avatar: p.avatar, username: p.username }
}

/// Whether `sender` may ask `receiver` to be friends: both have a profile, they
/// are not friends yet, and no request between them is pending on the side of
/// `sender`.
pub open spec fn can_request(
    profiles: Map<Seq<char>, ProfileView>,
    sender: Seq<char>,
    receiver: Seq<char>,
) -> bool {
    &&& profiles.contains_key(sender)
    &&& profiles.contains_key(receiver)
    &&& !profiles[sender].friends.contains(receiver)
    &&& !names_principal(profiles[sender].outcoming_fr, receiver)
    &&& !names_principal(profiles[sender].incoming_fr, receiver)
}

/// The profiles after `sender` has asked `receiver` to be friends.
pub open spec fn after_request(
    profiles: Map<Seq<char>, ProfileView>,
    sender: Seq<char>,
    receiver: Seq<char>,
) -> Map<Seq<char>, ProfileView> {
    let s = profiles[sender];
    let r = profiles[receiver];
    profiles.insert(
        sender,
        ProfileView { outcoming_fr: s.outcoming_fr.push(request_naming(receiver, r)), ..s },
    ).insert(
        receiver,
        ProfileView { incoming_fr: r.incoming_fr.push(request_naming(sender, s)), ..r },
    )
}

/// The profiles after `sender` has accepted the request of `receiver`: the
/// request is gone from both sides, and each is a friend of the other.
pub open spec fn after_accept(
    profiles: Map<Seq<char>, ProfileView>,
    sender: Seq<char>,
    receiver: Seq<char>,
) -> Map<Seq<char>, ProfileView> {
    let s = profiles[sender];
    let r = profiles[receiver];
    profiles.insert(
        sender,
        ProfileView {
            incoming_fr: without_request(s.incoming_fr, receiver),
            friends: s.friends.push(receiver),
            ..s
        },
    ).insert(
        receiver,
        ProfileView {
            outcoming_fr: without_request(r.outcoming_fr, sender),
            friends: r.friends.push(sender),
            ..r
        },
    )
}

/// Whether `sender` can take back a request to `receiver`: both have a profile,
/// and the request stands on both sides.
pub open spec fn can_cancel(
    profiles: Map<Seq<char>, ProfileView>,
    sender: Seq<char>,
    receiver: Seq<char>,
) -> bool {
    &&& profiles.contains_key(sender)
    &&& profiles.contains_key(receiver)
    &&& names_principal(profiles[sender].outcoming_fr, receiver)
    &&& names_principal(profiles[receiver].incoming_fr, sender)
}

/// The profiles after `sender` has taken back the request to `receiver`.
pub open spec fn after_cancel(
    profiles: Map<Seq<char>, ProfileView>,
    sender: Seq<char>,
    receiver: Seq<char>,
) -> Map<Seq<char>, ProfileView> {
    let s = profiles[sender];
    let r = profiles[receiver];
    profiles.insert(
        sender,
        ProfileView { outcoming_fr: without_request(s.outcoming_fr, receiver), ..s },
    ).insert(receiver, ProfileView { incoming_fr: without_request(r.incoming_fr, sender), ..r })
}

/// Whether a request from or to `who` is pending in the profile `p`.
pub open spec fn pending_with(p: ProfileView, who: Seq<char>) -> bool {
    names_principal(p.incoming_fr, who) || names_principal(p.outcoming_fr, who)
}

/// At most one of `requests` names `principal`.
pub open spec fn at_most_once(requests: Seq<FriendView>, principal: Seq<char>) -> bool {
    forall|i: int, j: int|
        0 <= i < requests.len() && 0 <= j < requests.len() && (#[trigger] requests[i]).principal
            == principal && (#[trigger] requests[j]).principal == principal ==> i == j
}

/// No request is pending between `sender` and `receiver` but, at most, one
/// from `receiver` to `sender`: the one that `sender` is about to accept. For
/// one user with itself, the profile written last is the one that counts.
pub open spec fn one_request_stands(
    profiles: Map<Seq<char>, ProfileView>,
    sender: Seq<char>,
    receiver: Seq<char>,
) -> bool {
    let s = profiles[sender];
    let r = profiles[receiver];
    if sender == receiver {
        &&& !names_principal(r.incoming_fr, sender)
        &&& at_most_once(r.outcoming_fr, sender)
    } else {
        &&& at_most_once(s.incoming_fr, receiver)
        &&& !names_principal(s.outcoming_fr, receiver)
        &&& !names_principal(r.incoming_fr, sender)
        &&& at_most_once(r.outcoming_fr, sender)
    }
}

/// Taking out the first request that names `principal` leaves no request
/// that was not there; and it leaves none that names `principal` where there
/// was at most one, and one that does where there were more.
pub proof fn lemma_without_request(requests: Seq<FriendView>, principal: Seq<char>)
    ensures
        forall|who: Seq<char>|
            names_principal(without_request(requests, principal), who) ==> names_principal(
                requests,
                who,
            ),
        at_most_once(requests, principal) <==> !names_principal(
            without_request(requests, principal),
            principal,
        ),
{
    let rest = without_request(requests, principal);
    if names_principal(requests, principal) {
        let w = choose|i: int| 0 <= i < requests.len() && (#[trigger] requests[i]).principal
            == principal;
        lemma_has_first(requests, principal, w);
        let c = choose|i: int| is_first_naming(requests, principal, i);
        assert forall|who: Seq<char>| names_principal(rest, who) implies names_principal(
            requests,
            who,
        ) by {
            let k = choose|k: int| 0 <= k < rest.len() && (#[trigger] rest[k]).principal == who;
            let k0 = if k < c { k } else { k + 1 };
            assert(requests[k0].principal == who);
        }
        if at_most_once(requests, principal) && names_principal(rest, principal) {
            let k = choose|k: int| 0 <= k < rest.len() && (#[trigger] rest[k]).principal
                == principal;
            let k0 = if k < c { k } else { k + 1 };
            assert(requests[k0].principal == principal);
            assert(requests[c].principal == principal);
            assert(false);
        }
        if !at_most_once(requests, principal) {
            let (i, j) = choose|i: int, j: int|
                0 <= i < requests.len() && 0 <= j < requests.len() && i != j
                    && (#[trigger] requests[i]).principal == principal
                    && (#[trigger] requests[j]).principal == principal;
            let other = if i == c { j } else { i };
            let k = if other < c { other } else { other - 1 };
            assert(rest[k] == requests[other]);
            assert(rest[k].principal == principal);
        }
    } else {
        assert forall|i: int, j: int|
            0 <= i < requests.len() && 0 <= j < requests.len()
                && (#[trigger] requests[i]).principal == principal
                && (#[trigger] requests[j]).principal == principal implies i == j by {
            assert(false);
        }
    }
}

/// Where some request names `principal`, one of them is the first.
pub proof fn lemma_has_first(requests: Seq<FriendView>, principal: Seq<char>, upto: int)
    requires
        0 <= upto < requests.len(),
        requests[upto].principal == principal,
    ensures
        exists|i: int| is_first_naming(requests, principal, i),
    decreases upto,
{
    if exists|j: int| 0 <= j < upto && (#[trigger] requests[j]).principal == principal {
        let j = choose|j: int| 0 <= j < upto && (#[trigger] requests[j]).principal == principal;
        lemma_has_first(requests, principal, j);
    } else {
        assert(is_first_naming(requests, principal, upto));
    }
}

/// Symmetry: after `sender`, who has a profile as `receiver` has, has accepted
/// the request of `receiver`, each is among the friends of the other; and
/// neither has a request from or to the other pending if and only if no
/// request was pending between them but the one accepted.
pub proof fn lemma_accept_is_symmetric(
    profiles: Map<Seq<char>, ProfileView>,
    sender: Seq<char>,
    receiver: Seq<char>,
)
    requires
        profiles.contains_key(sender),
        profiles.contains_key(receiver),
    ensures
        after_accept(profiles, sender, receiver)[sender].friends.contains(receiver),
        after_accept(profiles, sender, receiver)[receiver].friends.contains(sender),
        one_request_stands(profiles, sender, receiver) <==> !pending_with(
            after_accept(profiles, sender, receiver)[sender],
            receiver,
        ) && !pending_with(after_accept(profiles, sender, receiver)[receiver], sender),
{
    let s = profiles[sender];
    let r = profiles[receiver];
    let after = after_accept(profiles, sender, receiver);
    lemma_without_request(s.incoming_fr, receiver);
    lemma_without_request(r.outcoming_fr, sender);
    assert(s.friends.push(receiver).last() == receiver);
    assert(r.friends.push(sender).last() == sender);
    assert(after[receiver].friends == r.friends.push(sender));
    if sender != receiver {
        assert(after[sender].friends == s.friends.push(receiver));
    }
}

/// Writes the profiles of two users, that of `first` before that of `second`.
fn write_pair(store: &mut Store, first: String, a: Profile, second: String, b: Profile)
    requires
        old(store).wf(),
        a@.principal == first@,
        b@.principal == second@,
    ensures
        final(store).wf(),
        final(store)@.profile_map() == old(store)@.profile_map().insert(first@, a@).insert(
            second@,
            b@,
        ),
        final(store)@ == (StoreView { profiles: final(store)@.profiles, ..old(store)@ }),
{
    let ghost first_written = a@;
    let ghost second_written = b@;
    store.profiles.insert(first, a);
    proof {
        old(store)@.lemma_put_profile(store@, first_written.principal, first_written);
    }
    let ghost middle = store@;
    store.profiles.insert(second, b);
    proof {
        middle.lemma_put_profile(store@, second_written.principal, second_written);
    }
}

/// `sender` asks `receiver` to be friends. The request is recorded on both
/// sides and returned as it stands with `sender`; nothing is recorded, and
/// nothing returned, where [`can_request`] does not hold.
pub fn send_friend_request(store: &mut Store, sender: String, receiver: String) -> (r: Option<
    Friend,
>)
    requires
        old(store).wf(),
    ensures
        final(store).wf(),
        r is Some <==> can_request(old(store)@.profile_map(), sender@, receiver@),
        r matches Some(f) ==> f@ == request_naming(
            receiver@,
            old(store)@.profile_map()[receiver@],
        ) && final(store)@.profile_map() == after_request(
            old(store)@.profile_map(),
            sender@,
            receiver@,
        ),
        r is None ==> final(store)@.profile_map() == old(store)@.profile_map(),
        final(store)@ == (StoreView { profiles: final(store)@.profiles, ..old(store)@ }),
{
    let (mut sender_profile, mut receiver_profile) = match (
        store.profiles.get(&sender),
        store.profiles.get(&receiver),
    ) {
        (Some(s), Some(r)) => (s.clone(), r.clone()),
        _ => {
            return None;
        },
    };
    if has_name(&sender_profile.friends, &receiver) || find_request(
        &sender_profile.outcoming_fr,
        &receiver,
    ).is_some() || find_request(&sender_profile.incoming_fr, &receiver).is_some() {
        return None;
    }
    let incoming = Friend {
        principal: sender.clone(),
        avatar: sender_profile.avatar.clone(),
        username: sender_profile.username.clone(),
    };
    let outgoing = Friend {
        principal: receiver.clone(),
        avatar: receiver_profile.avatar.clone(),
        username: receiver_profile.username.clone(),
    };
    let sent = outgoing.clone();
    let ghost s = sender_profile@;
    let ghost r = receiver_profile@;
    sender_profile.outcoming_fr.push(outgoing);
    receiver_profile.incoming_fr.push(incoming);
    proof {
        assert(sender_profile.outcoming_fr.deep_view() =~= s.outcoming_fr.push(sent@));
        assert(receiver_profile.incoming_fr.deep_view() =~= r.incoming_fr.push(incoming@));
    }
    write_pair(store, sender, sender_profile, receiver, receiver_profile);
    Some(sent)
}

/// `sender` accepts the request of `receiver`: each becomes a friend of the
/// other, and the request is taken off both sides where it stood. Only the two
/// profiles are needed for that; without them nothing is written.
pub fn accept_friend_request(store: &mut Store, sender: String, receiver: String) -> (r: bool)
    requires
        old(store).wf(),
    ensures
        final(store).wf(),
        r == (old(store)@.profile_map().contains_key(sender@) && old(
            store,
        )@.profile_map().contains_key(receiver@)),
        r ==> final(store)@.profile_map() == after_accept(
            old(store)@.profile_map(),
            sender@,
            receiver@,
        ),
        !r ==> final(store)@.profile_map() == old(store)@.profile_map(),
        final(store)@ == (StoreView { profiles: final(store)@.profiles, ..old(store)@ }),
{
    let (mut sender_profile, mut receiver_profile) = match (
        store.profiles.get(&sender),
        store.profiles.get(&receiver),
    ) {
        (Some(s), Some(r)) => (s.clone(), r.clone()),
        _ => {
            return false;
        },
    };
    let ghost s = sender_profile@;
    let ghost r = receiver_profile@;
    take_request(&mut sender_profile.incoming_fr, &receiver);
    take_request(&mut receiver_profile.outcoming_fr, &sender);
    sender_profile.friends.push(receiver.clone());
    receiver_profile.friends.push(sender.clone());
    proof {
        assert(sender_profile.friends.deep_view() =~= s.friends.push(receiver@));
        assert(receiver_profile.friends.deep_view() =~= r.friends.push(sender@));
    }
    write_pair(store, sender, sender_profile, receiver, receiver_profile);
    true
}

/// `sender` takes back the request to `receiver`. The request must stand on
/// both sides; else nothing is written.
pub fn cancel_friend_request(store: &mut Store, sender: String, receiver: String) -> (r: bool)
    requires
        old(store).wf(),
    ensures
        final(store).wf(),
        r == can_cancel(old(store)@.profile_map(), sender@, receiver@),
        r ==> final(store)@.profile_map() == after_cancel(
            old(store)@.profile_map(),
            sender@,
            receiver@,
        ),
        !r ==> final(store)@.profile_map() == old(store)@.profile_map(),
        final(store)@ == (StoreView { profiles: final(store)@.profiles, ..old(store)@ }),
{
    let (mut sender_profile, mut receiver_profile) = match (
        store.profiles.get(&sender),
        store.profiles.get(&receiver),
    ) {
        (Some(s), Some(r)) => (s.clone(), r.clone()),
        _ => {
            return false;
        },
    };
    if !take_request(&mut sender_profile.outcoming_fr, &receiver) {
        return false;
    }
    if !take_request(&mut receiver_profile.incoming_fr, &sender) {
        return false;
    }
    write_pair(store, sender, sender_profile, receiver, receiver_profile);
    true
}

} // verus!
