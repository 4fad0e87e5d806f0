use tunebook::profiles::may_ask;
use tunebook::{
    accept_friend_request, authentication, browse_people, cancel_friend_request, get_friends,
    get_profile, get_profile_count, is_admin, send_friend_request, update_profile, Conflict,
    Friend, Profile, Store,
};

fn p(text: &str) -> String {
    text.to_string()
}

fn join(store: &mut Store, principal: &str, username: &str) -> Profile {
    update_profile(
        store,
        p(principal),
        p(username),
        p("Ennis"),
        p("fiddle"),
        None,
        vec![principal.len() as u8],
    ).unwrap()
}

fn people(names: &[(&str, &str)]) -> Store {
    let mut store = Store::new();
    for (principal, username) in names {
        join(&mut store, principal, username);
    }
    store
}

fn pending(store: &Store, principal: &str) -> (Vec<String>, Vec<String>) {
    let profile = get_profile(store, p(principal)).unwrap();
    (
        profile.incoming_fr.iter().map(|f| f.principal.clone()).collect(),
        profile.outcoming_fr.iter().map(|f| f.principal.clone()).collect(),
    )
}

#[test]
fn a_new_profile_has_no_friends() {
    let mut store = Store::new();
    assert_eq!(authentication(&store, p("a")), None);
    assert_eq!(get_profile(&store, p("a")), None);
    let made = update_profile(
        &mut store,
        p("a"),
        p("Ann"),
        p("Doolin"),
        p("flute"),
        Some(p("hello")),
        vec![1, 2, 3],
    );
    let want = Profile {
        principal: p("a"),
        username: p("Ann"),
        avatar: vec![1, 2, 3],
        pob: p("Doolin"),
        instruments: p("flute"),
        bio: Some(p("hello")),
        friends: vec![],
        incoming_fr: vec![],
        outcoming_fr: vec![],
    };
    assert_eq!(made, Ok(want.clone()));
    assert_eq!(authentication(&store, p("a")), Some(want.clone()));
    assert_eq!(get_profile(&store, p("a")), Some(want));
    assert_eq!(get_profile_count(&store), 1);
}

#[test]
fn updating_a_profile_keeps_friends_and_requests() {
    let mut store = people(&[("a", "Ann"), ("b", "Bob"), ("c", "Cat")]);
    assert!(send_friend_request(&mut store, p("b"), p("a")).is_some());
    assert!(accept_friend_request(&mut store, p("a"), p("b")));
    assert!(send_friend_request(&mut store, p("a"), p("c")).is_some());
    let before = get_profile(&store, p("a")).unwrap();
    let after = update_profile(
        &mut store,
        p("a"),
        p("Anna"),
        p("Cork"),
        p("pipes"),
        Some(p("bio")),
        vec![9],
    ).unwrap();
    assert_eq!(after.principal, "a");
    assert_eq!(after.username, "Anna");
    assert_eq!(after.pob, "Cork");
    assert_eq!(after.instruments, "pipes");
    assert_eq!(after.bio, Some(p("bio")));
    assert_eq!(after.avatar, vec![9]);
    assert_eq!(after.friends, vec![p("b")]);
    assert_eq!(after.friends, before.friends);
    assert_eq!(after.incoming_fr, before.incoming_fr);
    assert_eq!(after.outcoming_fr, before.outcoming_fr);
    assert_eq!(after.outcoming_fr.len(), 1);
    assert_eq!(get_profile(&store, p("a")), Some(after));
    assert_eq!(get_profile_count(&store), 3);
}

#[test]
fn a_taken_username_is_refused_and_nothing_is_written() {
    let mut store = people(&[("a", "Ann"), ("b", "Bob")]);
    let before = get_profile(&store, p("b"));
    let r = update_profile(&mut store, p("b"), p("Ann"), p("x"), p("y"), None, vec![]);
    assert_eq!(r, Err(Conflict::UsernameTaken));
    assert_eq!(get_profile(&store, p("b")), before);
    let r = update_profile(&mut store, p("c"), p("Ann"), p("x"), p("y"), None, vec![]);
    assert_eq!(r, Err(Conflict::UsernameTaken));
    assert_eq!(get_profile(&store, p("c")), None);
    assert_eq!(get_profile_count(&store), 2);
}

#[test]
fn a_conflict_says_which_name_is_taken() {
    assert_eq!(Conflict::UsernameTaken.message("Ann"), "Username 'Ann' is already taken");
    assert_eq!(Conflict::UsernameTaken.message(""), "Username '' is already taken");
}

#[test]
fn a_username_is_compared_with_its_case_and_not_against_oneself() {
    let mut store = people(&[("a", "Ann")]);
    assert!(update_profile(&mut store, p("a"), p("Ann"), p("x"), p("y"), None, vec![]).is_ok());
    assert!(update_profile(&mut store, p("b"), p("ann"), p("x"), p("y"), None, vec![]).is_ok());
    assert_eq!(get_profile_count(&store), 2);
}

#[test]
fn a_request_stands_on_both_sides() {
    let mut store = people(&[("a", "Ann"), ("b", "Bob")]);
    let sent = send_friend_request(&mut store, p("a"), p("b"));
    assert_eq!(sent, Some(Friend { principal: p("b"), avatar: vec![1], username: p("Bob") }));
    let a = get_profile(&store, p("a")).unwrap();
    let b = get_profile(&store, p("b")).unwrap();
    assert_eq!(a.outcoming_fr, vec![Friend { principal: p("b"), avatar: vec![1], username: p("Bob") }]);
    assert_eq!(a.incoming_fr, vec![]);
    assert_eq!(b.incoming_fr, vec![Friend { principal: p("a"), avatar: vec![1], username: p("Ann") }]);
    assert_eq!(b.outcoming_fr, vec![]);
    assert_eq!(a.friends, Vec::<String>::new());
    assert_eq!(b.friends, Vec::<String>::new());
}

#[test]
fn a_request_is_refused_without_profiles_or_when_one_is_pending() {
    let mut store = people(&[("a", "Ann"), ("b", "Bob"), ("c", "Cat")]);
    assert_eq!(send_friend_request(&mut store, p("a"), p("zz")), None);
    assert_eq!(send_friend_request(&mut store, p("zz"), p("a")), None);
    assert!(send_friend_request(&mut store, p("a"), p("b")).is_some());
    let before = (get_profile(&store, p("a")), get_profile(&store, p("b")));
    assert_eq!(send_friend_request(&mut store, p("a"), p("b")), None);
    assert_eq!(send_friend_request(&mut store, p("b"), p("a")), None);
    assert_eq!((get_profile(&store, p("a")), get_profile(&store, p("b"))), before);
    assert!(accept_friend_request(&mut store, p("b"), p("a")));
    assert_eq!(send_friend_request(&mut store, p("a"), p("b")), None);
    assert_eq!(send_friend_request(&mut store, p("b"), p("a")), None);
    assert!(send_friend_request(&mut store, p("a"), p("c")).is_some());
    assert_eq!(get_profile_count(&store), 3);
}

#[test]
fn accepting_makes_friends_on_both_sides() {
    let mut store = people(&[("a", "Ann"), ("b", "Bob")]);
    assert!(send_friend_request(&mut store, p("b"), p("a")).is_some());
    assert!(accept_friend_request(&mut store, p("a"), p("b")));
    let a = get_profile(&store, p("a")).unwrap();
    let b = get_profile(&store, p("b")).unwrap();
    assert_eq!(a.friends, vec![p("b")]);
    assert_eq!(b.friends, vec![p("a")]);
    assert_eq!(pending(&store, "a"), (vec![], vec![]));
    assert_eq!(pending(&store, "b"), (vec![], vec![]));
}

#[test]
fn accepting_needs_the_profiles_only() {
    let mut store = people(&[("a", "Ann"), ("b", "Bob"), ("c", "Cat")]);
    assert!(send_friend_request(&mut store, p("c"), p("a")).is_some());
    assert!(accept_friend_request(&mut store, p("a"), p("b")));
    assert_eq!(get_profile(&store, p("a")).unwrap().friends, vec![p("b")]);
    assert_eq!(get_profile(&store, p("b")).unwrap().friends, vec![p("a")]);
    assert_eq!(pending(&store, "a"), (vec![p("c")], vec![]));
    assert!(!accept_friend_request(&mut store, p("a"), p("zz")));
    assert!(!accept_friend_request(&mut store, p("zz"), p("a")));
    assert_eq!(get_profile(&store, p("a")).unwrap().friends, vec![p("b")]);
}

#[test]
fn a_cancelled_request_is_gone_from_both_sides() {
    let mut store = people(&[("a", "Ann"), ("b", "Bob")]);
    assert!(send_friend_request(&mut store, p("a"), p("b")).is_some());
    assert!(cancel_friend_request(&mut store, p("a"), p("b")));
    assert_eq!(pending(&store, "a"), (vec![], vec![]));
    assert_eq!(pending(&store, "b"), (vec![], vec![]));
    assert!(!cancel_friend_request(&mut store, p("a"), p("b")));
    assert!(send_friend_request(&mut store, p("a"), p("b")).is_some());
}

#[test]
fn cancelling_needs_the_request_on_both_sides() {
    let mut store = people(&[("a", "Ann"), ("b", "Bob"), ("c", "Cat")]);
    assert!(send_friend_request(&mut store, p("a"), p("b")).is_some());
    assert!(send_friend_request(&mut store, p("a"), p("c")).is_some());
    assert!(!cancel_friend_request(&mut store, p("b"), p("a")));
    assert!(!cancel_friend_request(&mut store, p("a"), p("zz")));
    assert!(!cancel_friend_request(&mut store, p("zz"), p("b")));
    assert!(!cancel_friend_request(&mut store, p("c"), p("b")));
    assert_eq!(pending(&store, "a"), (vec![], vec![p("b"), p("c")]));
    assert!(cancel_friend_request(&mut store, p("a"), p("b")));
    assert_eq!(pending(&store, "a"), (vec![], vec![p("c")]));
    assert_eq!(pending(&store, "b"), (vec![], vec![]));
    assert_eq!(pending(&store, "c"), (vec![p("a")], vec![]));
}

#[test]
fn a_request_to_oneself_keeps_the_profile_written_last() {
    let mut store = people(&[("a", "Ann")]);
    let sent = send_friend_request(&mut store, p("a"), p("a"));
    assert_eq!(sent, Some(Friend { principal: p("a"), avatar: vec![1], username: p("Ann") }));
    assert_eq!(pending(&store, "a"), (vec![p("a")], vec![]));
    assert!(!cancel_friend_request(&mut store, p("a"), p("a")));
    assert!(accept_friend_request(&mut store, p("a"), p("a")));
    let a = get_profile(&store, p("a")).unwrap();
    assert_eq!(a.friends, vec![p("a")]);
    assert_eq!(pending(&store, "a"), (vec![p("a")], vec![]));
}

#[test]
fn friends_show_as_their_profiles_are_now() {
    let mut store = people(&[("a", "Ann"), ("b", "Bob"), ("c", "Cat")]);
    assert_eq!(get_friends(&store, p("a")), vec![]);
    assert_eq!(get_friends(&store, p("zz")), vec![]);
    assert!(accept_friend_request(&mut store, p("a"), p("c")));
    assert!(accept_friend_request(&mut store, p("a"), p("b")));
    update_profile(&mut store, p("b"), p("Bobby"), p("x"), p("y"), None, vec![7, 7]).unwrap();
    assert_eq!(
        get_friends(&store, p("a")),
        vec![
            Friend { principal: p("c"), avatar: vec![1], username: p("Cat") },
            Friend { principal: p("b"), avatar: vec![7, 7], username: p("Bobby") },
        ]
    );
    assert_eq!(
        get_friends(&store, p("b")),
        vec![Friend { principal: p("a"), avatar: vec![1], username: p("Ann") }]
    );
}

#[test]
fn browsing_leaves_out_oneself_friends_and_pending_requests() {
    let mut store = people(&[
        ("a", "Ann"),
        ("b", "Bob"),
        ("c", "Cat"),
        ("d", "Dan"),
        ("e", "Eve"),
        ("f", "Fay"),
    ]);
    assert!(accept_friend_request(&mut store, p("a"), p("b")));
    assert!(send_friend_request(&mut store, p("a"), p("c")).is_some());
    assert!(send_friend_request(&mut store, p("d"), p("a")).is_some());
    let (found, total) = browse_people(&store, p("a"), p(""), 0);
    assert_eq!(
        found,
        vec![
            Friend { principal: p("e"), avatar: vec![1], username: p("Eve") },
            Friend { principal: p("f"), avatar: vec![1], username: p("Fay") },
        ]
    );
    assert_eq!(total, 2);
    assert_eq!(browse_people(&store, p("e"), p(""), 0).1, 5);
    assert_eq!(browse_people(&store, p("zz"), p(""), 0), (vec![], 0));
}

#[test]
fn somebody_may_be_asked_who_is_neither_oneself_nor_friend_nor_pending() {
    let person = |principal: &str| Profile {
        principal: p(principal),
        username: p("name"),
        avatar: vec![],
        pob: p(""),
        instruments: p(""),
        bio: None,
        friends: vec![],
        incoming_fr: vec![],
        outcoming_fr: vec![],
    };
    let request = |principal: &str| Friend {
        principal: p(principal),
        avatar: vec![],
        username: p("n"),
    };
    let me = Profile {
        friends: vec![p("friend")],
        incoming_fr: vec![request("asked me")],
        outcoming_fr: vec![request("x"), request("asked by me")],
        ..person("me")
    };
    assert!(may_ask(&me, &person("other"), true));
    assert!(!may_ask(&me, &person("other"), false));
    assert!(!may_ask(&me, &person("me"), true));
    assert!(!may_ask(&me, &person("friend"), true));
    assert!(!may_ask(&me, &person("asked me"), true));
    assert!(!may_ask(&me, &person("asked by me"), true));
    assert!(!may_ask(&me, &person("x"), true));
    assert!(may_ask(&person("other"), &me, true));
    assert!(!may_ask(&me, &person("friend"), false));
}

#[test]
fn browsing_matches_names_whatever_the_case() {
    let store = people(&[("a", "Ann"), ("b", "JOANNA"), ("c", "Hannah"), ("d", "Dan")]);
    let (found, total) = browse_people(&store, p("d"), p("aNN"), 0);
    let names: Vec<String> = found.iter().map(|f| f.username.clone()).collect();
    assert_eq!(names, vec![p("Ann"), p("JOANNA"), p("Hannah")]);
    assert_eq!(total, 3);
    assert_eq!(browse_people(&store, p("d"), p("zz"), 0), (vec![], 0));
    assert_eq!(browse_people(&store, p("d"), p("dan"), 0), (vec![], 0));
}

#[test]
fn browsing_is_cut_into_pages_of_fifteen() {
    let mut store = Store::new();
    for i in 0..35 {
        join(&mut store, &format!("p{:02}", i), &format!("user{:02}", i));
    }
    let (first, total) = browse_people(&store, p("p00"), p("USER"), 0);
    assert_eq!(total, 34);
    assert_eq!(first.len(), 15);
    assert_eq!(first[0].principal, "p01");
    assert_eq!(first[14].principal, "p15");
    let (second, _) = browse_people(&store, p("p00"), p("USER"), 1);
    assert_eq!(second.len(), 15);
    assert_eq!(second[0].principal, "p16");
    let (third, total) = browse_people(&store, p("p00"), p("USER"), 2);
    assert_eq!(total, 34);
    let who: Vec<String> = third.iter().map(|f| f.principal.clone()).collect();
    assert_eq!(who, vec![p("p31"), p("p32"), p("p33"), p("p34")]);
    assert_eq!(browse_people(&store, p("p00"), p("USER"), 3), (vec![], 34));
    assert_eq!(browse_people(&store, p("p00"), p("USER"), -1), (vec![], 34));
}

#[test]
fn the_administrator_is_known_by_principal() {
    assert!(is_admin(&p("zhaxx-r7zkt-gffvf-jvw46-hxhj5-xewo7-cwrq6-nmza3-wpiwz-swnet-vqe")));
    assert!(!is_admin(&p("zhaxx-r7zkt-gffvf-jvw46-hxhj5-xewo7-cwrq6-nmza3-wpiwz-swnet-vqf")));
    assert!(!is_admin(&p("")));
    assert!(!is_admin(&p("a")));
}
