use tunebook::tunes::{tune_selected, WEEK};
use tunebook::{
    add_tune, filter_tunes, get_new_tunes_from_friends, get_original_tune, get_original_tune_list,
    get_tune_count, get_user_tune, get_user_tune_list, remove_tune, update_tune, Store, Tuneinfo,
};

fn t(text: &str) -> String {
    text.to_string()
}

fn reel(n: u32) -> String {
    format!("X:{}\nT:Reel\nR: reel\nK:Dmaj\nabc|", n)
}

fn book(titles: &[&str]) -> Store {
    let mut store = Store::new();
    for (i, title) in titles.iter().enumerate() {
        assert!(add_tune(&mut store, 100 + i as u64, t("p1"), t(title), reel(i as u32), false, None));
    }
    store
}

#[test]
fn added_tune_is_listed_for_its_keeper() {
    let mut store = Store::new();
    assert!(add_tune(&mut store, 10, t("p1"), t("Reel1"), t("abc"), false, Some(t("ann"))));
    let (list, count) = get_user_tune_list(&store, t("p1"), -1);
    assert_eq!(
        list,
        vec![Tuneinfo { title: t("Reel1"), tune_data: t("abc"), username: Some(t("ann")) }]
    );
    assert_eq!(count, 1);
    assert_eq!(get_tune_count(&store), 1);
}

#[test]
fn second_keeper_joins_the_same_tune() {
    let mut store = Store::new();
    assert!(add_tune(&mut store, 10, t("p1"), t("Reel1"), t("abc"), false, None));
    assert!(add_tune(&mut store, 20, t("p2"), t("Reel1"), t("abd"), true, None));
    assert_eq!(get_tune_count(&store), 1);
    let tunes = get_new_tunes_from_friends(&store, 20, t("p1"));
    assert_eq!(tunes.len(), 1);
    assert_eq!(tunes[0].principals, vec![t("p1"), t("p2")]);
    assert_eq!(tunes[0].title, "Reel1");
    assert_eq!(tunes[0].tune_data, "abd");
    assert_eq!(tunes[0].timestamp, 20);
    assert!(tunes[0].origin);
    assert_eq!(tunes[0].username, Some(t("Tunebook")));
    assert_eq!(get_user_tune_list(&store, t("p2"), -1).1, 1);
}

#[test]
fn adding_a_tune_twice_changes_nothing() {
    let mut store = Store::new();
    assert!(add_tune(&mut store, 10, t("p1"), t("Reel1"), t("abc"), false, None));
    assert!(!add_tune(&mut store, 20, t("p1"), t("Reel1"), t("other"), true, Some(t("x"))));
    let tunes = get_new_tunes_from_friends(&store, 20, t("p1"));
    assert_eq!(tunes.len(), 1);
    assert_eq!(tunes[0].tune_data, "abc");
    assert_eq!(tunes[0].timestamp, 10);
    assert_eq!(tunes[0].principals, vec![t("p1")]);
}

#[test]
fn titles_are_unique_and_case_sensitive() {
    let mut store = Store::new();
    assert!(add_tune(&mut store, 1, t("p1"), t("Reel"), t("a"), false, None));
    assert!(add_tune(&mut store, 2, t("p2"), t("Reel"), t("b"), false, None));
    assert!(add_tune(&mut store, 3, t("p1"), t("reel"), t("c"), false, None));
    assert_eq!(get_tune_count(&store), 2);
    let (titles, total) = get_original_tune_list(&store, t("p1"), 0);
    assert_eq!(titles, vec![t("Reel"), t("reel")]);
    assert_eq!(total, 2);
}

#[test]
fn tunes_are_listed_in_the_byte_order_of_their_titles() {
    let store = book(&["b", "Z", "a", "\u{e9}", "B", "ab", ""]);
    let (titles, total) = get_original_tune_list(&store, t("p1"), 0);
    assert_eq!(titles, vec![t(""), t("B"), t("Z"), t("a"), t("ab"), t("b"), t("\u{e9}")]);
    assert_eq!(total, 7);
}

#[test]
fn original_tune_list_is_cut_into_pages_of_fifteen() {
    let names: Vec<String> = (0..32).map(|i| format!("tune{:02}", i)).collect();
    let refs: Vec<&str> = names.iter().map(|n| n.as_str()).collect();
    let store = book(&refs);
    let (first, total) = get_original_tune_list(&store, t("p1"), 0);
    assert_eq!(total, 32);
    assert_eq!(first, names[0..15].to_vec());
    assert_eq!(get_original_tune_list(&store, t("p1"), 1).0, names[15..30].to_vec());
    assert_eq!(get_original_tune_list(&store, t("p1"), 2).0, names[30..32].to_vec());
    assert_eq!(get_original_tune_list(&store, t("p1"), 3), (vec![], 32));
    assert_eq!(get_original_tune_list(&store, t("p1"), -1), (vec![], 32));
    assert_eq!(get_original_tune_list(&store, t("p1"), i32::MAX), (vec![], 32));
    assert_eq!(get_original_tune_list(&store, t("p1"), i32::MIN), (vec![], 32));
}

#[test]
fn original_tune_is_found_by_title() {
    let store = book(&["Reel1"]);
    assert_eq!(get_original_tune(&store, t("Reel1")), reel(0));
    assert_eq!(get_original_tune(&store, t("reel1")), "Tune not found");
    assert_eq!(get_original_tune(&Store::new(), t("Reel1")), "Tune not found");
}

#[test]
fn user_tune_list_is_cut_into_pages_of_eight() {
    let mut store = Store::new();
    for i in 0..20 {
        let who = if i % 2 == 0 { "p1" } else { "p2" };
        assert!(add_tune(&mut store, i, t(who), format!("tune{:02}", i), t("x"), false, None));
    }
    let (all, total) = get_user_tune_list(&store, t("p1"), -1);
    assert_eq!(total, 10);
    let titles: Vec<String> = all.iter().map(|i| i.title.clone()).collect();
    let want: Vec<String> = (0..10).map(|i| format!("tune{:02}", 2 * i)).collect();
    assert_eq!(titles, want);
    let (first, total) = get_user_tune_list(&store, t("p1"), 0);
    assert_eq!(total, 10);
    assert_eq!(first, all[0..8].to_vec());
    let (second, total) = get_user_tune_list(&store, t("p1"), 1);
    assert_eq!(total, 10);
    assert_eq!(second, all[8..10].to_vec());
    assert_eq!(get_user_tune_list(&store, t("p1"), 2), (vec![], 10));
    assert_eq!(get_user_tune_list(&store, t("p1"), -2), (vec![], 10));
    assert_eq!(get_user_tune_list(&store, t("nobody"), -1), (vec![], 0));
    assert_eq!(get_user_tune_list(&store, t("nobody"), 0), (vec![], 0));
}

#[test]
fn user_tune_is_empty_for_strangers_and_missing_titles() {
    let store = book(&["Reel1"]);
    assert_eq!(get_user_tune(&store, t("p1"), t("Reel1")), reel(0));
    assert_eq!(get_user_tune(&store, t("p2"), t("Reel1")), "");
    assert_eq!(get_user_tune(&store, t("p1"), t("Other")), "");
}

#[test]
fn removing_the_last_keeper_deletes_the_tune() {
    let mut store = Store::new();
    assert!(add_tune(&mut store, 1, t("p1"), t("Reel1"), t("a"), false, None));
    assert!(add_tune(&mut store, 2, t("p2"), t("Reel1"), t("a"), false, None));
    assert!(!remove_tune(&mut store, t("p3"), t("Reel1")));
    assert!(!remove_tune(&mut store, t("p1"), t("Other")));
    assert!(remove_tune(&mut store, t("p1"), t("Reel1")));
    let tunes = get_new_tunes_from_friends(&store, 2, t("x"));
    assert_eq!(tunes.len(), 1);
    assert_eq!(tunes[0].principals, vec![t("p2")]);
    assert_eq!(tunes[0].timestamp, 2);
    assert!(!remove_tune(&mut store, t("p1"), t("Reel1")));
    assert!(remove_tune(&mut store, t("p2"), t("Reel1")));
    assert_eq!(get_tune_count(&store), 0);
    assert_eq!(get_original_tune(&store, t("Reel1")), "Tune not found");
}

#[test]
fn update_replaces_the_text_and_keeps_the_keepers() {
    let mut store = Store::new();
    assert!(add_tune(&mut store, 1, t("p1"), t("Reel1"), t("a"), false, Some(t("ann"))));
    assert!(add_tune(&mut store, 2, t("p2"), t("Reel1"), t("a"), false, Some(t("ann"))));
    assert!(!update_tune(&mut store, 3, t("p3"), t("Reel1"), t("b"), true, None));
    assert!(!update_tune(&mut store, 3, t("p1"), t("Nope"), t("b"), true, None));
    assert_eq!(get_original_tune(&store, t("Reel1")), "a");
    assert!(update_tune(&mut store, 4, t("p2"), t("Reel1"), t("b"), true, None));
    let tunes = get_new_tunes_from_friends(&store, 4, t("x"));
    assert_eq!(tunes.len(), 1);
    assert_eq!(tunes[0].tune_data, "b");
    assert_eq!(tunes[0].timestamp, 4);
    assert!(tunes[0].origin);
    assert_eq!(tunes[0].username, Some(t("Tunebook")));
    assert_eq!(tunes[0].principals, vec![t("p1"), t("p2")]);
    assert_eq!(get_tune_count(&store), 1);
}

#[test]
fn new_tunes_are_those_of_the_last_week() {
    let mut store = Store::new();
    let now = 10 * WEEK;
    assert_eq!(WEEK, 604_800_000_000_000);
    assert!(add_tune(&mut store, now - WEEK, t("p1"), t("a-old"), t("x"), false, None));
    assert!(add_tune(&mut store, now - WEEK + 1, t("p1"), t("b-new"), t("x"), false, None));
    assert!(add_tune(&mut store, now, t("p2"), t("c-now"), t("x"), false, None));
    assert!(add_tune(&mut store, now + 1, t("p2"), t("d-later"), t("x"), false, None));
    let fresh = get_new_tunes_from_friends(&store, now, t("nobody"));
    let titles: Vec<String> = fresh.iter().map(|tune| tune.title.clone()).collect();
    assert_eq!(titles, vec![t("b-new"), t("c-now")]);
    assert_eq!(get_new_tunes_from_friends(&store, 0, t("p1")), vec![]);
}

#[test]
fn filter_finds_titles_whatever_the_case() {
    let store = book(&["The Kesh", "Morrison's Jig", "Out on the Ocean", "kesh again"]);
    let (found, total) = filter_tunes(&store, "KESH", "all", "all", 0).unwrap();
    let titles: Vec<String> = found.iter().map(|i| i.title.clone()).collect();
    assert_eq!(titles, vec![t("The Kesh"), t("kesh again")]);
    assert_eq!(total, 2);
    assert_eq!(filter_tunes(&store, "", "all", "all", 0).unwrap().1, 4);
    assert_eq!(filter_tunes(&store, "polka", "all", "all", 0).unwrap(), (vec![], 0));
}

#[test]
fn filter_reads_rhythm_and_key_at_the_start_of_a_line() {
    let mut store = Store::new();
    let jig = "X:1\nT:Kesh\nR:jig\nK:Gmaj\n|:G3 GAB:|";
    let reel = "X:2\nT:Drowsy\nR:   reel\nK: Edor\n|:E2BE dEBE:|";
    let odd = "X:3\nT:Odd\nN:R: jig in a note\n K:Gmaj\nabc";
    assert!(add_tune(&mut store, 1, t("p"), t("Kesh"), t(jig), true, None));
    assert!(add_tune(&mut store, 2, t("p"), t("Drowsy Maggie"), t(reel), true, None));
    assert!(add_tune(&mut store, 3, t("p"), t("Odd one"), t(odd), true, None));
    let titles = |r: Option<(Vec<Tuneinfo>, i32)>| -> (Vec<String>, i32) {
        let (list, total) = r.unwrap();
        (list.into_iter().map(|i| i.title).collect(), total)
    };
    assert_eq!(titles(filter_tunes(&store, "", "jig", "all", 0)), (vec![t("Kesh")], 1));
    assert_eq!(titles(filter_tunes(&store, "", "reel", "all", 0)), (vec![t("Drowsy Maggie")], 1));
    assert_eq!(titles(filter_tunes(&store, "", "Jig", "all", 0)), (vec![], 0));
    assert_eq!(titles(filter_tunes(&store, "", "all", "G", 0)), (vec![t("Kesh")], 1));
    assert_eq!(titles(filter_tunes(&store, "", "all", "Edor", 0)), (vec![t("Drowsy Maggie")], 1));
    assert_eq!(titles(filter_tunes(&store, "", "jig", "Edor", 0)), (vec![], 0));
    assert_eq!(titles(filter_tunes(&store, "drowsy", "reel", "E", 0)), (vec![t("Drowsy Maggie")], 1));
    assert_eq!(titles(filter_tunes(&store, "kesh", "reel", "all", 0)), (vec![], 0));
    assert_eq!(
        titles(filter_tunes(&store, "", "(jig|reel)", "all", 0)),
        (vec![t("Drowsy Maggie"), t("Kesh")], 2)
    );
}

#[test]
fn filter_refuses_a_pattern_that_does_not_compile() {
    let store = book(&["Reel1"]);
    assert_eq!(filter_tunes(&store, "", "(", "all", 0), None);
    assert_eq!(filter_tunes(&store, "", "all", "[", 0), None);
    assert_eq!(filter_tunes(&store, "", "reel", "[", 0), None);
    assert_eq!(filter_tunes(&store, "no such title", "(", "all", 0), None);
    assert_eq!(filter_tunes(&Store::new(), "", "(", "all", 0), None);
    assert_eq!(filter_tunes(&Store::new(), "", "all", "a{2,1}", 0), None);
    assert!(filter_tunes(&store, "(", "all", "all", 0).is_some());
}

#[test]
fn filter_answers_for_every_pattern_that_compiles() {
    let store = book(&["Reel1"]);
    assert_eq!(filter_tunes(&Store::new(), "", "reel", "D", 0), Some((vec![], 0)));
    assert_eq!(filter_tunes(&store, "", "polka", "all", 0), Some((vec![], 0)));
    assert_eq!(filter_tunes(&store, "", "all", "C", 3), Some((vec![], 0)));
    assert_eq!(filter_tunes(&store, "", "", "", 0).unwrap().1, 1);
    assert_eq!(filter_tunes(&store, "", "r.{2}l", "D(maj|min)", 0).unwrap().1, 1);
    // the word that puts a filter out of use is `all` in lowercase, nothing else
    assert_eq!(filter_tunes(&store, "", "All", "all", 0), Some((vec![], 0)));
    assert_eq!(filter_tunes(&store, "", "all", "all ", 0), Some((vec![], 0)));
}

#[test]
fn filter_counts_all_matches_and_returns_one_page() {
    let mut store = Store::new();
    for i in 0..40 {
        let body = if i % 2 == 0 { "R:reel\nK:D" } else { "R:jig\nK:D" };
        assert!(add_tune(&mut store, i, t("p"), format!("tune{:02}", i), t(body), true, None));
    }
    let (first, total) = filter_tunes(&store, "TUNE", "reel", "D", 0).unwrap();
    assert_eq!(total, 20);
    assert_eq!(first.len(), 15);
    assert_eq!(first[0].title, "tune00");
    assert_eq!(first[14].title, "tune28");
    let (second, total) = filter_tunes(&store, "TUNE", "reel", "D", 1).unwrap();
    assert_eq!(total, 20);
    let titles: Vec<String> = second.iter().map(|i| i.title.clone()).collect();
    assert_eq!(titles, vec![t("tune30"), t("tune32"), t("tune34"), t("tune36"), t("tune38")]);
    assert_eq!(filter_tunes(&store, "TUNE", "reel", "D", 2).unwrap(), (vec![], 20));
    assert_eq!(filter_tunes(&store, "TUNE", "reel", "D", -1).unwrap(), (vec![], 20));
}

#[test]
fn filter_verdicts_are_joined() {
    assert!(tune_selected(true, Some(true), Some(true)));
    assert!(tune_selected(true, None, None));
    assert!(tune_selected(true, None, Some(true)));
    assert!(tune_selected(true, Some(true), None));
    assert!(!tune_selected(false, Some(true), Some(true)));
    assert!(!tune_selected(false, None, None));
    assert!(!tune_selected(true, Some(false), Some(true)));
    assert!(!tune_selected(true, Some(true), Some(false)));
    assert!(!tune_selected(true, Some(false), None));
    assert!(!tune_selected(true, None, Some(false)));
}
