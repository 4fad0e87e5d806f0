use tunebook::forums::{forum_listed, rewritten, RESPONSE_LIMIT};
use tunebook::{
    add_forum, add_post_to_forum, delete_forum, delete_post, forum_posts_page, get_forum_posts,
    get_forum_posts_without_photos, get_forums, get_post_photos, like_post, update_forum_post,
    Forum, ForumData, Store,
};

fn f(text: &str) -> String {
    text.to_string()
}

fn forum(store: &mut Store, now: u64, name: &str, founder: &str) -> u64 {
    add_forum(store, now, f("fp"), f(founder), f(name), f("about"))
}

fn post(store: &mut Store, now: u64, forum_id: u64, author: &str, comment: &str) -> bool {
    add_post_to_forum(store, now, forum_id, f("user"), f(author), f(comment), None)
}

fn post_ids(store: &Store, forum_id: u64) -> Vec<u64> {
    let mut ids = vec![];
    let mut page = 0;
    loop {
        let (posts, _) = forum_posts_page(store, forum_id, page);
        if posts.is_empty() {
            return ids;
        }
        ids.extend(posts.iter().map(|p| p.id));
        page += 1;
    }
}

#[test]
fn a_new_forum_has_its_founder_and_no_posts() {
    let mut store = Store::new();
    let id = add_forum(&mut store, 77, f("fp"), f("Finn"), f("Sessions"), f("talk"));
    assert_eq!(id, 77);
    assert_eq!(
        get_forums(&store, "", 0),
        (
            vec![Forum {
                id: 77,
                poster_principal: f("fp"),
                username: f("Finn"),
                forum_name: f("Sessions"),
                forum_comment: f("talk"),
                principals: vec![f("fp")],
                created_at: 77,
                last_updated_at: None,
                threads: Some(vec![]),
            }],
            1
        )
    );
}

#[test]
fn posts_are_threaded_in_the_order_written_and_go_with_the_forum() {
    let mut store = Store::new();
    let id = forum(&mut store, 100, "Reels", "Finn");
    assert!(post(&mut store, 101, id, "a", "first"));
    assert!(post(&mut store, 102, id, "b", "second"));
    assert_eq!(get_forums(&store, "", 0).0[0].threads, Some(vec![101, 102]));
    assert_eq!(forum_posts_page(&store, id, 0).1, 2);
    assert!(delete_forum(&mut store, id, f("a")));
    assert_eq!(get_forums(&store, "", 0), (vec![], 0));
    assert_eq!(forum_posts_page(&store, id, 0), (vec![], 0));
    assert_eq!(get_post_photos(&store, 101), None);
    assert!(!like_post(&mut store, 101, f("a")));
    assert!(!like_post(&mut store, 102, f("a")));
    assert!(!delete_forum(&mut store, id, f("a")));
}

#[test]
fn deleting_a_forum_leaves_the_posts_of_other_forums() {
    let mut store = Store::new();
    let one = forum(&mut store, 1, "One", "Finn");
    let two = forum(&mut store, 2, "Two", "Finn");
    for i in 0..6 {
        assert!(post(&mut store, 10 + i, if i % 2 == 0 { one } else { two }, "a", "x"));
    }
    // a post whose id is the id of the forum, in the other forum
    assert!(add_post_to_forum(&mut store, one, two, f("user"), f("a"), f("same id"), None));
    assert_eq!(post_ids(&store, one), vec![10, 12, 14]);
    assert_eq!(post_ids(&store, two), vec![1, 11, 13, 15]);
    assert!(delete_forum(&mut store, one, f("whoever")));
    assert_eq!(post_ids(&store, one), Vec::<u64>::new());
    assert_eq!(post_ids(&store, two), vec![1, 11, 13, 15]);
    assert_eq!(get_forums(&store, "", 0).0[0].id, two);
    assert!(!delete_forum(&mut store, 99, f("whoever")));
    assert_eq!(post_ids(&store, two), vec![1, 11, 13, 15]);
}

#[test]
fn a_post_needs_its_forum() {
    let mut store = Store::new();
    assert!(!post(&mut store, 5, 1, "a", "x"));
    assert_eq!(forum_posts_page(&store, 1, 0), (vec![], 0));
    let id = forum(&mut store, 1, "One", "Finn");
    assert!(add_post_to_forum(
        &mut store,
        5,
        id,
        f("Ann"),
        f("a"),
        f("hello"),
        Some(vec![vec![1], vec![2, 3]]),
    ));
    assert_eq!(
        forum_posts_page(&store, id, 0),
        (
            vec![ForumData {
                id: 5,
                forum_id: Some(1),
                username: f("Ann"),
                forum_comment: f("hello"),
                principal: f("a"),
                created_at: 5,
                updated_at: None,
                photos: Some(vec![vec![1], vec![2, 3]]),
                likes: 0,
            }],
            1
        )
    );
}

#[test]
fn forums_are_found_by_name_or_founder() {
    let mut store = Store::new();
    forum(&mut store, 3, "Slow airs", "Finn");
    forum(&mut store, 1, "Reels", "Airy Mary");
    forum(&mut store, 2, "Jigs", "Pat");
    let ids = |r: (Vec<Forum>, i32)| -> (Vec<u64>, i32) {
        (r.0.into_iter().map(|x| x.id).collect(), r.1)
    };
    assert_eq!(ids(get_forums(&store, "AIR", 0)), (vec![1, 3], 2));
    assert_eq!(ids(get_forums(&store, "pat", 0)), (vec![2], 1));
    assert_eq!(ids(get_forums(&store, "", 0)), (vec![1, 2, 3], 3));
    assert_eq!(ids(get_forums(&store, "", 1)), (vec![], 3));
    assert_eq!(ids(get_forums(&store, "polka", 0)), (vec![], 0));
}

#[test]
fn forums_are_cut_into_pages_of_fifteen() {
    let mut store = Store::new();
    for i in 0..17 {
        forum(&mut store, i, "Tunes", "Finn");
    }
    assert_eq!(get_forums(&store, "tunes", 0).0.len(), 15);
    let (second, total) = get_forums(&store, "tunes", 1);
    assert_eq!(total, 17);
    assert_eq!(second.iter().map(|x| x.id).collect::<Vec<u64>>(), vec![15, 16]);
    assert_eq!(get_forums(&store, "tunes", -1), (vec![], 17));
}

#[test]
fn likes_are_counted_without_asking_who() {
    let mut store = Store::new();
    let id = forum(&mut store, 1, "One", "Finn");
    assert!(post(&mut store, 2, id, "a", "x"));
    assert!(like_post(&mut store, 2, f("a")));
    assert!(like_post(&mut store, 2, f("a")));
    assert!(like_post(&mut store, 2, f("b")));
    assert!(!like_post(&mut store, 3, f("a")));
    assert_eq!(forum_posts_page(&store, id, 0).0[0].likes, 3);
    assert_eq!(forum_posts_page(&store, id, 0).0[0].updated_at, None);
}

#[test]
fn only_the_author_rewrites_a_post() {
    let mut store = Store::new();
    let id = forum(&mut store, 1, "One", "Finn");
    assert!(add_post_to_forum(&mut store, 2, id, f("Ann"), f("a"), f("old"), Some(vec![vec![1]])));
    assert!(!update_forum_post(&mut store, 9, 2, f("b"), Some(f("new")), None));
    assert!(!update_forum_post(&mut store, 9, 3, f("a"), Some(f("new")), None));
    let post = forum_posts_page(&store, id, 0).0.remove(0);
    assert_eq!(post.forum_comment, "old");
    assert_eq!(post.updated_at, None);
    assert!(update_forum_post(&mut store, 9, 2, f("a"), Some(f("new")), Some(vec![vec![5], vec![6]])));
    let post = forum_posts_page(&store, id, 0).0.remove(0);
    assert_eq!(post.forum_comment, "new");
    assert_eq!(post.photos, Some(vec![vec![5], vec![6]]));
    assert_eq!(post.updated_at, Some(9));
    assert_eq!(post.created_at, 2);
    assert_eq!(post.id, 2);
    assert_eq!(post.forum_id, Some(id));
    assert_eq!(post.principal, "a");
    assert_eq!(post.username, "Ann");
}

#[test]
fn a_blank_comment_and_an_empty_photo_list_are_not_applied() {
    let mut store = Store::new();
    let id = forum(&mut store, 1, "One", "Finn");
    assert!(add_post_to_forum(&mut store, 2, id, f("Ann"), f("a"), f("old"), Some(vec![vec![1]])));
    assert!(update_forum_post(&mut store, 10, 2, f("a"), Some(f(" \t\n ")), Some(vec![])));
    let post = forum_posts_page(&store, id, 0).0.remove(0);
    assert_eq!(post.forum_comment, "old");
    assert_eq!(post.photos, Some(vec![vec![1]]));
    assert_eq!(post.updated_at, Some(10));
    assert!(update_forum_post(&mut store, 11, 2, f("a"), Some(f("")), None));
    assert_eq!(forum_posts_page(&store, id, 0).0[0].forum_comment, "old");
    assert!(update_forum_post(&mut store, 12, 2, f("a"), None, Some(vec![vec![]])));
    let post = forum_posts_page(&store, id, 0).0.remove(0);
    assert_eq!(post.forum_comment, "old");
    assert_eq!(post.photos, Some(vec![vec![]]));
    assert_eq!(post.updated_at, Some(12));
    assert!(update_forum_post(&mut store, 13, 2, f("a"), Some(f(" new ")), None));
    let post = forum_posts_page(&store, id, 0).0.remove(0);
    assert_eq!(post.forum_comment, " new ");
    assert_eq!(post.photos, Some(vec![vec![]]));
    assert!(update_forum_post(&mut store, 14, 2, f("a"), None, None));
    assert_eq!(forum_posts_page(&store, id, 0).0[0].updated_at, Some(14));
}

#[test]
fn a_post_is_rewritten_by_what_is_given_and_not_blank() {
    let post = ForumData {
        id: 2,
        forum_id: Some(1),
        username: f("Ann"),
        forum_comment: f("old"),
        principal: f("a"),
        created_at: 2,
        updated_at: None,
        photos: Some(vec![vec![1]]),
        likes: 4,
    };
    let kept = ForumData { updated_at: Some(9), ..post.clone() };
    assert_eq!(rewritten(post.clone(), 9, None, false, None), kept);
    assert_eq!(rewritten(post.clone(), 9, None, true, None), kept);
    assert_eq!(rewritten(post.clone(), 9, Some(f("new")), true, Some(vec![])), kept);
    assert_eq!(
        rewritten(post.clone(), 9, Some(f("new")), false, None),
        ForumData { forum_comment: f("new"), ..kept.clone() }
    );
    assert_eq!(
        rewritten(post.clone(), 9, Some(f("  ")), false, None),
        ForumData { forum_comment: f("  "), ..kept.clone() }
    );
    assert_eq!(
        rewritten(post.clone(), 9, Some(f("new")), true, Some(vec![vec![7], vec![]])),
        ForumData { photos: Some(vec![vec![7], vec![]]), ..kept.clone() }
    );
    assert_eq!(
        rewritten(post, 10, Some(f("new")), false, Some(vec![vec![]])),
        ForumData {
            forum_comment: f("new"),
            photos: Some(vec![vec![]]),
            updated_at: Some(10),
            ..kept
        }
    );
}

#[test]
fn a_forum_is_listed_by_its_name_or_its_founder() {
    assert!(forum_listed(true, false));
    assert!(forum_listed(false, true));
    assert!(forum_listed(true, true));
    assert!(!forum_listed(false, false));
}

#[test]
fn a_deleted_post_stays_in_the_threads() {
    let mut store = Store::new();
    let id = forum(&mut store, 1, "One", "Finn");
    assert!(post(&mut store, 2, id, "a", "x"));
    assert!(post(&mut store, 3, id, "a", "y"));
    assert!(delete_post(&mut store, 2, f("somebody")));
    assert!(!delete_post(&mut store, 2, f("somebody")));
    assert_eq!(post_ids(&store, id), vec![3]);
    assert_eq!(get_forums(&store, "", 0).0[0].threads, Some(vec![2, 3]));
}

#[test]
fn posts_are_cut_into_pages_of_ten() {
    let mut store = Store::new();
    let id = forum(&mut store, 1, "One", "Finn");
    let other = forum(&mut store, 2, "Two", "Finn");
    for i in 0..33 {
        assert!(add_post_to_forum(
            &mut store,
            100 + i,
            if i == 5 { other } else { id },
            f("u"),
            f("a"),
            f("x"),
            Some(vec![vec![i as u8]]),
        ));
    }
    let (first, total) = forum_posts_page(&store, id, 0);
    assert_eq!(total, 32);
    assert_eq!(
        first.iter().map(|p| p.id).collect::<Vec<u64>>(),
        vec![100, 101, 102, 103, 104, 106, 107, 108, 109, 110]
    );
    assert_eq!(first[0].photos, Some(vec![vec![0]]));
    let (last, total) = forum_posts_page(&store, id, 3);
    assert_eq!(total, 32);
    assert_eq!(last.iter().map(|p| p.id).collect::<Vec<u64>>(), vec![131, 132]);
    assert_eq!(forum_posts_page(&store, id, 4), (vec![], 32));
    assert_eq!(forum_posts_page(&store, id, -1), (vec![], 32));
    let (bare, total) = get_forum_posts_without_photos(&store, id, 0);
    assert_eq!(total, 32);
    assert_eq!(
        bare.iter().map(|p| p.id).collect::<Vec<u64>>(),
        vec![100, 101, 102, 103, 104, 106, 107, 108, 109, 110]
    );
    assert!(bare.iter().all(|p| p.photos.is_none()));
    assert_eq!(bare[3].forum_comment, "x");
    assert_eq!(bare[3].principal, "a");
    assert_eq!(bare[3].created_at, 103);
    let (bare, _) = get_forum_posts_without_photos(&store, id, 1);
    assert_eq!(bare.len(), 10);
    assert_eq!(bare[0].id, 111);
    let (bare, _) = get_forum_posts_without_photos(&store, id, 3);
    assert_eq!(bare.iter().map(|p| p.id).collect::<Vec<u64>>(), vec![131, 132]);
    assert_eq!(get_forum_posts_without_photos(&store, id, 4), (vec![], 32));
    assert_eq!(get_forum_posts_without_photos(&store, id, -1), (vec![], 32));
    assert_eq!(get_forum_posts_without_photos(&store, other, 0).0.len(), 1);
    assert_eq!(get_forum_posts_without_photos(&store, 9, 0), (vec![], 0));
}

#[test]
fn a_page_of_posts_that_is_too_large_is_refused() {
    let mut store = Store::new();
    let id = forum(&mut store, 1, "One", "Finn");
    assert!(post(&mut store, 2, id, "a", "x"));
    assert_eq!(RESPONSE_LIMIT, 3 * 1024 * 1024);
    let page = forum_posts_page(&store, id, 0);
    assert_eq!(get_forum_posts(&store, id, 0, 0), Ok(page.clone()));
    assert_eq!(get_forum_posts(&store, id, 0, 3_145_728), Ok(page));
    assert_eq!(
        get_forum_posts(&store, id, 0, 3_145_729),
        Err(f("Response size exceeds 3 MB"))
    );
    assert_eq!(get_forum_posts(&store, id, 7, usize::MAX), Err(f("Response size exceeds 3 MB")));
}

#[test]
fn photos_of_a_post_are_read_by_its_id() {
    let mut store = Store::new();
    let id = forum(&mut store, 1, "One", "Finn");
    assert!(add_post_to_forum(&mut store, 2, id, f("u"), f("a"), f("x"), Some(vec![vec![1, 2], vec![]])));
    assert!(post(&mut store, 3, id, "a", "y"));
    assert_eq!(get_post_photos(&store, 2), Some(vec![vec![1, 2], vec![]]));
    assert_eq!(get_post_photos(&store, 3), None);
    assert_eq!(get_post_photos(&store, 4), None);
}

#[test]
fn a_post_with_the_id_of_another_is_written_over_it() {
    let mut store = Store::new();
    let id = forum(&mut store, 1, "One", "Finn");
    assert!(post(&mut store, 2, id, "a", "x"));
    assert!(post(&mut store, 2, id, "b", "y"));
    assert_eq!(get_forums(&store, "", 0).0[0].threads, Some(vec![2, 2]));
    let (posts, total) = forum_posts_page(&store, id, 0);
    assert_eq!(total, 1);
    assert_eq!(posts[0].principal, "b");
}
