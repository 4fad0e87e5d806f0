//! Forums and their posts.
//!
//! A forum lists the ids of its posts in `threads`, in the order in which they
//! were written; each post names its forum in `forum_id`. Deleting a forum
//! deletes every post that names it.

use crate::page::{
    belongs_to_page, lemma_filter_step, lemma_listing_start, lemma_listing_step, listing,
    reported_total, total_of,
};
use crate::store::{Store, StoreView};
use crate::table::values;
use crate::text::{blank, contains_ignoring_case, contains_lowered, is_blank, lowercase, lowercased};
use crate::types::{clone_blobs, Forum, ForumData, ForumDataView, ForumView};
use vstd::prelude::*;

verus! {

/// The largest answer, in bytes as the transport encodes it, that a page of
/// posts may make: three mebibytes.
pub const RESPONSE_LIMIT: usize = 3_145_728;

/// Whether `needle` occurs in the name of the forum or in the name of its
/// founder, letter case aside, as a function value.
pub open spec fn forum_filter(needle: Seq<char>) -> spec_fn(ForumView) -> bool {
    |f: ForumView|
        forum_listed_if(
            contains_ignoring_case(f.forum_name, needle),
            contains_ignoring_case(f.username, needle),
        )
}

/// A forum as a list shows it: with a list of posts, empty where it has none.
pub open spec fn listed_forum(f: ForumView) -> ForumView {
    ForumView {
        threads: Some(
            match f.threads {
                Some(t) => t,
                None => Seq::empty(),
            },
        ),
        ..f
    }
}

/// [`listed_forum`] as a function value.
pub open spec fn show_forum() -> spec_fn(ForumView) -> ForumView {
    |f: ForumView| listed_forum(f)
}

/// Whether a post belongs to the forum `forum_id`, as a function value.
pub open spec fn post_of(forum_id: u64) -> spec_fn(ForumDataView) -> bool {
    |p: ForumDataView| p.forum_id == Some(forum_id)
}

/// Whether an entry of the post table belongs to another forum than
/// `forum_id`, or to none, as a function value.
pub open spec fn post_elsewhere(forum_id: u64) -> spec_fn((u64, ForumDataView)) -> bool {
    |e: (u64, ForumDataView)| e.1.forum_id != Some(forum_id)
}

/// Whether the post `post_id` was written by `principal`.
pub open spec fn wrote_post(
    posts: Map<u64, ForumDataView>,
    post_id: u64,
    principal: Seq<char>,
) -> bool {
    posts.contains_key(post_id) && posts[post_id].principal == principal
}

/// A post as it is, as a function value.
pub open spec fn show_post() -> spec_fn(ForumDataView) -> ForumDataView {
    |p: ForumDataView| p
}

/// A post without its photos, as a function value.
pub open spec fn show_post_bare() -> spec_fn(ForumDataView) -> ForumDataView {
    |p: ForumDataView| ForumDataView { photos: None, ..p }
}

/// The threads of a forum after the post `post_id` was added.
pub open spec fn threads_with(threads: Option<Seq<u64>>, post_id: u64) -> Option<Seq<u64>> {
    match threads {
        Some(t) => Some(t.push(post_id)),
        None => Some(seq![post_id]),
    }
}

/// A post after its author has rewritten it at the time `now`, where
/// `comment_blank` says whether the comment given is blank: a comment that is
/// not blank replaces the comment, photos that are not an empty list replace
/// the photos.
pub open spec fn rewritten_if(
    post: ForumDataView,
    now: u64,
    comment: Option<Seq<char>>,
    comment_blank: bool,
    photos: Option<Seq<Seq<u8>>>,
) -> ForumDataView {
    ForumDataView {
        forum_comment: match comment {
            Some(c) => if comment_blank {
                post.forum_comment
            } else {
                c
            },
            None => post.forum_comment,
        },
        photos: match photos {
            Some(p) => if p.len() == 0 {
                post.photos
            } else {
                Some(p)
            },
            None => post.photos,
        },
        updated_at: Some(now),
        ..post
    }
}

/// A post after its author has rewritten it at the time `now`: a comment that
/// is not blank replaces the comment, photos that are not an empty list
/// replace the photos.
pub open spec fn rewritten_post(
    post: ForumDataView,
    now: u64,
    comment: Option<Seq<char>>,
    photos: Option<Seq<Seq<u8>>>,
) -> ForumDataView {
    rewritten_if(post, now, comment, comment matches Some(c) && is_blank(c), photos)
}

/// Whether a forum is listed for a needle that its name holds if `name_hit`
/// and that the name of its founder holds if `founder_hit`.
pub open spec fn forum_listed_if(name_hit: bool, founder_hit: bool) -> bool {
    name_hit || founder_hit
}

/// A post with one more like. The count stays where it cannot grow.
pub open spec fn liked_post(post: ForumDataView) -> ForumDataView {
    ForumDataView {
        likes: if post.likes < u32::MAX {
            (post.likes + 1) as u32
        } else {
            post.likes
        },
        ..post
    }
}

/// Cascade: no post that is left after the forum `forum_id` was deleted names
/// that forum, so that a listing of its posts is empty; and every post of
/// another forum, or of none, is left.
pub proof fn lemma_cascade(posts: Seq<(u64, ForumDataView)>, forum_id: u64)
    ensures
        forall|i: int|
            0 <= i < posts.filter(post_elsewhere(forum_id)).len() ==> (#[trigger] posts.filter(
                post_elsewhere(forum_id),
            )[i]).1.forum_id != Some(forum_id),
        forall|i: int|
            0 <= i < posts.len() && (#[trigger] posts[i]).1.forum_id != Some(forum_id)
                ==> posts.filter(post_elsewhere(forum_id)).contains(posts[i]),
        values(posts.filter(post_elsewhere(forum_id))).filter(post_of(forum_id)).len() == 0,
{
    let keep = post_elsewhere(forum_id);
    let left = posts.filter(keep);
    assert forall|i: int| 0 <= i < left.len() implies (#[trigger] left[i]).1.forum_id != Some(
        forum_id,
    ) by {
        posts.lemma_filter_pred(keep, i);
    }
    assert forall|i: int|
        0 <= i < posts.len() && (#[trigger] posts[i]).1.forum_id != Some(
            forum_id,
        ) implies left.contains(posts[i]) by {
        posts.lemma_filter_contains(keep, i);
    }
    let of_forum = values(left).filter(post_of(forum_id));
    if of_forum.len() > 0 {
        values(left).lemma_filter_pred(post_of(forum_id), 0);
        values(left).lemma_filter_contains_rev(post_of(forum_id), of_forum[0]);
        let k = choose|k: int| 0 <= k < values(left).len() && values(left)[k] == of_forum[0];
        assert(left[k].1 == values(left)[k]);
    }
}

/// Whether a forum is listed for a needle that its name holds if `name_hit`
/// and that the name of its founder holds if `founder_hit`.
pub fn forum_listed(name_hit: bool, founder_hit: bool) -> (r: bool)
    ensures
        r == forum_listed_if(name_hit, founder_hit),
{
    name_hit || founder_hit
}

/// The post `post` as its author rewrites it at the time `now`, where
/// `comment_blank` says whether the comment given is blank.
pub fn rewritten(
    post: ForumData,
    now: u64,
    comment: Option<String>,
    comment_blank: bool,
    photos: Option<Vec<Vec<u8>>>,
) -> (r: ForumData)
    ensures
        r@ == rewritten_if(post@, now, comment.deep_view(), comment_blank, photos.deep_view()),
{
    let mut post = post;
    match comment {
        Some(new_comment) => {
            if !comment_blank {
                post.forum_comment = new_comment;
            }
        },
        None => {},
    }
    match photos {
        Some(new_photos) => {
            if new_photos.len() > 0 {
                post.photos = Some(new_photos);
            }
        },
        None => {},
    }
    post.updated_at = Some(now);
    post
}

/// One page, of fifteen, of the forums whose name or founder's name holds
/// `search_term`, in the order of their ids, with the number of all such
/// forums.
pub fn get_forums(store: &Store, search_term: &str, page_num: i32) -> (r: (Vec<Forum>, i32))
    ensures
        r.0.deep_view() == listing(
            values(store@.forums),
            forum_filter(search_term@),
            show_forum(),
            page_num as int,
            15,
        ),
        r.1 == reported_total(
            values(store@.forums).filter(forum_filter(search_term@)).len() as int,
        ),
{
    let needle = lowercase(search_term);
    let ghost all = values(store@.forums);
    let ghost keep = forum_filter(search_term@);
    let mut out: Vec<Forum> = Vec::new();
    let mut count: usize = 0;
    let n = store.forums.len();
    let mut i: usize = 0;
    proof {
        lemma_listing_start(all, keep, show_forum(), page_num as int, 15);
        assert(out.deep_view() =~= Seq::<ForumView>::empty());
    }
    while i < n
        invariant
            i <= n,
            n == store@.forums.len(),
            all == values(store@.forums),
            keep == forum_filter(search_term@),
            needle@ == lowercased(search_term@),
            count == all.take(i as int).filter(keep).len(),
            count <= i,
            out.deep_view() == listing(all.take(i as int), keep, show_forum(), page_num as int, 15),
        decreases n - i,
    {
        let forum = store.forums.value_at(i);
        proof {
            lemma_listing_step(all, keep, show_forum(), i as int, page_num as int, 15);
            assert(all[i as int] == forum@);
        }
        let name_hit = contains_lowered(forum.forum_name.as_str(), needle.as_str());
        let founder_hit = contains_lowered(forum.username.as_str(), needle.as_str());
        if forum_listed(name_hit, founder_hit) {
            if belongs_to_page(count, page_num, 15) {
                let mut listed = forum.clone();
                if listed.threads.is_none() {
                    let none: Vec<u64> = Vec::new();
                    assert(none.deep_view() =~= Seq::<u64>::empty());
                    listed.threads = Some(none);
                }
                let ghost before = out.deep_view();
                out.push(listed);
                assert(out.deep_view() =~= before.push(listed@));
            }
            count += 1;
        }
        i += 1;
    }
    assert(all.take(n as int) =~= all);
    (out, total_of(count))
}

/// `principal` founds a forum at the time `now`. The forum gets `now` as its
/// id, which is returned, and has its founder as its only participant and no
/// posts. A forum that had this id is replaced.
pub fn add_forum(
    store: &mut Store,
    now: u64,
    principal: String,
    username: String,
    forum_name: String,
    comment: String,
) -> (id: u64)
    requires
        old(store).wf(),
    ensures
        final(store).wf(),
        id == now,
        final(store)@.forum_map() == old(store)@.forum_map().insert(
            now,
            (ForumView {
                id: now,
                poster_principal: principal@,
                username: username@,
                forum_name: forum_name@,
                forum_comment: comment@,
                principals: seq![principal@],
                created_at: now,
                last_updated_at: None,
                threads: Some(Seq::empty()),
            }),
        ),
        final(store)@ == (StoreView { forums: final(store)@.forums, ..old(store)@ }),
{
    let mut principals: Vec<String> = Vec::new();
    principals.push(principal.clone());
    assert(principals.deep_view() =~= seq![principal@]);
    let threads: Vec<u64> = Vec::new();
    assert(threads.deep_view() =~= Seq::<u64>::empty());
    let forum = Forum {
        id: now,
        poster_principal: principal,
        username,
        forum_name,
        forum_comment: comment,
        principals,
        created_at: now,
        last_updated_at: None,
        threads: Some(threads),
    };
    let ghost written = forum@;
    store.forums.insert(now, forum);
    proof {
        old(store)@.lemma_put_forum(store@, now, written);
    }
    now
}

/// `principal` writes a post in the forum `forum_id` at the time `now`. The
/// post gets `now` as its id, which is added at the end of the forum's
/// threads. Nothing happens, and the answer is `false`, where there is no such
/// forum.
pub fn add_post_to_forum(
    store: &mut Store,
    now: u64,
    forum_id: u64,
    username: String,
    principal: String,
    comment: String,
    photos: Option<Vec<Vec<u8>>>,
) -> (r: bool)
    requires
        old(store).wf(),
    ensures
        final(store).wf(),
        r == old(store)@.forum_map().contains_key(forum_id),
        r ==> final(store)@.forum_map() == old(store)@.forum_map().insert(
            forum_id,
            (ForumView {
                threads: threads_with(old(store)@.forum_map()[forum_id].threads, now),
                ..old(store)@.forum_map()[forum_id]
            }),
        ) && final(store)@.post_map() == old(store)@.post_map().insert(
            now,
            (ForumDataView {
                id: now,
                forum_id: Some(forum_id),
                username: username@,
                forum_comment: comment@,
                principal: principal@,
                created_at: now,
                updated_at: None,
                photos: photos.deep_view(),
                likes: 0,
            }),
        ),
        !r ==> final(store)@.forum_map() == old(store)@.forum_map() && final(store)@.post_map()
            == old(store)@.post_map(),
        final(store)@ == (StoreView {
            forums: final(store)@.forums,
            posts: final(store)@.posts,
            ..old(store)@
        }),
{
    let at = match store.forums.find(&forum_id) {
        Some(at) => at,
        None => {
            return false;
        },
    };
    let mut forum = store.forums.value_at(at).clone();
    let ghost before = forum@;
    let mut threads: Vec<u64> = match forum.threads {
        Some(t) => t,
        None => Vec::new(),
    };
    threads.push(now);
    proof {
        match before.threads {
            Some(t) => {
                assert(threads.deep_view() =~= t.push(now));
            },
            None => {
                assert(threads.deep_view() =~= seq![now]);
            },
        }
    }
    forum.threads = Some(threads);
    let post = ForumData {
        id: now,
        forum_id: Some(forum_id),
        username,
        forum_comment: comment,
        principal,
        created_at: now,
        updated_at: None,
        photos,
        likes: 0,
    };
    let ghost new_forum = forum@;
    let ghost new_post = post@;
    store.forums.replace_at(at, forum);
    proof {
        old(store)@.lemma_put_forum(store@, forum_id, new_forum);
    }
    let ghost middle = store@;
    store.posts.insert(now, post);
    proof {
        middle.lemma_put_post(store@, now, new_post);
    }
    true
}

/// Adds a like to the post `post_id`, whoever asks and however often. Nothing
/// happens, and the answer is `false`, where there is no such post.
pub fn like_post(store: &mut Store, post_id: u64, _principal: String) -> (r: bool)
    requires
        old(store).wf(),
    ensures
        final(store).wf(),
        r == old(store)@.post_map().contains_key(post_id),
        r ==> final(store)@.post_map() == old(store)@.post_map().insert(
            post_id,
            liked_post(old(store)@.post_map()[post_id]),
        ),
        !r ==> final(store)@.post_map() == old(store)@.post_map(),
        final(store)@ == (StoreView { posts: final(store)@.posts, ..old(store)@ }),
{
    let at = match store.posts.find(&post_id) {
        Some(at) => at,
        None => {
            return false;
        },
    };
    let mut post = store.posts.value_at(at).clone();
    if post.likes < u32::MAX {
        post.likes = post.likes + 1;
    }
    let ghost written = post@;
    store.posts.replace_at(at, post);
    proof {
        old(store)@.lemma_put_post(store@, post_id, written);
    }
    true
}

/// The author `principal` rewrites the post `post_id` at the time `now`: see
/// [`rewritten_post`]. Nothing happens, and the answer is `false`, where there
/// is no such post or it is somebody else's.
pub fn update_forum_post(
    store: &mut Store,
    now: u64,
    post_id: u64,
    principal: String,
    comment: Option<String>,
    photos: Option<Vec<Vec<u8>>>,
) -> (r: bool)
    requires
        old(store).wf(),
    ensures
        final(store).wf(),
        r == wrote_post(old(store)@.post_map(), post_id, principal@),
        r ==> final(store)@.post_map() == old(store)@.post_map().insert(
            post_id,
            rewritten_post(
                old(store)@.post_map()[post_id],
                now,
                comment.deep_view(),
                photos.deep_view(),
            ),
        ),
        !r ==> final(store)@.post_map() == old(store)@.post_map(),
        final(store)@ == (StoreView { posts: final(store)@.posts, ..old(store)@ }),
{
    let at = match store.posts.find(&post_id) {
        Some(at) => at,
        None => {
            return false;
        },
    };
    if store.posts.value_at(at).principal != principal {
        return false;
    }
    let comment_blank = match &comment {
        Some(new_comment) => blank(new_comment.as_str()),
        None => false,
    };
    let post = rewritten(store.posts.value_at(at).clone(), now, comment, comment_blank, photos);
    let ghost written = post@;
    store.posts.replace_at(at, post);
    proof {
        old(store)@.lemma_put_post(store@, post_id, written);
    }
    true
}

/// Deletes the forum `forum_id` and, with it, every post that names it.
/// Nothing happens, and the answer is `false`, where there is no such forum.
pub fn delete_forum(store: &mut Store, forum_id: u64, _principal: String) -> (r: bool)
    requires
        old(store).wf(),
    ensures
        final(store).wf(),
        r == old(store)@.forum_map().contains_key(forum_id),
        r ==> final(store)@.forum_map() == old(store)@.forum_map().remove(forum_id),
        r ==> final(store)@.posts == old(store)@.posts.filter(post_elsewhere(forum_id)),
        !r ==> final(store)@.forum_map() == old(store)@.forum_map(),
        !r ==> final(store)@.posts == old(store)@.posts,
        final(store)@ == (StoreView {
            forums: final(store)@.forums,
            posts: final(store)@.posts,
            ..old(store)@
        }),
{
    let at = match store.forums.find(&forum_id) {
        Some(at) => at,
        None => {
            return false;
        },
    };
    store.forums.remove_at(at);
    proof {
        old(store)@.lemma_cut_forum(store@, forum_id);
    }
    let ghost start = store@;
    let ghost all = store@.posts;
    let ghost keep = post_elsewhere(forum_id);
    let ghost j: int = 0;
    let mut i: usize = 0;
    proof {
        if all.len() > 0 {
            lemma_filter_step(all, keep, 0);
        } else {
            all.lemma_filter_len(keep);
            assert(all.take(0) =~= all);
        }
        assert(all =~= all.take(0).filter(keep) + all.skip(0));
    }
    while i < store.posts.len()
        invariant
            store.wf(),
            0 <= j <= all.len(),
            i == all.take(j).filter(keep).len(),
            keep == post_elsewhere(forum_id),
            store@.posts == all.take(j).filter(keep) + all.skip(j),
            store@ == (StoreView { posts: store@.posts, ..start }),
        decreases all.len() - j,
    {
        let ghost before = store@;
        proof {
            lemma_filter_step(all, keep, j);
            assert(before.posts[i as int] == all[j]);
        }
        let named = store.posts.value_at(i).forum_id;
        let hit = match named {
            Some(f) => f == forum_id,
            None => false,
        };
        if hit {
            store.posts.remove_at(i);
            proof {
                before.lemma_cut_post(store@, before.posts[i as int].0);
                assert(store@.posts =~= all.take(j + 1).filter(keep) + all.skip(j + 1));
            }
        } else {
            proof {
                assert(store@.posts =~= all.take(j + 1).filter(keep) + all.skip(j + 1));
            }
            i += 1;
        }
        proof {
            j = j + 1;
        }
    }
    proof {
        assert(all.take(j) =~= all);
        assert(store@.posts =~= all.filter(keep));
    }
    true
}

/// Deletes the post `post_id`, whoever asks. The forum's threads still list
/// its id. Nothing happens, and the answer is `false`, where there is no such
/// post.
pub fn delete_post(store: &mut Store, post_id: u64, _principal: String) -> (r: bool)
    requires
        old(store).wf(),
    ensures
        final(store).wf(),
        r == old(store)@.post_map().contains_key(post_id),
        final(store)@.post_map() == old(store)@.post_map().remove(post_id),
        final(store)@ == (StoreView { posts: final(store)@.posts, ..old(store)@ }),
{
    let removed = store.posts.remove(&post_id).is_some();
    proof {
        old(store)@.lemma_cut_post(store@, post_id);
    }
    removed
}

/// One page, of `size`, of the posts of the forum `forum_id`, in the order of
/// their ids and each as `bare` says, with the number of all its posts.
fn posts_page(store: &Store, forum_id: u64, page_num: i32, size: u32, bare: bool) -> (r: (
    Vec<ForumData>,
    i32,
))
    requires
        size > 0,
    ensures
        r.0.deep_view() == listing(
            values(store@.posts),
            post_of(forum_id),
            if bare {
                show_post_bare()
            } else {
                show_post()
            },
            page_num as int,
            size as int,
        ),
        r.1 == reported_total(values(store@.posts).filter(post_of(forum_id)).len() as int),
{
    let ghost all = values(store@.posts);
    let ghost keep = post_of(forum_id);
    let ghost show = if bare {
        show_post_bare()
    } else {
        show_post()
    };
    let mut out: Vec<ForumData> = Vec::new();
    let mut count: usize = 0;
    let n = store.posts.len();
    let mut i: usize = 0;
    proof {
        lemma_listing_start(all, keep, show, page_num as int, size as int);
        assert(out.deep_view() =~= Seq::<ForumDataView>::empty());
    }
    while i < n
        invariant
            i <= n,
            size > 0,
            n == store@.posts.len(),
            all == values(store@.posts),
            keep == post_of(forum_id),
            show == if bare {
                show_post_bare()
            } else {
                show_post()
            },
            count == all.take(i as int).filter(keep).len(),
            count <= i,
            out.deep_view() == listing(
                all.take(i as int),
                keep,
                show,
                page_num as int,
                size as int,
            ),
        decreases n - i,
    {
        let post = store.posts.value_at(i);
        proof {
            lemma_listing_step(all, keep, show, i as int, page_num as int, size as int);
            assert(all[i as int] == post@);
        }
        let hit = match post.forum_id {
            Some(f) => f == forum_id,
            None => false,
        };
        if hit {
            if belongs_to_page(count, page_num, size) {
                let mut shown = post.clone();
                if bare {
                    shown.photos = None;
                }
                let ghost before = out.deep_view();
                out.push(shown);
                assert(out.deep_view() =~= before.push(shown@));
            }
            count += 1;
        }
        i += 1;
    }
    assert(all.take(n as int) =~= all);
    (out, total_of(count))
}

/// One page, of ten, of the posts of the forum `forum_id`, in the order of
/// their ids, with the number of all its posts. What the answer weighs once
/// encoded is for the caller to measure and to hold against
/// [`get_forum_posts`].
pub fn forum_posts_page(store: &Store, forum_id: u64, page_num: i32) -> (r: (Vec<ForumData>, i32))
    ensures
        r.0.deep_view() == listing(
            values(store@.posts),
            post_of(forum_id),
            show_post(),
            page_num as int,
            10,
        ),
        r.1 == reported_total(values(store@.posts).filter(post_of(forum_id)).len() as int),
{
    posts_page(store, forum_id, page_num, 10, false)
}

/// The page that [`forum_posts_page`] gives, unless it is too large to send:
/// `encoded_size` is the size in bytes of that page as the transport encodes
/// it, and a page of more than [`RESPONSE_LIMIT`] bytes is refused, not cut.
pub fn get_forum_posts(store: &Store, forum_id: u64, page_num: i32, encoded_size: usize) -> (r:
    Result<(Vec<ForumData>, i32), String>)
    ensures
        encoded_size > RESPONSE_LIMIT ==> r is Err && r->Err_0@ == "Response size exceeds 3 MB"@,
        encoded_size <= RESPONSE_LIMIT ==> r is Ok && r->Ok_0.0.deep_view() == listing(
            values(store@.posts),
            post_of(forum_id),
            show_post(),
            page_num as int,
            10,
        ) && r->Ok_0.1 == reported_total(
            values(store@.posts).filter(post_of(forum_id)).len() as int,
        ),
{
    if encoded_size > RESPONSE_LIMIT {
        return Err("Response size exceeds 3 MB".to_owned());
    }
    Ok(forum_posts_page(store, forum_id, page_num))
}

/// One page, of ten, of the posts of the forum `forum_id` without their
/// photos, in the order of their ids, with the number of all its posts.
pub fn get_forum_posts_without_photos(store: &Store, forum_id: u64, page_num: i32) -> (r: (
    Vec<ForumData>,
    i32,
))
    ensures
        r.0.deep_view() == listing(
            values(store@.posts),
            post_of(forum_id),
            show_post_bare(),
            page_num as int,
            10,
        ),
        r.1 == reported_total(values(store@.posts).filter(post_of(forum_id)).len() as int),
{
    posts_page(store, forum_id, page_num, 10, true)
}

/// The photos of the post `post_id`: none where there is no such post.
pub fn get_post_photos(store: &Store, post_id: u64) -> (r: Option<Vec<Vec<u8>>>)
    requires
        store.wf(),
    ensures
        r.deep_view() == if store@.post_map().contains_key(post_id) {
            store@.post_map()[post_id].photos
        } else {
            None
        },
{
    match store.posts.get(&post_id) {
        Some(post) => match &post.photos {
            Some(photos) => Some(clone_blobs(photos)),
            None => None,
        },
        None => None,
    }
}

} // verus!
