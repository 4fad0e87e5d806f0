//! The tune book: tunes shared by title, each with the users who keep it.

use crate::page::{
    belongs_to_page, lemma_filter_step, lemma_listing_start, lemma_listing_step,
    lemma_selection_start, lemma_selection_step, listing, page_bounds, page_window, reported_total,
    selection, total_of,
};
use crate::pattern::{compile, found_in, pattern_compiles, pattern_matches, Pattern};
use crate::store::{Store, StoreView};
use crate::table::{lemma_count, lemma_map_at, lemma_one_position, values};
use crate::text::{
    contains_ignoring_case, contains_lowered, has_name, joined, lowercase, lowercased, same_text,
};
use crate::types::{Tune, TuneView, Tuneinfo, TuneinfoView};
use vstd::prelude::*;

verus! {

/// What a tune list shows of the tune `t`.
pub open spec fn info_of(t: TuneView) -> TuneinfoView {
    TuneinfoView { title: t.title, tune_data: t.tune_data, username: t.username }
}

/// [`info_of`] as a function value.
pub open spec fn show_info() -> spec_fn(TuneView) -> TuneinfoView {
    |t: TuneView| info_of(t)
}

/// The pattern that finds the rhythm `rithm` in a tune's text: a line that
/// starts with `R:`, then white space, then `rithm`.
pub open spec fn rhythm_line(rithm: Seq<char>) -> Seq<char> {
    "(?m)^R:\\s*"@ + rithm
}

/// The pattern that finds the key `key` in a tune's text: a line that starts
/// with `K:`, then white space, then `key`.
pub open spec fn key_line(key: Seq<char>) -> Seq<char> {
    "(?m)^K:\\s*"@ + key
}

/// Whether the tune `t` passes the three filters: `sub` occurs in its title,
/// letter case aside; its text names the rhythm `rithm`; its text names the
/// key `key`. The word `all` for a rhythm or a key lets every tune pass.
pub open spec fn tune_matches(
    t: TuneView,
    sub: Seq<char>,
    rithm: Seq<char>,
    key: Seq<char>,
) -> bool {
    &&& contains_ignoring_case(t.title, sub)
    &&& (rithm == "all"@ || pattern_matches(rhythm_line(rithm), t.tune_data))
    &&& (key == "all"@ || pattern_matches(key_line(key), t.tune_data))
}

/// [`tune_matches`] as a function value.
pub open spec fn tune_filter(sub: Seq<char>, rithm: Seq<char>, key: Seq<char>) -> spec_fn(
    TuneView,
) -> bool {
    |t: TuneView| tune_matches(t, sub, rithm, key)
}

/// Whether `principal` keeps the tune `title`.
pub open spec fn keeps(
    tunes: Map<Seq<char>, TuneView>,
    principal: Seq<char>,
    title: Seq<char>,
) -> bool {
    tunes.contains_key(title) && tunes[title].principals.contains(principal)
}

/// The title of a tune, as a function value.
pub open spec fn show_title() -> spec_fn(TuneView) -> Seq<char> {
    |t: TuneView| t.title
}

/// Whether `principal` keeps the tune, as a function value.
pub open spec fn kept_by(principal: Seq<char>) -> spec_fn(TuneView) -> bool {
    |t: TuneView| t.principals.contains(principal)
}

/// Whether a name is another than `principal`, as a function value.
pub open spec fn other_than(principal: Seq<char>) -> spec_fn(Seq<char>) -> bool {
    |p: Seq<char>| p != principal
}

/// For how long a tune counts as new: seven days, in nanoseconds.
pub const WEEK: u64 = 604_800_000_000_000;

/// Whether a tune was written less than a week before `now`, as a function
/// value. A tune stamped after `now` is not new.
pub open spec fn written_lately(now: u64) -> spec_fn(TuneView) -> bool {
    |t: TuneView| t.timestamp <= now && now - t.timestamp < WEEK
}

/// The name under which a tune is filed: the one given, or `Tunebook`.
pub open spec fn filed_under(username: Option<Seq<char>>) -> Option<Seq<char>> {
    match username {
        Some(name) => Some(name),
        None => Some("Tunebook"@),
    }
}

/// The tunes after `principal` has added the tune `title`: a new tune with
/// `principal` as its only keeper, or the tune that was there with the text,
/// origin and name given and `principal` added to its keepers.
pub open spec fn after_add_tune(
    tunes: Map<Seq<char>, TuneView>,
    now: u64,
    principal: Seq<char>,
    title: Seq<char>,
    tune_data: Seq<char>,
    origin: bool,
    username: Option<Seq<char>>,
) -> Map<Seq<char>, TuneView> {
    let keepers = if tunes.contains_key(title) {
        tunes[title].principals
    } else {
        Seq::empty()
    };
    tunes.insert(
        title,
        TuneView {
            origin,
            title,
            tune_data,
            timestamp: now,
            principals: keepers.push(principal),
            username: filed_under(username),
        },
    )
}

/// The tunes after `principal` has given up the tune `title`: the tune without
/// `principal` among its keepers, or no such tune where nobody else keeps it.
pub open spec fn after_remove_tune(
    tunes: Map<Seq<char>, TuneView>,
    principal: Seq<char>,
    title: Seq<char>,
) -> Map<Seq<char>, TuneView> {
    let rest = tunes[title].principals.filter(other_than(principal));
    if rest.len() == 0 {
        tunes.remove(title)
    } else {
        tunes.insert(title, TuneView { principals: rest, ..tunes[title] })
    }
}

/// Uniqueness: in a well-formed store no two tunes have the same title.
pub proof fn lemma_titles_unique(store: StoreView, i: int, j: int)
    requires
        store.wf(),
        0 <= i < store.tunes.len(),
        0 <= j < store.tunes.len(),
        i != j,
    ensures
        store.tunes[i].1.title != store.tunes[j].1.title,
{
    lemma_map_at::<String, TuneView>(store.tunes, i);
    lemma_map_at::<String, TuneView>(store.tunes, j);
    if store.tunes[i].0 == store.tunes[j].0 {
        lemma_one_position::<String, TuneView>(store.tunes, i, j);
    }
}

/// What a tune list shows of `tune`.
pub fn tune_info(tune: &Tune) -> (r: Tuneinfo)
    ensures
        r@ == info_of(tune@),
{
    Tuneinfo {
        title: tune.title.clone(),
        tune_data: tune.tune_data.clone(),
        username: tune.username.clone(),
    }
}

/// Whether a tune is selected, given what the three filters say of it: the
/// title filter always has its say; the rhythm and the key filter say nothing
/// where they are not in use, and then do not stand in the way.
pub fn tune_selected(title_hit: bool, rhythm_hit: Option<bool>, key_hit: Option<bool>) -> (r:
    bool)
    ensures
        r == (title_hit && rhythm_hit != Some(false) && key_hit != Some(false)),
{
    let rhythm_passes = match rhythm_hit {
        Some(hit) => hit,
        None => true,
    };
    let key_passes = match key_hit {
        Some(hit) => hit,
        None => true,
    };
    title_hit && rhythm_passes && key_passes
}

/// The pattern of a filter that is in use, compiled: `start` followed by
/// `word`. The word `all` puts the filter out of use, and then there is no
/// pattern. The answer is `None` where the pattern does not compile.
fn line_filter(start: &str, word: &str) -> (r: Option<Option<Pattern>>)
    ensures
        r is Some <==> word@ == "all"@ || pattern_compiles(start@ + word@),
        r matches Some(filter) ==> (filter is None <==> word@ == "all"@),
        r matches Some(Some(pattern)) ==> pattern@ == start@ + word@,
{
    if same_text(word, "all") {
        return Some(None);
    }
    let text = joined(start, word);
    match compile(text.as_str()) {
        Some(pattern) => Some(Some(pattern)),
        None => None,
    }
}

/// Whether the filter `filter` lets a tune with the text `tune_data` pass:
/// nothing where the filter is not in use.
fn line_verdict(filter: &Option<Pattern>, tune_data: &str) -> (r: Option<bool>)
    ensures
        r == match *filter {
            Some(pattern) => Some(pattern_matches(pattern@, tune_data@)),
            None => None::<bool>,
        },
{
    match filter {
        Some(pattern) => Some(found_in(pattern, tune_data)),
        None => None,
    }
}

/// One page, of fifteen, of the tunes that pass the title, rhythm and key
/// filters, in the order of their titles, with the number of all tunes that
/// pass. There is an answer exactly where each of the rhythm and key filters
/// is out of use or gives a pattern that compiles.
pub fn filter_tunes(store: &Store, sub_title: &str, rithm: &str, key: &str, page_num: i32) -> (r:
    Option<(Vec<Tuneinfo>, i32)>)
    ensures
        r is Some <==> (rithm@ == "all"@ || pattern_compiles(rhythm_line(rithm@))) && (key@
            == "all"@ || pattern_compiles(key_line(key@))),
        r matches Some(found) ==> found.0.deep_view() == listing(
            values(store@.tunes),
            tune_filter(sub_title@, rithm@, key@),
            show_info(),
            page_num as int,
            15,
        ),
        r matches Some(found) ==> found.1 == reported_total(
            values(store@.tunes).filter(tune_filter(sub_title@, rithm@, key@)).len() as int,
        ),
{
    let rhythm_filter = match line_filter("(?m)^R:\\s*", rithm) {
        Some(filter) => filter,
        None => {
            return None;
        },
    };
    let key_filter = match line_filter("(?m)^K:\\s*", key) {
        Some(filter) => filter,
        None => {
            return None;
        },
    };
    let needle = lowercase(sub_title);
    let ghost all = values(store@.tunes);
    let ghost keep = tune_filter(sub_title@, rithm@, key@);
    let mut out: Vec<Tuneinfo> = Vec::new();
    let mut count: usize = 0;
    let n = store.tunes.len();
    let mut i: usize = 0;
    proof {
        lemma_listing_start(all, keep, show_info(), page_num as int, 15);
    }
    while i < n
        invariant
            i <= n,
            n == store@.tunes.len(),
            all == values(store@.tunes),
            keep == tune_filter(sub_title@, rithm@, key@),
            needle@ == lowercased(sub_title@),
            rhythm_filter is None <==> rithm@ == "all"@,
            rhythm_filter matches Some(pattern) ==> pattern@ == rhythm_line(rithm@),
            key_filter is None <==> key@ == "all"@,
            key_filter matches Some(pattern) ==> pattern@ == key_line(key@),
            count == all.take(i as int).filter(keep).len(),
            count <= i,
            out.deep_view() == listing(all.take(i as int), keep, show_info(), page_num as int, 15),
        decreases n - i,
    {
        let tune = store.tunes.value_at(i);
        proof {
            lemma_listing_step(all, keep, show_info(), i as int, page_num as int, 15);
            assert(all[i as int] == tune@);
        }
        let title_hit = contains_lowered(tune.title.as_str(), needle.as_str());
        let rhythm_hit = line_verdict(&rhythm_filter, tune.tune_data.as_str());
        let key_hit = line_verdict(&key_filter, tune.tune_data.as_str());
        let hit = tune_selected(title_hit, rhythm_hit, key_hit);
        assert(hit == keep(all[i as int]));
        if hit {
            if belongs_to_page(count, page_num, 15) {
                let info = tune_info(tune);
                let ghost before = out.deep_view();
                out.push(info);
                assert(out.deep_view() =~= before.push(info@));
            }
            count += 1;
        }
        i += 1;
    }
    assert(all.take(n as int) =~= all);
    Some((out, total_of(count)))
}

/// The name under which a tune is filed: the one given, or `Tunebook`.
fn file_under(username: Option<String>) -> (r: Option<String>)
    ensures
        r.deep_view() == filed_under(username.deep_view()),
{
    match username {
        Some(name) => Some(name),
        None => Some("Tunebook".to_owned()),
    }
}

/// One page, of fifteen, of the titles of all tunes, in their order, with the
/// number of all tunes.
pub fn get_original_tune_list(store: &Store, _principal: String, page_number: i32) -> (r: (
    Vec<String>,
    i32,
))
    ensures
        r.0.deep_view() == page_window(values(store@.tunes), page_number as int, 15).map_values(
            show_title(),
        ),
        r.1 == reported_total(store@.tunes.len() as int),
{
    let n = store.tunes.len();
    let (start, end) = page_bounds(n, page_number, 15);
    let ghost all = values(store@.tunes);
    let mut out: Vec<String> = Vec::new();
    let mut i: usize = start;
    while i < end
        invariant
            start <= i <= end <= n,
            n == store@.tunes.len(),
            all == values(store@.tunes),
            out.deep_view() == all.subrange(start as int, i as int).map_values(show_title()),
        decreases end - i,
    {
        let tune = store.tunes.value_at(i);
        let ghost before = out.deep_view();
        out.push(tune.title.clone());
        proof {
            assert(all[i as int] == tune@);
            assert(out.deep_view() =~= before.push(tune@.title));
            assert(all.subrange(start as int, i + 1) =~= all.subrange(start as int, i as int).push(
                all[i as int],
            ));
        }
        i += 1;
    }
    proof {
        if page_number < 0 {
            assert(out.deep_view() =~= page_window(all, page_number as int, 15).map_values(
                show_title(),
            ));
        }
    }
    (out, total_of(n))
}

/// The text of the tune `title`, or the words `Tune not found`.
pub fn get_original_tune(store: &Store, title: String) -> (r: String)
    requires
        store.wf(),
    ensures
        r@ == if store@.tune_map().contains_key(title@) {
            store@.tune_map()[title@].tune_data
        } else {
            "Tune not found"@
        },
{
    match store.tunes.get(&title) {
        Some(tune) => tune.tune_data.clone(),
        None => "Tune not found".to_owned(),
    }
}

/// The tunes that `principal` keeps, in the order of their titles, with their
/// number: one page of eight, or all of them where the page asked for is -1.
pub fn get_user_tune_list(store: &Store, principal: String, page_number: i32) -> (r: (
    Vec<Tuneinfo>,
    i32,
))
    ensures
        r.0.deep_view() == if page_number == -1 {
            selection(values(store@.tunes), kept_by(principal@), show_info())
        } else {
            listing(values(store@.tunes), kept_by(principal@), show_info(), page_number as int, 8)
        },
        r.1 == reported_total(values(store@.tunes).filter(kept_by(principal@)).len() as int),
{
    let ghost all = values(store@.tunes);
    let ghost keep = kept_by(principal@);
    let mut out: Vec<Tuneinfo> = Vec::new();
    let mut count: usize = 0;
    let n = store.tunes.len();
    let mut i: usize = 0;
    proof {
        lemma_listing_start(all, keep, show_info(), page_number as int, 8);
        lemma_selection_start(all, keep, show_info());
        assert(out.deep_view() =~= Seq::<TuneinfoView>::empty());
    }
    while i < n
        invariant
            i <= n,
            n == store@.tunes.len(),
            all == values(store@.tunes),
            keep == kept_by(principal@),
            count == all.take(i as int).filter(keep).len(),
            count <= i,
            out.deep_view() == if page_number == -1 {
                selection(all.take(i as int), keep, show_info())
            } else {
                listing(all.take(i as int), keep, show_info(), page_number as int, 8)
            },
        decreases n - i,
    {
        let tune = store.tunes.value_at(i);
        proof {
            lemma_listing_step(all, keep, show_info(), i as int, page_number as int, 8);
            lemma_selection_step(all, keep, show_info(), i as int);
            assert(all[i as int] == tune@);
        }
        if has_name(&tune.principals, &principal) {
            if page_number == -1 || belongs_to_page(count, page_number, 8) {
                let info = tune_info(tune);
                let ghost before = out.deep_view();
                out.push(info);
                assert(out.deep_view() =~= before.push(info@));
            }
            count += 1;
        }
        i += 1;
    }
    assert(all.take(n as int) =~= all);
    (out, total_of(count))
}

/// The text of the tune `title` as `principal` keeps it: empty where there is
/// no such tune or `principal` does not keep it.
pub fn get_user_tune(store: &Store, principal: String, title: String) -> (r: String)
    requires
        store.wf(),
    ensures
        r@ == if keeps(store@.tune_map(), principal@, title@) {
            store@.tune_map()[title@].tune_data
        } else {
            Seq::<char>::empty()
        },
{
    match store.tunes.get(&title) {
        Some(tune) => {
            if has_name(&tune.principals, &principal) {
                tune.tune_data.clone()
            } else {
                String::new()
            }
        },
        None => String::new(),
    }
}

/// `principal` adds the tune `title` to their tune book at the time `now`.
/// Nothing happens, and the answer is `false`, where `principal` keeps that
/// tune already.
pub fn add_tune(
    store: &mut Store,
    now: u64,
    principal: String,
    title: String,
    tune_data: String,
    origin: bool,
    username: Option<String>,
) -> (r: bool)
    requires
        old(store).wf(),
    ensures
        final(store).wf(),
        r == !keeps(old(store)@.tune_map(), principal@, title@),
        r ==> final(store)@.tune_map() == after_add_tune(
            old(store)@.tune_map(),
            now,
            principal@,
            title@,
            tune_data@,
            origin,
            username.deep_view(),
        ),
        !r ==> final(store)@.tune_map() == old(store)@.tune_map(),
        final(store)@ == (StoreView { tunes: final(store)@.tunes, ..old(store)@ }),
{
    let mut principals: Vec<String> = match store.tunes.get(&title) {
        Some(prev) => {
            if has_name(&prev.principals, &principal) {
                return false;
            }
            let keepers = prev.principals.clone();
            assert(keepers.deep_view() =~= prev.principals.deep_view());
            keepers
        },
        None => {
            let keepers: Vec<String> = Vec::new();
            assert(keepers.deep_view() =~= Seq::<Seq<char>>::empty());
            keepers
        },
    };
    let ghost before = principals.deep_view();
    let ghost who = principal@;
    principals.push(principal);
    assert(principals.deep_view() =~= before.push(who));
    let key = title.clone();
    let tune = Tune {
        origin,
        title,
        tune_data,
        timestamp: now,
        principals,
        username: file_under(username),
    };
    let ghost written = tune@;
    store.tunes.insert(key, tune);
    proof {
        old(store)@.lemma_put_tune(store@, written.title, written);
    }
    true
}

/// `principal` gives up the tune `title`. The tune goes with its last keeper.
/// Nothing happens, and the answer is `false`, where there is no such tune or
/// `principal` does not keep it.
pub fn remove_tune(store: &mut Store, principal: String, title: String) -> (r: bool)
    requires
        old(store).wf(),
    ensures
        final(store).wf(),
        r == keeps(old(store)@.tune_map(), principal@, title@),
        r ==> final(store)@.tune_map() == after_remove_tune(
            old(store)@.tune_map(),
            principal@,
            title@,
        ),
        !r ==> final(store)@.tune_map() == old(store)@.tune_map(),
        final(store)@ == (StoreView { tunes: final(store)@.tunes, ..old(store)@ }),
{
    let at = match store.tunes.find(&title) {
        Some(at) => at,
        None => {
            return false;
        },
    };
    let tune = store.tunes.value_at(at);
    if !has_name(&tune.principals, &principal) {
        return false;
    }
    let ghost all = tune.principals.deep_view();
    let ghost keep = other_than(principal@);
    let mut rest: Vec<String> = Vec::new();
    let n = tune.principals.len();
    let mut i: usize = 0;
    proof {
        if n > 0 {
            lemma_filter_step(all, keep, 0);
        } else {
            all.lemma_filter_len(keep);
            assert(all.take(0) =~= all);
        }
        assert(rest.deep_view() =~= all.take(0).filter(keep));
    }
    while i < n
        invariant
            i <= n,
            n == tune.principals.len(),
            all == tune.principals.deep_view(),
            keep == other_than(principal@),
            rest.deep_view() == all.take(i as int).filter(keep),
        decreases n - i,
    {
        proof {
            lemma_filter_step(all, keep, i as int);
        }
        let keeper = &tune.principals[i];
        assert(keeper@ == all[i as int]);
        if *keeper != principal {
            let ghost before = rest.deep_view();
            rest.push(keeper.clone());
            assert(rest.deep_view() =~= before.push(keeper@));
        }
        i += 1;
    }
    assert(all.take(n as int) =~= all);
    if rest.len() == 0 {
        store.tunes.remove_at(at);
        proof {
            old(store)@.lemma_cut_tune(store@, title@);
        }
    } else {
        let kept = Tune {
            origin: tune.origin,
            title: tune.title.clone(),
            tune_data: tune.tune_data.clone(),
            timestamp: tune.timestamp,
            principals: rest,
            username: tune.username.clone(),
        };
        let ghost written = kept@;
        store.tunes.replace_at(at, kept);
        proof {
            old(store)@.lemma_put_tune(store@, title@, written);
        }
    }
    true
}

/// `principal`, who keeps the tune `title`, rewrites it at the time `now`: the
/// text, origin and name are replaced, the keepers stay. Nothing happens, and
/// the answer is `false`, where there is no such tune or `principal` does not
/// keep it.
pub fn update_tune(
    store: &mut Store,
    now: u64,
    principal: String,
    title: String,
    tune_data: String,
    origin: bool,
    username: Option<String>,
) -> (r: bool)
    requires
        old(store).wf(),
    ensures
        final(store).wf(),
        r == keeps(old(store)@.tune_map(), principal@, title@),
        r ==> final(store)@.tune_map() == old(store)@.tune_map().insert(
            title@,
            (TuneView {
                origin,
                title: title@,
                tune_data: tune_data@,
                timestamp: now,
                principals: old(store)@.tune_map()[title@].principals,
                username: filed_under(username.deep_view()),
            }),
        ),
        !r ==> final(store)@.tune_map() == old(store)@.tune_map(),
        final(store)@ == (StoreView { tunes: final(store)@.tunes, ..old(store)@ }),
{
    let at = match store.tunes.find(&title) {
        Some(at) => at,
        None => {
            return false;
        },
    };
    let prev = store.tunes.value_at(at);
    if !has_name(&prev.principals, &principal) {
        return false;
    }
    let principals = prev.principals.clone();
    assert(principals.deep_view() =~= prev.principals.deep_view());
    let tune = Tune {
        origin,
        title,
        tune_data,
        timestamp: now,
        principals,
        username: file_under(username),
    };
    let ghost written = tune@;
    store.tunes.replace_at(at, tune);
    proof {
        old(store)@.lemma_put_tune(store@, written.title, written);
    }
    true
}

/// The tunes that were written less than a week before `now`, whoever keeps
/// them, in the order of their titles. Times are in nanoseconds.
pub fn get_new_tunes_from_friends(store: &Store, now: u64, _principal: String) -> (r: Vec<Tune>)
    ensures
        r.deep_view() == values(store@.tunes).filter(written_lately(now)),
{
    let ghost all = values(store@.tunes);
    let ghost keep = written_lately(now);
    let mut out: Vec<Tune> = Vec::new();
    let n = store.tunes.len();
    let mut i: usize = 0;
    proof {
        if n > 0 {
            lemma_filter_step(all, keep, 0);
        } else {
            all.lemma_filter_len(keep);
            assert(all.take(0) =~= all);
        }
        assert(out.deep_view() =~= all.take(0).filter(keep));
    }
    while i < n
        invariant
            i <= n,
            n == store@.tunes.len(),
            all == values(store@.tunes),
            keep == written_lately(now),
            out.deep_view() == all.take(i as int).filter(keep),
        decreases n - i,
    {
        let tune = store.tunes.value_at(i);
        proof {
            lemma_filter_step(all, keep, i as int);
            assert(all[i as int] == tune@);
        }
        if tune.timestamp <= now && now - tune.timestamp < WEEK {
            let ghost before = out.deep_view();
            out.push(tune.clone());
            assert(out.deep_view() =~= before.push(tune@));
        }
        i += 1;
    }
    assert(all.take(n as int) =~= all);
    out
}

/// The number of tunes.
pub fn get_tune_count(store: &Store) -> (n: u64)
    requires
        store.wf(),
    ensures
        n == store@.tunes.len(),
        n == store@.tune_map().len(),
{
    proof {
        lemma_count::<String, TuneView>(store@.tunes);
    }
    store.tunes.len() as u64
}

} // verus!
