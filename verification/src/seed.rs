//! The seed: the tunes that the tune book starts with.
//!
//! The seed is a JSON text, one object that gives for each title the text of
//! the tune. It is loaded into an empty tune book only: once the tune book
//! holds a tune, loading leaves it as it is.

use crate::store::{Store, StoreView};
use crate::types::{Tune, TuneView};
use serde_json::Value;
use vstd::prelude::*;

verus! {

/// A seed text as the JSON parser reads it.
#[derive(Debug, PartialEq, Eq)]
pub enum SeedText {
    /// The text is not JSON.
    Malformed,
    /// The text is JSON, but not an object.
    NotAnObject,
    /// The members of the object: each title with the text of its tune, or
    /// with nothing where the member's value is not a string.
    Object(Vec<(String, Option<String>)>),
}

/// The view of a [`SeedText`].
pub enum SeedTextView {
    Malformed,
    NotAnObject,
    Object(Seq<(Seq<char>, Option<Seq<char>>)>),
}

impl View for SeedText {
    type V = SeedTextView;

    open spec fn view(&self) -> SeedTextView {
        match self {
            SeedText::Malformed => SeedTextView::Malformed,
            SeedText::NotAnObject => SeedTextView::NotAnObject,
            SeedText::Object(members) => SeedTextView::Object(members.deep_view()),
        }
    }
}

/// Why a seed could not be loaded.
#[derive(Debug, PartialEq, Eq, Clone, Copy)]
pub enum SeedError {
    /// The seed is not JSON.
    Malformed,
    /// The seed is JSON, but not an object.
    NotAnObject,
    /// Some title of the seed comes with a value that is not a string.
    BodyNotText,
}

impl SeedError {
    /// What to tell whoever supplied the seed.
    pub fn message(&self) -> (r: String)
        ensures
            r@ == match *self {
                SeedError::Malformed => "Failed to parse JSON"@,
                SeedError::NotAnObject => "The seed is not in the expected format"@,
                SeedError::BodyNotText => "A tune of the seed is not a text"@,
            },
    {
        match self {
            SeedError::Malformed => "Failed to parse JSON".to_owned(),
            SeedError::NotAnObject => "The seed is not in the expected format".to_owned(),
            SeedError::BodyNotText => "A tune of the seed is not a text".to_owned(),
        }
    }
}

/// What `serde_json::from_str` reads in `text`, with the members of an object
/// in the order in which `serde_json::Map` hands them out.
pub uninterp spec fn parsed_seed(text: Seq<char>) -> SeedTextView;

/// Calls `serde_json::from_str` for a `serde_json::Value`. Trusted: the result
/// is what the parser reads in the text, which depends on the text alone. An
/// object's members are moved out one by one, a string value as its text.
#[verifier::external_body]
pub(crate) fn parse_seed(text: &str) -> (r: SeedText)
    ensures
        r@ == parsed_seed(text@),
{
    match serde_json::from_str::<Value>(text) {
        Ok(Value::Object(members)) => SeedText::Object(
            members.into_iter().map(
                |(title, body)| match body {
                    Value::String(text) => (title, Some(text)),
                    _ => (title, None),
                },
            ).collect(),
        ),
        Ok(_) => SeedText::NotAnObject,
        Err(_) => SeedText::Malformed,
    }
}

/// The tune that the seed gives for `title`, loaded at the time `now`: a tune
/// of the book's own, which nobody keeps, filed under `Tunebook`.
pub open spec fn seed_tune(title: Seq<char>, body: Seq<char>, now: u64) -> TuneView {
    TuneView {
        origin: true,
        title,
        tune_data: body,
        timestamp: now,
        principals: Seq::empty(),
        username: Some("Tunebook"@),
    }
}

/// Whether every member comes with a text.
pub open spec fn all_text(members: Seq<(Seq<char>, Option<Seq<char>>)>) -> bool {
    forall|i: int| 0 <= i < members.len() ==> (#[trigger] members[i]).1 is Some
}

/// The tunes after the members were written one after the other: a title that
/// occurs twice keeps its last text.
pub open spec fn seeded(
    tunes: Map<Seq<char>, TuneView>,
    members: Seq<(Seq<char>, Option<Seq<char>>)>,
    now: u64,
) -> Map<Seq<char>, TuneView>
    decreases members.len(),
{
    if members.len() == 0 {
        tunes
    } else {
        seeded(tunes, members.drop_last(), now).insert(
            members.last().0,
            seed_tune(members.last().0, members.last().1->0, now),
        )
    }
}

/// What loading the seed `seed` answers.
pub open spec fn seed_answer(seed: SeedTextView) -> Result<u64, SeedError> {
    match seed {
        SeedTextView::Malformed => Err(SeedError::Malformed),
        SeedTextView::NotAnObject => Err(SeedError::NotAnObject),
        SeedTextView::Object(members) => if all_text(members) {
            Ok(members.len() as u64)
        } else {
            Err(SeedError::BodyNotText)
        },
    }
}

/// The tunes after the seed `seed` was loaded at the time `now`: with the
/// members of a seed that is wholly good, else as they were.
pub open spec fn seed_outcome(tunes: Map<Seq<char>, TuneView>, seed: SeedTextView, now: u64) -> Map<
    Seq<char>,
    TuneView,
> {
    match seed {
        SeedTextView::Object(members) => if all_text(members) {
            seeded(tunes, members, now)
        } else {
            tunes
        },
        _ => tunes,
    }
}

/// Loads a parsed seed at the time `now` and answers how many members it
/// wrote. A tune book that holds a tune stays as it is, and the answer is 0.
/// A seed that is not wholly good is refused before anything is written,
/// and the answer says why.
pub fn load_seed(store: &mut Store, now: u64, seed: SeedText) -> (r: Result<u64, SeedError>)
    requires
        old(store).wf(),
    ensures
        final(store).wf(),
        old(store)@.tunes.len() > 0 ==> r == Ok::<u64, SeedError>(0),
        old(store)@.tunes.len() > 0 ==> final(store)@ == old(store)@,
        old(store)@.tunes.len() == 0 ==> r == seed_answer(seed@),
        old(store)@.tunes.len() == 0 ==> final(store)@.tune_map() == seed_outcome(
            old(store)@.tune_map(),
            seed@,
            now,
        ),
        final(store)@ == (StoreView { tunes: final(store)@.tunes, ..old(store)@ }),
{
    if store.tunes.len() > 0 {
        return Ok(0);
    }
    let members = match seed {
        SeedText::Malformed => {
            return Err(SeedError::Malformed);
        },
        SeedText::NotAnObject => {
            return Err(SeedError::NotAnObject);
        },
        SeedText::Object(members) => members,
    };
    let ghost all = members.deep_view();
    let n = members.len();
    let mut i: usize = 0;
    while i < n
        invariant
            i <= n,
            n == members.len(),
            all == members.deep_view(),
            store.wf(),
            store@ == old(store)@,
            store@.tunes.len() == 0,
            seed@ == SeedTextView::Object(all),
            forall|j: int| 0 <= j < i ==> (#[trigger] all[j]).1 is Some,
        decreases n - i,
    {
        if members[i].1.is_none() {
            assert(all[i as int].1 is None);
            return Err(SeedError::BodyNotText);
        }
        i += 1;
    }
    let ghost start = store@.tune_map();
    let mut k: usize = 0;
    while k < n
        invariant
            k <= n,
            n == members.len(),
            all == members.deep_view(),
            all_text(all),
            store.wf(),
            store@ == (StoreView { tunes: store@.tunes, ..old(store)@ }),
            store@.tune_map() == seeded(start, all.take(k as int), now),
        decreases n - k,
    {
        let ghost before = store@;
        let title = members[k].0.clone();
        let body = match &members[k].1 {
            Some(body) => body.clone(),
            None => String::new(),
        };
        let principals: Vec<String> = Vec::new();
        assert(principals.deep_view() =~= Seq::<Seq<char>>::empty());
        let tune = Tune {
            origin: true,
            title: title.clone(),
            tune_data: body,
            timestamp: now,
            principals,
            username: Some("Tunebook".to_owned()),
        };
        let ghost written = tune@;
        store.tunes.insert(title, tune);
        proof {
            before.lemma_put_tune(store@, written.title, written);
            assert(all.take(k + 1).drop_last() =~= all.take(k as int));
            assert(all.take(k + 1).last() == all[k as int]);
            assert(all[k as int].1 is Some);
        }
        k += 1;
    }
    assert(all.take(n as int) =~= all);
    Ok(n as u64)
}

/// Loads the seed `seed`, a JSON text, at the time `now`: see [`load_seed`].
/// A tune book that holds a tune stays as it is, whatever the seed.
pub fn init(store: &mut Store, now: u64, seed: &str) -> (r: Result<u64, SeedError>)
    requires
        old(store).wf(),
    ensures
        final(store).wf(),
        old(store)@.tunes.len() > 0 ==> r == Ok::<u64, SeedError>(0),
        old(store)@.tunes.len() > 0 ==> final(store)@ == old(store)@,
        old(store)@.tunes.len() == 0 ==> r == seed_answer(parsed_seed(seed@)),
        old(store)@.tunes.len() == 0 ==> final(store)@.tune_map() == seed_outcome(
            old(store)@.tune_map(),
            parsed_seed(seed@),
            now,
        ),
        final(store)@ == (StoreView { tunes: final(store)@.tunes, ..old(store)@ }),
{
    if store.tunes.len() > 0 {
        return Ok(0);
    }
    load_seed(store, now, parse_seed(seed))
}

} // verus!
