//! The store: one ordered table for each kind of record.

use crate::table::{ascending, entries_map, lemma_order_is_unique, Table};
use crate::types::{
    Forum, ForumData, ForumDataView, ForumView, Instrument, InstrumentView, Profile, ProfileView,
    Session, SessionView, Tune, TuneView,
};
use vstd::prelude::*;

verus! {

/// All records of the backend. A profile is kept under its principal, a tune
/// under its title, and every other record under its id.
pub struct Store {
    pub(crate) profiles: Table<String, Profile>,
    pub(crate) tunes: Table<String, Tune>,
    pub(crate) sessions: Table<u32, Session>,
    pub(crate) instruments: Table<u32, Instrument>,
    pub(crate) forums: Table<u64, Forum>,
    pub(crate) posts: Table<u64, ForumData>,
}

/// The view of a [`Store`]: for each table its entries, in ascending key order.
pub struct StoreView {
    pub profiles: Seq<(Seq<char>, ProfileView)>,
    pub tunes: Seq<(Seq<char>, TuneView)>,
    pub sessions: Seq<(u32, SessionView)>,
    pub instruments: Seq<(u32, InstrumentView)>,
    pub forums: Seq<(u64, ForumView)>,
    pub posts: Seq<(u64, ForumDataView)>,
}

impl StoreView {
    /// Every table lists its keys in strictly ascending order, and every record
    /// is kept under its own key.
    pub open spec fn wf(self) -> bool {
        &&& ascending::<String, ProfileView>(self.profiles)
        &&& ascending::<String, TuneView>(self.tunes)
        &&& ascending::<u32, SessionView>(self.sessions)
        &&& ascending::<u32, InstrumentView>(self.instruments)
        &&& ascending::<u64, ForumView>(self.forums)
        &&& ascending::<u64, ForumDataView>(self.posts)
        &&& forall|k: Seq<char>| #[trigger]
            self.profile_map().contains_key(k) ==> self.profile_map()[k].principal == k
        &&& forall|k: Seq<char>| #[trigger]
            self.tune_map().contains_key(k) ==> self.tune_map()[k].title == k
        &&& forall|k: u32| #[trigger]
            self.session_map().contains_key(k) ==> self.session_map()[k].id == k
        &&& forall|k: u32| #[trigger]
            self.instrument_map().contains_key(k) ==> self.instrument_map()[k].id == k
        &&& forall|k: u64| #[trigger]
            self.forum_map().contains_key(k) ==> self.forum_map()[k].id == k
        &&& forall|k: u64| #[trigger] self.post_map().contains_key(k) ==> self.post_map()[k].id == k
    }

    /// The profiles by principal.
    pub open spec fn profile_map(self) -> Map<Seq<char>, ProfileView> {
        entries_map(self.profiles)
    }

    /// The tunes by title.
    pub open spec fn tune_map(self) -> Map<Seq<char>, TuneView> {
        entries_map(self.tunes)
    }

    /// The sessions by id.
    pub open spec fn session_map(self) -> Map<u32, SessionView> {
        entries_map(self.sessions)
    }

    /// The instruments by id.
    pub open spec fn instrument_map(self) -> Map<u32, InstrumentView> {
        entries_map(self.instruments)
    }

    /// The forums by id.
    pub open spec fn forum_map(self) -> Map<u64, ForumView> {
        entries_map(self.forums)
    }

    /// The forum posts by id.
    pub open spec fn post_map(self) -> Map<u64, ForumDataView> {
        entries_map(self.posts)
    }

    /// A well-formed view is determined by its six maps: two well-formed views
    /// with the same maps list the same entries in the same order.
    pub proof fn lemma_maps_determine(self, other: StoreView)
        requires
            self.wf(),
            other.wf(),
            self.profile_map() == other.profile_map(),
            self.tune_map() == other.tune_map(),
            self.session_map() == other.session_map(),
            self.instrument_map() == other.instrument_map(),
            self.forum_map() == other.forum_map(),
            self.post_map() == other.post_map(),
        ensures
            self == other,
    {
        lemma_order_is_unique::<String, ProfileView>(self.profiles, other.profiles);
        lemma_order_is_unique::<String, TuneView>(self.tunes, other.tunes);
        lemma_order_is_unique::<u32, SessionView>(self.sessions, other.sessions);
        lemma_order_is_unique::<u32, InstrumentView>(self.instruments, other.instruments);
        lemma_order_is_unique::<u64, ForumView>(self.forums, other.forums);
        lemma_order_is_unique::<u64, ForumDataView>(self.posts, other.posts);
    }

    /// A well-formed view stays well formed when only its profiles change, to a
    /// table that is ascending and keeps every record under its own key.
    proof fn lemma_wf_with_profiles(self, after: StoreView)
        requires
            self.wf(),
            after == (StoreView { profiles: after.profiles, ..self }),
            ascending::<String, ProfileView>(after.profiles),
            forall|k: Seq<char>| #[trigger]
                after.profile_map().contains_key(k) ==> after.profile_map()[k].principal == k,
        ensures
            after.wf(),
    {
        assert(after.tune_map() == self.tune_map());
        assert(after.session_map() == self.session_map());
        assert(after.instrument_map() == self.instrument_map());
        assert(after.forum_map() == self.forum_map());
        assert(after.post_map() == self.post_map());
    }

    /// A well-formed view stays well formed when only its tunes change, to a
    /// table that is ascending and keeps every record under its own key.
    proof fn lemma_wf_with_tunes(self, after: StoreView)
        requires
            self.wf(),
            after == (StoreView { tunes: after.tunes, ..self }),
            ascending::<String, TuneView>(after.tunes),
            forall|k: Seq<char>| #[trigger]
                after.tune_map().contains_key(k) ==> after.tune_map()[k].title == k,
        ensures
            after.wf(),
    {
        assert(after.profile_map() == self.profile_map());
        assert(after.session_map() == self.session_map());
        assert(after.instrument_map() == self.instrument_map());
        assert(after.forum_map() == self.forum_map());
        assert(after.post_map() == self.post_map());
    }

    /// A well-formed view stays well formed when only its sessions change, to a
    /// table that is ascending and keeps every record under its own key.
    proof fn lemma_wf_with_sessions(self, after: StoreView)
        requires
            self.wf(),
            after == (StoreView { sessions: after.sessions, ..self }),
            ascending::<u32, SessionView>(after.sessions),
            forall|k: u32| #[trigger]
                after.session_map().contains_key(k) ==> after.session_map()[k].id == k,
        ensures
            after.wf(),
    {
        assert(after.profile_map() == self.profile_map());
        assert(after.tune_map() == self.tune_map());
        assert(after.instrument_map() == self.instrument_map());
        assert(after.forum_map() == self.forum_map());
        assert(after.post_map() == self.post_map());
    }

    /// A well-formed view stays well formed when only its instruments change, to a
    /// table that is ascending and keeps every record under its own key.
    proof fn lemma_wf_with_instruments(self, after: StoreView)
        requires
            self.wf(),
            after == (StoreView { instruments: after.instruments, ..self }),
            ascending::<u32, InstrumentView>(after.instruments),
            forall|k: u32| #[trigger]
                after.instrument_map().contains_key(k) ==> after.instrument_map()[k].id == k,
        ensures
            after.wf(),
    {
        assert(after.profile_map() == self.profile_map());
        assert(after.tune_map() == self.tune_map());
        assert(after.session_map() == self.session_map());
        assert(after.forum_map() == self.forum_map());
        assert(after.post_map() == self.post_map());
    }

    /// A well-formed view stays well formed when only its forums change, to a
    /// table that is ascending and keeps every record under its own key.
    proof fn lemma_wf_with_forums(self, after: StoreView)
        requires
            self.wf(),
            after == (StoreView { forums: after.forums, ..self }),
            ascending::<u64, ForumView>(after.forums),
            forall|k: u64| #[trigger]
                after.forum_map().contains_key(k) ==> after.forum_map()[k].id == k,
        ensures
            after.wf(),
    {
        assert(after.profile_map() == self.profile_map());
        assert(after.tune_map() == self.tune_map());
        assert(after.session_map() == self.session_map());
        assert(after.instrument_map() == self.instrument_map());
        assert(after.post_map() == self.post_map());
    }

    /// A well-formed view stays well formed when only its posts change, to a
    /// table that is ascending and keeps every record under its own key.
    proof fn lemma_wf_with_posts(self, after: StoreView)
        requires
            self.wf(),
            after == (StoreView { posts: after.posts, ..self }),
            ascending::<u64, ForumDataView>(after.posts),
            forall|k: u64| #[trigger]
                after.post_map().contains_key(k) ==> after.post_map()[k].id == k,
        ensures
            after.wf(),
    {
        assert(after.profile_map() == self.profile_map());
        assert(after.tune_map() == self.tune_map());
        assert(after.session_map() == self.session_map());
        assert(after.instrument_map() == self.instrument_map());
        assert(after.forum_map() == self.forum_map());
    }

    /// A well-formed view stays well formed when one profile is written under its
    /// own key.
    pub proof fn lemma_put_profile(self, after: StoreView, k: Seq<char>, v: ProfileView)
        requires
            self.wf(),
            after == (StoreView { profiles: after.profiles, ..self }),
            ascending::<String, ProfileView>(after.profiles),
            after.profile_map() == self.profile_map().insert(k, v),
            v.principal == k,
        ensures
            after.wf(),
    {
        assert forall|x: Seq<char>| #[trigger] after.profile_map().contains_key(x) implies
            after.profile_map()[x].principal == x by {
            if x != k {
                assert(self.profile_map().contains_key(x));
            }
        }
        self.lemma_wf_with_profiles(after);
    }

    /// A well-formed view stays well formed when one tune is written under its
    /// own key.
    pub proof fn lemma_put_tune(self, after: StoreView, k: Seq<char>, v: TuneView)
        requires
            self.wf(),
            after == (StoreView { tunes: after.tunes, ..self }),
            ascending::<String, TuneView>(after.tunes),
            after.tune_map() == self.tune_map().insert(k, v),
            v.title == k,
        ensures
            after.wf(),
    {
        assert forall|x: Seq<char>| #[trigger] after.tune_map().contains_key(x) implies
            after.tune_map()[x].title == x by {
            if x != k {
                assert(self.tune_map().contains_key(x));
            }
        }
        self.lemma_wf_with_tunes(after);
    }

    /// A well-formed view stays well formed when one tune is taken out.
    pub proof fn lemma_cut_tune(self, after: StoreView, k: Seq<char>)
        requires
            self.wf(),
            after == (StoreView { tunes: after.tunes, ..self }),
            ascending::<String, TuneView>(after.tunes),
            after.tune_map() == self.tune_map().remove(k),
        ensures
            after.wf(),
    {
        assert forall|x: Seq<char>| #[trigger] after.tune_map().contains_key(x) implies
            after.tune_map()[x].title == x by {
            assert(self.tune_map().contains_key(x));
        }
        self.lemma_wf_with_tunes(after);
    }

    /// A well-formed view stays well formed when one session is written under its
    /// own key.
    pub proof fn lemma_put_session(self, after: StoreView, k: u32, v: SessionView)
        requires
            self.wf(),
            after == (StoreView { sessions: after.sessions, ..self }),
            ascending::<u32, SessionView>(after.sessions),
            after.session_map() == self.session_map().insert(k, v),
            v.id == k,
        ensures
            after.wf(),
    {
        assert forall|x: u32| #[trigger] after.session_map().contains_key(x) implies
            after.session_map()[x].id == x by {
            if x != k {
                assert(self.session_map().contains_key(x));
            }
        }
        self.lemma_wf_with_sessions(after);
    }

    /// A well-formed view stays well formed when one session is taken out.
    pub proof fn lemma_cut_session(self, after: StoreView, k: u32)
        requires
            self.wf(),
            after == (StoreView { sessions: after.sessions, ..self }),
            ascending::<u32, SessionView>(after.sessions),
            after.session_map() == self.session_map().remove(k),
        ensures
            after.wf(),
    {
        assert forall|x: u32| #[trigger] after.session_map().contains_key(x) implies
            after.session_map()[x].id == x by {
            assert(self.session_map().contains_key(x));
        }
        self.lemma_wf_with_sessions(after);
    }

    /// A well-formed view stays well formed when one instrument is written under its
    /// own key.
    pub proof fn lemma_put_instrument(self, after: StoreView, k: u32, v: InstrumentView)
        requires
            self.wf(),
            after == (StoreView { instruments: after.instruments, ..self }),
            ascending::<u32, InstrumentView>(after.instruments),
            after.instrument_map() == self.instrument_map().insert(k, v),
            v.id == k,
        ensures
            after.wf(),
    {
        assert forall|x: u32| #[trigger] after.instrument_map().contains_key(x) implies
            after.instrument_map()[x].id == x by {
            if x != k {
                assert(self.instrument_map().contains_key(x));
            }
        }
        self.lemma_wf_with_instruments(after);
    }

    /// A well-formed view stays well formed when one instrument is taken out.
    pub proof fn lemma_cut_instrument(self, after: StoreView, k: u32)
        requires
            self.wf(),
            after == (StoreView { instruments: after.instruments, ..self }),
            ascending::<u32, InstrumentView>(after.instruments),
            after.instrument_map() == self.instrument_map().remove(k),
        ensures
            after.wf(),
    {
        assert forall|x: u32| #[trigger] after.instrument_map().contains_key(x) implies
            after.instrument_map()[x].id == x by {
            assert(self.instrument_map().contains_key(x));
        }
        self.lemma_wf_with_instruments(after);
    }

    /// A well-formed view stays well formed when one forum is written under its
    /// own key.
    pub proof fn lemma_put_forum(self, after: StoreView, k: u64, v: ForumView)
        requires
            self.wf(),
            after == (StoreView { forums: after.forums, ..self }),
            ascending::<u64, ForumView>(after.forums),
            after.forum_map() == self.forum_map().insert(k, v),
            v.id == k,
        ensures
            after.wf(),
    {
        assert forall|x: u64| #[trigger] after.forum_map().contains_key(x) implies
            after.forum_map()[x].id == x by {
            if x != k {
                assert(self.forum_map().contains_key(x));
            }
        }
        self.lemma_wf_with_forums(after);
    }

    /// A well-formed view stays well formed when one forum is taken out.
    pub proof fn lemma_cut_forum(self, after: StoreView, k: u64)
        requires
            self.wf(),
            after == (StoreView { forums: after.forums, ..self }),
            ascending::<u64, ForumView>(after.forums),
            after.forum_map() == self.forum_map().remove(k),
        ensures
            after.wf(),
    {
        assert forall|x: u64| #[trigger] after.forum_map().contains_key(x) implies
            after.forum_map()[x].id == x by {
            assert(self.forum_map().contains_key(x));
        }
        self.lemma_wf_with_forums(after);
    }

    /// A well-formed view stays well formed when one post is written under its
    /// own key.
    pub proof fn lemma_put_post(self, after: StoreView, k: u64, v: ForumDataView)
        requires
            self.wf(),
            after == (StoreView { posts: after.posts, ..self }),
            ascending::<u64, ForumDataView>(after.posts),
            after.post_map() == self.post_map().insert(k, v),
            v.id == k,
        ensures
            after.wf(),
    {
        assert forall|x: u64| #[trigger] after.post_map().contains_key(x) implies
            after.post_map()[x].id == x by {
            if x != k {
                assert(self.post_map().contains_key(x));
            }
        }
        self.lemma_wf_with_posts(after);
    }

    /// A well-formed view stays well formed when one post is taken out.
    pub proof fn lemma_cut_post(self, after: StoreView, k: u64)
        requires
            self.wf(),
            after == (StoreView { posts: after.posts, ..self }),
            ascending::<u64, ForumDataView>(after.posts),
            after.post_map() == self.post_map().remove(k),
        ensures
            after.wf(),
    {
        assert forall|x: u64| #[trigger] after.post_map().contains_key(x) implies
            after.post_map()[x].id == x by {
            assert(self.post_map().contains_key(x));
        }
        self.lemma_wf_with_posts(after);
    }
}

impl View for Store {
    type V = StoreView;

    open(crate) spec fn view(&self) -> StoreView {
        StoreView {
            profiles: self.profiles@,
            tunes: self.tunes@,
            sessions: self.sessions@,
            instruments: self.instruments@,
            forums: self.forums@,
            posts: self.posts@,
        }
    }
}

impl Store {
    /// The store is well formed: its view is.
    pub open spec fn wf(&self) -> bool {
        self@.wf()
    }

    /// A store without records.
    pub fn new() -> (s: Self)
        ensures
            s.wf(),
            s@ == (StoreView {
                profiles: Seq::empty(),
                tunes: Seq::empty(),
                sessions: Seq::empty(),
                instruments: Seq::empty(),
                forums: Seq::empty(),
                posts: Seq::empty(),
            }),
    {
        Store {
            profiles: Table::new(),
            tunes: Table::new(),
            sessions: Table::new(),
            instruments: Table::new(),
            forums: Table::new(),
            posts: Table::new(),
        }
    }

    /// The table of profiles.
    pub fn profiles(&self) -> (t: &Table<String, Profile>)
        ensures
            t@ == self@.profiles,
    {
        &self.profiles
    }

    /// Puts a profile into the store under its principal, in place of the one
    /// that was there, if any.
    pub fn restore_profile(&mut self, profile: Profile)
        requires
            old(self).wf(),
        ensures
            final(self).wf(),
            final(self)@.profile_map() == old(self)@.profile_map().insert(
                profile@.principal,
                profile@,
            ),
            final(self)@ == (StoreView { profiles: final(self)@.profiles, ..old(self)@ }),
    {
        let ghost written = profile@;
        self.profiles.insert(profile.principal.clone(), profile);
        proof {
            old(self)@.lemma_put_profile(self@, written.principal, written);
        }
    }

    /// The table of tunes.
    pub fn tunes(&self) -> (t: &Table<String, Tune>)
        ensures
            t@ == self@.tunes,
    {
        &self.tunes
    }

    /// Puts a tune into the store under its title, in place of the one that was
    /// there, if any.
    pub fn restore_tune(&mut self, tune: Tune)
        requires
            old(self).wf(),
        ensures
            final(self).wf(),
            final(self)@.tune_map() == old(self)@.tune_map().insert(
                tune@.title,
                tune@,
            ),
            final(self)@ == (StoreView { tunes: final(self)@.tunes, ..old(self)@ }),
    {
        let ghost written = tune@;
        self.tunes.insert(tune.title.clone(), tune);
        proof {
            old(self)@.lemma_put_tune(self@, written.title, written);
        }
    }

    /// The table of sessions.
    pub fn sessions(&self) -> (t: &Table<u32, Session>)
        ensures
            t@ == self@.sessions,
    {
        &self.sessions
    }

    /// Puts a session into the store under its id, in place of the one that was
    /// there, if any.
    pub fn restore_session(&mut self, session: Session)
        requires
            old(self).wf(),
        ensures
            final(self).wf(),
            final(self)@.session_map() == old(self)@.session_map().insert(
                session@.id,
                session@,
            ),
            final(self)@ == (StoreView { sessions: final(self)@.sessions, ..old(self)@ }),
    {
        let ghost written = session@;
        self.sessions.insert(session.id, session);
        proof {
            old(self)@.lemma_put_session(self@, written.id, written);
        }
    }

    /// The table of instruments.
    pub fn instruments(&self) -> (t: &Table<u32, Instrument>)
        ensures
            t@ == self@.instruments,
    {
        &self.instruments
    }

    /// Puts an instrument into the store under its id, in place of the one
    /// that was there, if any.
    pub fn restore_instrument(&mut self, instrument: Instrument)
        requires
            old(self).wf(),
        ensures
            final(self).wf(),
            final(self)@.instrument_map() == old(self)@.instrument_map().insert(
                instrument@.id,
                instrument@,
            ),
            final(self)@ == (StoreView { instruments: final(self)@.instruments, ..old(self)@ }),
    {
        let ghost written = instrument@;
        self.instruments.insert(instrument.id, instrument);
        proof {
            old(self)@.lemma_put_instrument(self@, written.id, written);
        }
    }

    /// The table of forums.
    pub fn forums(&self) -> (t: &Table<u64, Forum>)
        ensures
            t@ == self@.forums,
    {
        &self.forums
    }

    /// Puts a forum into the store under its id, in place of the one that was
    /// there, if any.
    pub fn restore_forum(&mut self, forum: Forum)
        requires
            old(self).wf(),
        ensures
            final(self).wf(),
            final(self)@.forum_map() == old(self)@.forum_map().insert(
                forum@.id,
                forum@,
            ),
            final(self)@ == (StoreView { forums: final(self)@.forums, ..old(self)@ }),
    {
        let ghost written = forum@;
        self.forums.insert(forum.id, forum);
        proof {
            old(self)@.lemma_put_forum(self@, written.id, written);
        }
    }

    /// The table of posts.
    pub fn posts(&self) -> (t: &Table<u64, ForumData>)
        ensures
            t@ == self@.posts,
    {
        &self.posts
    }

    /// Puts a post into the store under its id, in place of the one that was
    /// there, if any.
    pub fn restore_post(&mut self, post: ForumData)
        requires
            old(self).wf(),
        ensures
            final(self).wf(),
            final(self)@.post_map() == old(self)@.post_map().insert(
                post@.id,
                post@,
            ),
            final(self)@ == (StoreView { posts: final(self)@.posts, ..old(self)@ }),
    {
        let ghost written = post@;
        self.posts.insert(post.id, post);
        proof {
            old(self)@.lemma_put_post(self@, written.id, written);
        }
    }
}

} // verus!
