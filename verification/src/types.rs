//! The records that the store keeps, and their views.
//!
//! The view of a record holds the same fields as mathematical values: text as
//! a sequence of characters, bytes as a sequence of bytes, lists as sequences.

use vstd::prelude::*;

verus! {

/// A summary of another user: who they are and how they show.
#[derive(Debug, PartialEq, Eq)]
pub struct Friend {
    pub principal: String,
    pub avatar: Vec<u8>,
    pub username: String,
}

/// The view of a [`Friend`].
pub struct FriendView {
    pub principal: Seq<char>,
    pub avatar: Seq<u8>,
    pub username: Seq<char>,
}

impl View for Friend {
    type V = FriendView;

    open spec fn view(&self) -> FriendView {
        FriendView { principal: self.principal@, avatar: self.avatar@, username: self.username@ }
    }
}

impl DeepView for Friend {
    type V = FriendView;

    open spec fn deep_view(&self) -> FriendView {
        self@
    }
}

impl Clone for Friend {
    fn clone(&self) -> (r: Self)
        ensures
            r@ == self@,
    {
        Friend {
            principal: self.principal.clone(),
            avatar: self.avatar.clone(),
            username: self.username.clone(),
        }
    }
}

/// A user's profile, with the friendships and pending requests it is part of.
#[derive(Debug, PartialEq, Eq)]
pub struct Profile {
    pub principal: String,
    pub username: String,
    pub avatar: Vec<u8>,
    pub pob: String,
    pub instruments: String,
    pub bio: Option<String>,
    pub friends: Vec<String>,
    pub incoming_fr: Vec<Friend>,
    pub outcoming_fr: Vec<Friend>,
}

/// The view of a [`Profile`].
pub struct ProfileView {
    pub principal: Seq<char>,
    pub username: Seq<char>,
    pub avatar: Seq<u8>,
    pub pob: Seq<char>,
    pub instruments: Seq<char>,
    pub bio: Option<Seq<char>>,
    pub friends: Seq<Seq<char>>,
    pub incoming_fr: Seq<FriendView>,
    pub outcoming_fr: Seq<FriendView>,
}

impl View for Profile {
    type V = ProfileView;

    open spec fn view(&self) -> ProfileView {
        ProfileView {
            principal: self.principal@,
            username: self.username@,
            avatar: self.avatar@,
            pob: self.pob@,
            instruments: self.instruments@,
            bio: self.bio.deep_view(),
            friends: self.friends.deep_view(),
            incoming_fr: self.incoming_fr.deep_view(),
            outcoming_fr: self.outcoming_fr.deep_view(),
        }
    }
}

impl DeepView for Profile {
    type V = ProfileView;

    open spec fn deep_view(&self) -> ProfileView {
        self@
    }
}

impl Clone for Profile {
    fn clone(&self) -> (r: Self)
        ensures
            r@ == self@,
    {
        let r = Profile {
            principal: self.principal.clone(),
            username: self.username.clone(),
            avatar: self.avatar.clone(),
            pob: self.pob.clone(),
            instruments: self.instruments.clone(),
            bio: self.bio.clone(),
            friends: self.friends.clone(),
            incoming_fr: self.incoming_fr.clone(),
            outcoming_fr: self.outcoming_fr.clone(),
        };
        assert(r.friends.deep_view() =~= self.friends.deep_view());
        assert(r.incoming_fr.deep_view() =~= self.incoming_fr.deep_view());
        assert(r.outcoming_fr.deep_view() =~= self.outcoming_fr.deep_view());
        r
    }
}

/// A tune of the shared tune book, with the users who keep it in theirs.
#[derive(Debug, PartialEq, Eq)]
pub struct Tune {
    pub origin: bool,
    pub title: String,
    pub tune_data: String,
    pub timestamp: u64,
    pub principals: Vec<String>,
    pub username: Option<String>,
}

/// The view of a [`Tune`].
pub struct TuneView {
    pub origin: bool,
    pub title: Seq<char>,
    pub tune_data: Seq<char>,
    pub timestamp: u64,
    pub principals: Seq<Seq<char>>,
    pub username: Option<Seq<char>>,
}

impl View for Tune {
    type V = TuneView;

    open spec fn view(&self) -> TuneView {
        TuneView {
            origin: self.origin,
            title: self.title@,
            tune_data: self.tune_data@,
            timestamp: self.timestamp,
            principals: self.principals.deep_view(),
            username: self.username.deep_view(),
        }
    }
}

impl DeepView for Tune {
    type V = TuneView;

    open spec fn deep_view(&self) -> TuneView {
        self@
    }
}

impl Clone for Tune {
    fn clone(&self) -> (r: Self)
        ensures
            r@ == self@,
    {
        let r = Tune {
            origin: self.origin,
            title: self.title.clone(),
            tune_data: self.tune_data.clone(),
            timestamp: self.timestamp,
            principals: self.principals.clone(),
            username: self.username.clone(),
        };
        assert(r.principals.deep_view() =~= self.principals.deep_view());
        r
    }
}

/// What a tune list shows of a tune.
#[derive(Debug, PartialEq, Eq)]
pub struct Tuneinfo {
    pub title: String,
    pub tune_data: String,
    pub username: Option<String>,
}

/// The view of a [`Tuneinfo`].
pub struct TuneinfoView {
    pub title: Seq<char>,
    pub tune_data: Seq<char>,
    pub username: Option<Seq<char>>,
}

impl View for Tuneinfo {
    type V = TuneinfoView;

    open spec fn view(&self) -> TuneinfoView {
        TuneinfoView {
            title: self.title@,
            tune_data: self.tune_data@,
            username: self.username.deep_view(),
        }
    }
}

impl DeepView for Tuneinfo {
    type V = TuneinfoView;

    open spec fn deep_view(&self) -> TuneinfoView {
        self@
    }
}

impl Clone for Tuneinfo {
    fn clone(&self) -> (r: Self)
        ensures
            r@ == self@,
    {
        Tuneinfo {
            title: self.title.clone(),
            tune_data: self.tune_data.clone(),
            username: self.username.clone(),
        }
    }
}

/// A local session listing.
#[derive(Debug, PartialEq, Eq)]
pub struct Session {
    pub id: u32,
    pub principal: String,
    pub username: String,
    pub name: String,
    pub location: String,
    pub daytime: String,
    pub contact: String,
    pub comment: String,
    pub recurring: String,
}

/// The view of a [`Session`].
pub struct SessionView {
    pub id: u32,
    pub principal: Seq<char>,
    pub username: Seq<char>,
    pub name: Seq<char>,
    pub location: Seq<char>,
    pub daytime: Seq<char>,
    pub contact: Seq<char>,
    pub comment: Seq<char>,
    pub recurring: Seq<char>,
}

impl View for Session {
    type V = SessionView;

    open spec fn view(&self) -> SessionView {
        SessionView {
            id: self.id,
            principal: self.principal@,
            username: self.username@,
            name: self.name@,
            location: self.location@,
            daytime: self.daytime@,
            contact: self.contact@,
            comment: self.comment@,
            recurring: self.recurring@,
        }
    }
}

impl DeepView for Session {
    type V = SessionView;

    open spec fn deep_view(&self) -> SessionView {
        self@
    }
}

impl Clone for Session {
    fn clone(&self) -> (r: Self)
        ensures
            r@ == self@,
    {
        Session {
            id: self.id,
            principal: self.principal.clone(),
            username: self.username.clone(),
            name: self.name.clone(),
            location: self.location.clone(),
            daytime: self.daytime.clone(),
            contact: self.contact.clone(),
            comment: self.comment.clone(),
            recurring: self.recurring.clone(),
        }
    }
}

/// An instrument offered on the marketplace.
#[derive(Debug, PartialEq, Eq)]
pub struct Instrument {
    pub id: u32,
    pub seller_principal: String,
    pub buyer_principal: String,
    pub username: String,
    pub name: String,
    pub location: String,
    pub product: String,
    pub comment: String,
    pub price: String,
    pub photos: Vec<Vec<u8>>,
}

/// The view of an [`Instrument`].
pub struct InstrumentView {
    pub id: u32,
    pub seller_principal: Seq<char>,
    pub buyer_principal: Seq<char>,
    pub username: Seq<char>,
    pub name: Seq<char>,
    pub location: Seq<char>,
    pub product: Seq<char>,
    pub comment: Seq<char>,
    pub price: Seq<char>,
    pub photos: Seq<Seq<u8>>,
}

impl View for Instrument {
    type V = InstrumentView;

    open spec fn view(&self) -> InstrumentView {
        InstrumentView {
            id: self.id,
            seller_principal: self.seller_principal@,
            buyer_principal: self.buyer_principal@,
            username: self.username@,
            name: self.name@,
            location: self.location@,
            product: self.product@,
            comment: self.comment@,
            price: self.price@,
            photos: self.photos.deep_view(),
        }
    }
}

/// A copy of a list of byte strings.
pub fn clone_blobs(v: &Vec<Vec<u8>>) -> (r: Vec<Vec<u8>>)
    ensures
        r.deep_view() == v.deep_view(),
{
    let r = v.clone();
    assert forall|i: int| 0 <= i < v.len() implies r[i]@ == v[i]@ by {
        assert(cloned::<Vec<u8>>(v[i], r[i]));
        assert(r[i]@ =~= v[i]@);
    }
    assert(r.deep_view() =~= v.deep_view());
    r
}

impl DeepView for Instrument {
    type V = InstrumentView;

    open spec fn deep_view(&self) -> InstrumentView {
        self@
    }
}

impl Clone for Instrument {
    fn clone(&self) -> (r: Self)
        ensures
            r@ == self@,
    {
        Instrument {
            id: self.id,
            seller_principal: self.seller_principal.clone(),
            buyer_principal: self.buyer_principal.clone(),
            username: self.username.clone(),
            name: self.name.clone(),
            location: self.location.clone(),
            product: self.product.clone(),
            comment: self.comment.clone(),
            price: self.price.clone(),
            photos: clone_blobs(&self.photos),
        }
    }
}

/// A discussion forum and the ids of the posts threaded under it.
#[derive(Debug, PartialEq, Eq)]
pub struct Forum {
    pub id: u64,
    pub poster_principal: String,
    pub username: String,
    pub forum_name: String,
    pub forum_comment: String,
    pub principals: Vec<String>,
    pub created_at: u64,
    pub last_updated_at: Option<u64>,
    pub threads: Option<Vec<u64>>,
}

/// The view of a [`Forum`].
pub struct ForumView {
    pub id: u64,
    pub poster_principal: Seq<char>,
    pub username: Seq<char>,
    pub forum_name: Seq<char>,
    pub forum_comment: Seq<char>,
    pub principals: Seq<Seq<char>>,
    pub created_at: u64,
    pub last_updated_at: Option<u64>,
    pub threads: Option<Seq<u64>>,
}

impl View for Forum {
    type V = ForumView;

    open spec fn view(&self) -> ForumView {
        ForumView {
            id: self.id,
            poster_principal: self.poster_principal@,
            username: self.username@,
            forum_name: self.forum_name@,
            forum_comment: self.forum_comment@,
            principals: self.principals.deep_view(),
            created_at: self.created_at,
            last_updated_at: self.last_updated_at,
            threads: self.threads.deep_view(),
        }
    }
}

impl DeepView for Forum {
    type V = ForumView;

    open spec fn deep_view(&self) -> ForumView {
        self@
    }
}

impl Clone for Forum {
    fn clone(&self) -> (r: Self)
        ensures
            r@ == self@,
    {
        let r = Forum {
            id: self.id,
            poster_principal: self.poster_principal.clone(),
            username: self.username.clone(),
            forum_name: self.forum_name.clone(),
            forum_comment: self.forum_comment.clone(),
            principals: self.principals.clone(),
            created_at: self.created_at,
            last_updated_at: self.last_updated_at,
            threads: match &self.threads {
                Some(t) => {
                    let c = t.clone();
                    assert(c.deep_view() =~= t.deep_view());
                    Some(c)
                },
                None => None,
            },
        };
        assert(r.principals.deep_view() =~= self.principals.deep_view());
        r
    }
}

/// A post of a forum.
#[derive(Debug, PartialEq, Eq)]
pub struct ForumData {
    pub id: u64,
    pub forum_id: Option<u64>,
    pub username: String,
    pub forum_comment: String,
    pub principal: String,
    pub created_at: u64,
    pub updated_at: Option<u64>,
    pub photos: Option<Vec<Vec<u8>>>,
    pub likes: u32,
}

/// The view of a [`ForumData`].
pub struct ForumDataView {
    pub id: u64,
    pub forum_id: Option<u64>,
    pub username: Seq<char>,
    pub forum_comment: Seq<char>,
    pub principal: Seq<char>,
    pub created_at: u64,
    pub updated_at: Option<u64>,
    pub photos: Option<Seq<Seq<u8>>>,
    pub likes: u32,
}

impl View for ForumData {
    type V = ForumDataView;

    open spec fn view(&self) -> ForumDataView {
        ForumDataView {
            id: self.id,
            forum_id: self.forum_id,
            username: self.username@,
            forum_comment: self.forum_comment@,
            principal: self.principal@,
            created_at: self.created_at,
            updated_at: self.updated_at,
            photos: self.photos.deep_view(),
            likes: self.likes,
        }
    }
}

impl DeepView for ForumData {
    type V = ForumDataView;

    open spec fn deep_view(&self) -> ForumDataView {
        self@
    }
}

impl Clone for ForumData {
    fn clone(&self) -> (r: Self)
        ensures
            r@ == self@,
    {
        ForumData {
            id: self.id,
            forum_id: self.forum_id,
            username: self.username.clone(),
            forum_comment: self.forum_comment.clone(),
            principal: self.principal.clone(),
            created_at: self.created_at,
            updated_at: self.updated_at,
            photos: match &self.photos {
                Some(p) => Some(clone_blobs(p)),
                None => None,
            },
            likes: self.likes,
        }
    }
}

} // verus!
