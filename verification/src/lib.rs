//! A community backend for traditional-music players: profiles and friendships,
//! a shared tune book, session and instrument listings, and discussion forums,
//! kept in one explicit store of ordered tables.
//!
//! Every operation takes the store as its first argument. Operations that stamp
//! a record take the current time as an argument, so that the library itself
//! never reads a clock.

pub mod forums;
pub mod friends;
pub mod instruments;
pub mod keys;
pub mod page;
pub mod pattern;
pub mod profiles;
pub mod seed;
pub mod sessions;
pub mod store;
pub mod table;
pub mod text;
pub mod tunes;
pub mod types;

pub use crate::forums::{
    add_forum, add_post_to_forum, delete_forum, delete_post, forum_posts_page, get_forum_posts,
    get_forum_posts_without_photos, get_forums, get_post_photos, like_post, update_forum_post,
};
pub use crate::friends::{accept_friend_request, cancel_friend_request, send_friend_request};
pub use crate::instruments::{add_instrument, delete_instrument, get_instruments};
pub use crate::profiles::{
    authentication, browse_people, get_friends, get_profile, get_profile_count, is_admin,
    update_profile, Conflict,
};
pub use crate::seed::{init, load_seed, SeedError, SeedText};
pub use crate::sessions::{
    add_session, delete_session, get_session_count, get_sessions, update_session,
};
pub use crate::store::Store;
pub use crate::tunes::{
    add_tune, filter_tunes, get_new_tunes_from_friends, get_original_tune, get_original_tune_list,
    get_tune_count, get_user_tune, get_user_tune_list, remove_tune, update_tune,
};
pub use crate::types::{Forum, ForumData, Friend, Instrument, Profile, Session, Tune, Tuneinfo};
