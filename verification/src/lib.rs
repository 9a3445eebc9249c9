//! Settings, profile, audio-queue and presentation logic of the late.sh
//! terminal lounge, with its behaviour stated in contracts and proved.
//!
//! The database, SSH session and terminal drawing live outside this crate;
//! they hand these functions plain values and act on what comes back.

pub mod text;
pub mod user;
pub mod json;
pub mod ids;
pub mod tags;
pub mod prefs;
pub mod ignore;
pub mod profile;
pub mod audio;
pub mod cat;
pub mod frame;
pub mod booth;
pub mod settings;
pub mod theme_tree;
pub mod profile_view;
pub mod writeback;
