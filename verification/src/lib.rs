//! TuneBeacon tells the world what is playing: it follows the media players of a desktop, looks
//! up what they play, and hands a settled message on to brokers, webhooks and listening histories.
//!
//! Everything here computes on plain values. What is read from and sent to the outside is the
//! business of the program around it.

use vstd::prelude::*;

pub mod artwork;
pub mod cache;
pub mod config;
pub mod delivery;
pub mod digest;
pub mod domain;
pub mod editor;
pub mod json;
pub mod lastfm;
pub mod listenbrainz;
pub mod mpris;
pub mod mqtt;
pub mod playback;
pub mod runtime;
pub mod screen;
pub mod selection;
pub mod submissions;
pub mod text;
pub mod tui;
pub mod verification;
pub mod web;
pub mod webhook;

verus! {

/// The name that the program goes by.
pub const APP_NAME: &'static str = "TuneBeacon";

/// The version of the program.
pub const APP_VERSION: &'static str = "0.2.0";

/// What the program calls itself in requests.
pub const USER_AGENT: &'static str = "TuneBeacon/0.2.0";

} // verus!
