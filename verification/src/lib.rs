//! Follows what the radio station FIP is playing and scrobbles each new track to
//! Last.fm: the rules that decide which announcements are tracks, how a track is
//! written down and remembered, how the station's live feed is decoded, and how one
//! check of the station proceeds.
pub mod config;
pub mod devalue;
pub mod error;
pub mod fip_reader;
pub mod json;
pub mod text;
pub mod track;
pub mod track_store;
pub mod twifip;
