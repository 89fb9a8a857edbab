use vstd::prelude::*;

pub mod text;
pub mod text_diff;
pub mod order;
pub mod permissions;
pub mod auth;
pub mod transcription;
pub mod accessibility;
pub mod platform;
pub mod audio_devices;
pub mod tray;
pub mod commands;
pub mod linux;
pub mod pill;
pub mod uia;
pub mod db;
pub mod migrations;
pub mod ax;
pub mod emitters;
pub mod recorder;
pub mod screen_capture;
pub mod field_info;

verus! {

} // verus!
