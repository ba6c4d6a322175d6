//! The record that a plain-text crash log decodes to.

use std::collections::HashMap;
use vstd::prelude::*;

verus! {

/// Why the application crashed, in its own words.
#[derive(Debug)]
pub struct Crash {
    pub reason: String,
}

/// The game's clocks when it crashed.
#[derive(Debug)]
pub struct Timers {
    pub calendar: String,
    pub seconds: u32,
    pub ticks: u32,
}

/// The state of the game: its log, the settings that differ from their
/// defaults, and its clocks.
#[derive(Debug)]
pub struct Game {
    pub gamelog: Vec<String>,
    pub settings_changed: HashMap<String, String>,
    pub timers: Timers,
}

/// The drivers and base sets that the application ran with.
#[derive(Debug)]
pub struct Configuration {
    pub blitter: String,
    pub graphics_set: String,
    pub music_driver: String,
    pub music_set: String,
    pub network: String,
    pub sound_driver: String,
    pub sound_set: String,
    pub video_driver: String,
    pub video_info: String,
}

/// Which version of the application crashed.
#[derive(Debug)]
pub struct OpenTTDVersion {
    pub content: String,
    pub hash: String,
    pub modified: u32,
    pub newgrf: String,
    pub revision: String,
    pub tagged: u32,
}

/// How the application was built.
#[derive(Debug)]
pub struct OpenTTD {
    pub bits: u32,
    pub build_date: String,
    pub dedicated_build: String,
    pub endian: String,
    pub version: OpenTTDVersion,
}

/// The machine's operating system, memory and logical cores.
#[derive(Debug)]
pub struct OS {
    pub hardware_concurrency: u32,
    pub memory: String,
    pub os: String,
    pub release: String,
}

/// What the application ran as and on.
#[derive(Debug)]
pub struct Info {
    pub configuration: Configuration,
    pub openttd: OpenTTD,
    pub os: OS,
}

/// A whole crash log.
#[derive(Debug)]
pub struct CrashLog {
    pub crash: Crash,
    pub date: String,
    pub game: Game,
    pub info: Info,
    pub stacktrace: Vec<String>,
}

} // verus!
