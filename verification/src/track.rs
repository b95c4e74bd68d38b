//! The playback state that the display shows: plain values, built once and
//! replaced as a whole when a newer state arrives.
use std::collections::HashMap;
use vstd::prelude::*;

verus! {

/// The most played tracks over three spans of time.
#[derive(Debug)]
pub struct Data {
    pub short_term_top: Vec<SimpleTrack>,
    pub mid_term_top: Vec<SimpleTrack>,
    pub long_term_top: Vec<SimpleTrack>,
}

/// An artist of a track.
#[derive(Debug, Clone)]
pub struct SimpleArtist {
    pub name: String,
    pub url: Option<String>,
}

/// A track, with its length in whole seconds.
#[derive(Debug, Clone)]
pub struct SimpleTrack {
    pub name: String,
    pub artists: Vec<SimpleArtist>,
    pub image_url: Option<String>,
    pub small_url: Option<String>,
    pub url: Option<String>,
    pub duration: u32,
}

/// What is playing now, and how many seconds of it have passed.
#[derive(Debug, Clone)]
pub struct Playing {
    pub device: Device,
    pub context: Option<Context>,
    pub repeat: RepeatState,
    pub shuffled: bool,
    pub playing: SimpleTrack,
    pub progress_secs: u32,
}

/// A track that was played, and when.
#[derive(Debug)]
pub struct LastPlayed {
    pub track: SimpleTrack,
    pub context: Option<Context>,
    pub played_at: String,
}

/// Where playback was started from: an album, a playlist and the like.
#[derive(Clone, Debug, PartialEq, Eq)]
pub struct Context {
    pub uri: String,
    pub href: String,
    pub external_urls: HashMap<String, String>,
    pub _type: Type,
}

/// The device that plays.
#[derive(Clone, Debug, PartialEq, Eq)]
pub struct Device {
    pub id: Option<String>,
    pub is_active: bool,
    pub is_private_session: bool,
    pub is_restricted: bool,
    pub name: String,
    pub _type: DeviceType,
    pub volume_percent: Option<u32>,
}

/// What is repeated when a track ends.
#[derive(Clone, Debug, Copy, PartialEq, Eq, Structural)]
pub enum RepeatState {
    Off,
    Track,
    Context,
}

/// The kind of a playing device.
#[derive(Clone, Debug, PartialEq, Eq, Structural)]
pub enum DeviceType {
    Computer,
    Tablet,
    Smartphone,
    Speaker,
    Tv,
    Avr,
    Stb,
    AudioDongle,
    GameConsole,
    CastVideo,
    CastAudio,
    Automobile,
    Unknown,
}

/// The kind of thing that a context or a link names.
#[derive(Clone, Copy, PartialEq, Eq, Debug, Structural)]
pub enum Type {
    Artist,
    Album,
    Track,
    Playlist,
    User,
    Show,
    Episode,
    Collection,
    Collectionyourepisodes,
}

} // verus!
