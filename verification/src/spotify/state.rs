//! The Spotify Connect endpoint's state as mirrored to the frontend, and how
//! each player event moves it.

use vstd::prelude::*;

use super::meta::TrackMeta;
use crate::text::owned;

verus! {

/// The name the Connect endpoint advertises.
pub const DEVICE_NAME: &'static str = "MusicSync";

/// Coarse transport state of the connected Spotify session.
#[derive(Debug, Clone, Copy, PartialEq, Eq, Structural)]
pub enum PlayState {
    /// Nothing playing (or no client connected).
    Stopped,
    /// Audio is flowing.
    Playing,
    /// A client is connected but playback is paused.
    Paused,
}

impl Default for PlayState {
    fn default() -> (r: Self)
        ensures
            r == PlayState::Stopped,
    {
        PlayState::Stopped
    }
}

/// The whole-endpoint Spotify state.
#[derive(Debug, Clone)]
pub struct SpotifyState {
    /// The endpoint is advertising over zeroconf.
    pub running: bool,
    /// A Spotify client has taken over this endpoint.
    pub connected: bool,
    /// Current transport state.
    pub play_state: PlayState,
    /// Now-playing metadata, if a track has been loaded.
    pub track: Option<TrackMeta>,
    /// Last-reported playback position (ms).
    pub position_ms: u32,
    /// Connect volume on Spotify's 16-bit scale.
    pub volume: u16,
    /// The advertised device name (the endpoint's name when running).
    pub device_name: String,
}

impl Default for SpotifyState {
    fn default() -> (r: Self)
        ensures
            !r.running,
            !r.connected,
            r.play_state == PlayState::Stopped,
            r.track is None,
            r.position_ms == 0,
            r.volume == 0,
            r.device_name@.len() == 0,
    {
        SpotifyState {
            running: false,
            connected: false,
            play_state: PlayState::Stopped,
            track: None,
            position_ms: 0,
            volume: 0,
            device_name: String::new(),
        }
    }
}

impl SpotifyState {
    /// The state right after the endpoint starts advertising: running under
    /// its name, everything else reset.
    pub fn advertising() -> (r: Self)
        ensures
            r.running,
            !r.connected,
            r.play_state == PlayState::Stopped,
            r.track is None,
            r.position_ms == 0,
            r.volume == 0,
            r.device_name@ == DEVICE_NAME@,
    {
        SpotifyState {
            running: true,
            connected: false,
            play_state: PlayState::Stopped,
            track: None,
            position_ms: 0,
            volume: 0,
            device_name: owned(DEVICE_NAME),
        }
    }
}

/// A player event, as far as the mirrored state cares.
#[derive(Debug, Clone)]
pub enum SpotifyEvent {
    SessionConnected,
    SessionDisconnected,
    TrackChanged(TrackMeta),
    Playing { position_ms: u32 },
    Paused { position_ms: u32 },
    Stopped,
    VolumeChanged { volume: u16 },
    /// Any event the mirrored state ignores.
    Other,
}

/// `s` with exactly the listed fields changed: what each event does.
pub open spec fn after_event(s: SpotifyState, ev: SpotifyEvent) -> SpotifyState {
    match ev {
        SpotifyEvent::SessionConnected => SpotifyState { connected: true, ..s },
        SpotifyEvent::SessionDisconnected => SpotifyState {
            connected: false,
            play_state: PlayState::Stopped,
            ..s
        },
        SpotifyEvent::TrackChanged(t) => SpotifyState { track: Some(t), ..s },
        SpotifyEvent::Playing { position_ms } => SpotifyState {
            play_state: PlayState::Playing,
            position_ms,
            ..s
        },
        SpotifyEvent::Paused { position_ms } => SpotifyState {
            play_state: PlayState::Paused,
            position_ms,
            ..s
        },
        SpotifyEvent::Stopped => SpotifyState { play_state: PlayState::Stopped, ..s },
        SpotifyEvent::VolumeChanged { volume } => SpotifyState { volume, ..s },
        SpotifyEvent::Other => s,
    }
}

/// Apply one event to the mirrored state. Returns whether the state changed
/// meaningfully enough to announce.
pub fn apply_event(state: &mut SpotifyState, event: SpotifyEvent) -> (changed: bool)
    ensures
        *final(state) == after_event(*old(state), event),
        changed == !(event is Other),
{
    match event {
        SpotifyEvent::SessionConnected => {
            state.connected = true;
            true
        },
        SpotifyEvent::SessionDisconnected => {
            state.connected = false;
            state.play_state = PlayState::Stopped;
            true
        },
        SpotifyEvent::TrackChanged(t) => {
            state.track = Some(t);
            true
        },
        SpotifyEvent::Playing { position_ms } => {
            state.play_state = PlayState::Playing;
            state.position_ms = position_ms;
            true
        },
        SpotifyEvent::Paused { position_ms } => {
            state.play_state = PlayState::Paused;
            state.position_ms = position_ms;
            true
        },
        SpotifyEvent::Stopped => {
            state.play_state = PlayState::Stopped;
            true
        },
        SpotifyEvent::VolumeChanged { volume } => {
            state.volume = volume;
            true
        },
        SpotifyEvent::Other => false,
    }
}

/// What each player event does to the mirrored state, field by field: a
/// pause shows `Paused` at the reported position, a play `Playing` at its
/// position, a stop or a disconnect `Stopped`; a connect, a track change and
/// a volume change set just that field; an unknown event changes nothing.
/// No event touches whether the endpoint runs or the name it advertises.
pub proof fn law_event_effects(s: SpotifyState, ev: SpotifyEvent)
    ensures
        ({
            let t = after_event(s, ev);
            &&& t.running == s.running
            &&& t.device_name == s.device_name
            &&& ev matches SpotifyEvent::Paused { position_ms } ==> t.play_state == PlayState::Paused
                && t.position_ms == position_ms && t.connected == s.connected && t.track == s.track
                && t.volume == s.volume
            &&& ev matches SpotifyEvent::Playing { position_ms } ==> t.play_state
                == PlayState::Playing && t.position_ms == position_ms && t.connected == s.connected
                && t.track == s.track && t.volume == s.volume
            &&& ev is Stopped ==> t.play_state == PlayState::Stopped && t.position_ms
                == s.position_ms && t.connected == s.connected && t.track == s.track && t.volume
                == s.volume
            &&& ev is SessionDisconnected ==> !t.connected && t.play_state == PlayState::Stopped
                && t.position_ms == s.position_ms && t.track == s.track && t.volume == s.volume
            &&& ev is SessionConnected ==> t.connected && t.play_state == s.play_state
                && t.position_ms == s.position_ms && t.track == s.track && t.volume == s.volume
            &&& ev matches SpotifyEvent::TrackChanged(m) ==> t.track == Some(m) && t.connected
                == s.connected && t.play_state == s.play_state && t.position_ms == s.position_ms
                && t.volume == s.volume
            &&& ev matches SpotifyEvent::VolumeChanged { volume } ==> t.volume == volume
                && t.connected == s.connected && t.play_state == s.play_state && t.position_ms
                == s.position_ms && t.track == s.track
            &&& ev is Other ==> t == s
        }),
{
}

/// A pause after a play shows `Paused` at the pause's position, and a play
/// after a pause resumes `Playing` at the play's position: the latest
/// transport event always wins.
pub proof fn law_latest_transport_event_wins(s: SpotifyState, p1: u32, p2: u32)
    ensures
        after_event(
            after_event(s, SpotifyEvent::Playing { position_ms: p1 }),
            SpotifyEvent::Paused { position_ms: p2 },
        ).play_state == PlayState::Paused,
        after_event(
            after_event(s, SpotifyEvent::Playing { position_ms: p1 }),
            SpotifyEvent::Paused { position_ms: p2 },
        ).position_ms == p2,
        after_event(
            after_event(s, SpotifyEvent::Paused { position_ms: p1 }),
            SpotifyEvent::Playing { position_ms: p2 },
        ).play_state == PlayState::Playing,
        after_event(
            after_event(s, SpotifyEvent::Paused { position_ms: p1 }),
            SpotifyEvent::Playing { position_ms: p2 },
        ).position_ms == p2,
{
}

} // verus!
