//! The spoken-article player's state: what plays, where it stands, and what
//! each control asks of the player process. The process itself (starting
//! it, signalling it, writing to it, noticing that it ended) is the
//! caller's; each method takes what the caller saw and says what to do.
use vstd::prelude::*;
use super::backend::{seek_offset, seek_target, AudioBackend, PlaybackState};
use super::duration::{duration_fits, duration_seconds, parse_duration_to_secs};
use crate::text::{decimal, decimal_chars, push_chars, push_str, string_of};

verus! {

/// The player's state, without the process it drives.
#[derive(Debug)]
pub struct AudioPlayer {
    pub backend: Option<AudioBackend>,
    pub state: PlaybackState,
    pub current_title: Option<String>,
    pub current_url: Option<String>,
    pub elapsed_secs: u64,
    pub total_duration_secs: Option<u64>,
    /// The playback clock runs (the caller keeps the time of its last tick).
    pub ticking: bool,
    /// A player process is running.
    pub has_child: bool,
}

/// A signal for the player process.
#[derive(Debug, Clone, Copy, PartialEq, Eq, Structural)]
pub enum PlayerSignal {
    /// Suspend it (`SIGSTOP`).
    Stop,
    /// Let it go on (`SIGCONT`).
    Continue,
}

/// The next step of a seek.
#[derive(Debug)]
pub enum SeekStep {
    /// The seek cannot be done.
    Fail,
    /// Write `command` to mpv's standard input; if that works, call
    /// `seek_done(target)`, else ask again without mpv.
    Tell { command: String, target: u64 },
    /// Start the recording again at `target`, and pause it after when
    /// `pause_after`.
    Restart { title: String, url: String, target: u64, total: Option<u64>, pause_after: bool },
}

/// `d` written in decimal, with a minus sign when negative.
pub open spec fn signed_decimal(d: int) -> Seq<char> {
    if d < 0 {
        "-"@ + decimal((-d) as nat)
    } else {
        decimal(d as nat)
    }
}

/// A player that plays nothing: every field cleared but the backend.
pub open spec fn stopped(p: AudioPlayer) -> AudioPlayer {
    AudioPlayer {
        backend: p.backend,
        state: PlaybackState::Stopped,
        current_title: None,
        current_url: None,
        elapsed_secs: 0,
        total_duration_secs: None,
        ticking: false,
        has_child: false,
    }
}

/// A player of `title` at `url` started at `start` seconds.
pub open spec fn playing(p: AudioPlayer, title: Seq<char>, url: Seq<char>, start: u64, total: Option<u64>) -> bool {
    &&& p.state == PlaybackState::Playing
    &&& p.current_title matches Some(t) && t@ == title
    &&& p.current_url matches Some(u) && u@ == url
    &&& p.elapsed_secs == start
    &&& p.total_duration_secs == total
    &&& p.ticking
    &&& p.has_child
}

/// `p` paused: the clock stops.
pub open spec fn paused(p: AudioPlayer) -> AudioPlayer {
    AudioPlayer { state: PlaybackState::Paused, ticking: false, ..p }
}

/// `p` playing again: the clock runs.
pub open spec fn resumed(p: AudioPlayer) -> AudioPlayer {
    AudioPlayer { state: PlaybackState::Playing, ticking: true, ..p }
}

/// Pausing and then resuming a player that plays leaves it as it was;
/// toggling twice does the same, from playing or from paused.
pub proof fn pause_then_resume_restores(p: AudioPlayer)
    ensures
        p.state == PlaybackState::Playing && p.ticking ==> resumed(paused(p)) == p,
        p.state == PlaybackState::Paused && !p.ticking ==> paused(resumed(p)) == p,
{
}

impl AudioPlayer {
    /// A stopped player for `backend` (the player found installed, if any).
    pub fn new(backend: Option<AudioBackend>) -> (r: Self)
        ensures
            r == stopped(r),
            r.backend == backend,
    {
        AudioPlayer {
            backend,
            state: PlaybackState::Stopped,
            current_title: None,
            current_url: None,
            elapsed_secs: 0,
            total_duration_secs: None,
            ticking: false,
            has_child: false,
        }
    }

    /// Something plays.
    pub fn is_playing(&self) -> (r: bool)
        ensures
            r == (self.state == PlaybackState::Playing),
    {
        self.state == PlaybackState::Playing
    }

    /// Something plays or is paused.
    pub fn is_active(&self) -> (r: bool)
        ensures
            r == (self.state != PlaybackState::Stopped),
    {
        self.state != PlaybackState::Stopped
    }

    /// Forgets what played; the caller ends the process first.
    pub fn stop(&mut self)
        ensures
            *final(self) == stopped(*old(self)),
    {
        self.state = PlaybackState::Stopped;
        self.current_title = None;
        self.current_url = None;
        self.elapsed_secs = 0;
        self.total_duration_secs = None;
        self.ticking = false;
        self.has_child = false;
    }

    /// Records the start of `title` at `url` from `start_secs`, after the
    /// caller ended the previous process and, when there is a backend,
    /// started one (`spawned` says whether that worked). Returns whether
    /// playback started: never without a backend.
    pub fn play_at_offset(&mut self, title: &str, url: &str, start_secs: u64, total_duration_secs: Option<u64>, spawned: bool) -> (r: bool)
        ensures
            r == (old(self).backend is Some && spawned),
            r ==> playing(*final(self), title@, url@, start_secs, total_duration_secs),
            r ==> final(self).backend == old(self).backend,
            !r ==> *final(self) == stopped(*old(self)),
    {
        self.stop();
        if self.backend.is_none() || !spawned {
            return false;
        }
        self.state = PlaybackState::Playing;
        self.current_title = Some(string_of(title));
        self.current_url = Some(string_of(url));
        self.elapsed_secs = start_secs;
        self.total_duration_secs = total_duration_secs;
        self.ticking = true;
        self.has_child = true;
        true
    }

    /// Starts `title` from the beginning, its length read from
    /// `duration_str` when given.
    pub fn play(&mut self, title: &str, url: &str, duration_str: Option<&str>, spawned: bool) -> (r: bool)
        requires
            duration_str matches Some(d) ==> duration_fits(d@),
        ensures
            ({
                let total: Option<u64> = match duration_str {
                    Some(d) => match duration_seconds(d@) {
                        Some(x) => Some(x as u64),
                        None => None,
                    },
                    None => None,
                };
                &&& r == (old(self).backend is Some && spawned)
                &&& r ==> playing(*final(self), title@, url@, 0, total)
                &&& r ==> final(self).backend == old(self).backend
                &&& !r ==> *final(self) == stopped(*old(self))
            }),
    {
        let total = match duration_str {
            Some(d) => parse_duration_to_secs(d),
            None => None,
        };
        self.play_at_offset(title, url, 0, total, spawned)
    }

    /// Pauses what plays: the process is to be suspended when this says so.
    pub fn pause(&mut self) -> (r: bool)
        ensures
            r == (old(self).state == PlaybackState::Playing && old(self).has_child),
            r ==> *final(self) == paused(*old(self)),
            !r ==> *final(self) == *old(self),
    {
        if self.state == PlaybackState::Playing && self.has_child {
            self.state = PlaybackState::Paused;
            self.ticking = false;
            true
        } else {
            false
        }
    }

    /// Resumes what is paused: the process is to continue when this says so.
    pub fn resume(&mut self) -> (r: bool)
        ensures
            r == (old(self).state == PlaybackState::Paused && old(self).has_child),
            r ==> *final(self) == resumed(*old(self)),
            !r ==> *final(self) == *old(self),
    {
        if self.state == PlaybackState::Paused && self.has_child {
            self.state = PlaybackState::Playing;
            self.ticking = true;
            true
        } else {
            false
        }
    }

    /// Pauses what plays, resumes what is paused; returns the signal for
    /// the process, if any.
    pub fn toggle_pause(&mut self) -> (r: Option<PlayerSignal>)
        ensures
            old(self).state == PlaybackState::Playing && old(self).has_child ==> r == Some(PlayerSignal::Stop)
                && *final(self) == paused(*old(self)),
            old(self).state == PlaybackState::Paused && old(self).has_child ==> r == Some(PlayerSignal::Continue)
                && *final(self) == resumed(*old(self)),
            old(self).state == PlaybackState::Stopped || !old(self).has_child ==> r is None && *final(self) == *old(
                self,
            ),
    {
        match self.state {
            PlaybackState::Playing => if self.pause() {
                Some(PlayerSignal::Stop)
            } else {
                None
            },
            PlaybackState::Paused => if self.resume() {
                Some(PlayerSignal::Continue)
            } else {
                None
            },
            PlaybackState::Stopped => None,
        }
    }

    /// Brings the player up to date: `secs_since_tick` whole seconds went
    /// by since the clock's last tick, and `child_exited` says whether the
    /// process ended. Returns whether the caller is to restart its clock
    /// (the clock was started, or moved on by at least a second).
    pub fn poll_status(&mut self, secs_since_tick: u64, child_exited: bool) -> (r: bool)
        ensures
            r == (old(self).state == PlaybackState::Playing && (!old(self).ticking || secs_since_tick > 0)),
            child_exited && old(self).has_child ==> *final(self) == stopped(*old(self)),
            !(child_exited && old(self).has_child) ==> *final(self) == (AudioPlayer {
                elapsed_secs: if old(self).state == PlaybackState::Playing && old(self).ticking {
                    if old(self).elapsed_secs + secs_since_tick > u64::MAX {
                        u64::MAX
                    } else {
                        (old(self).elapsed_secs + secs_since_tick) as u64
                    }
                } else {
                    old(self).elapsed_secs
                },
                ticking: old(self).ticking || old(self).state == PlaybackState::Playing,
                ..*old(self)
            }),
    {
        let mut restart = false;
        if self.state == PlaybackState::Playing {
            if self.ticking {
                if secs_since_tick > 0 {
                    self.elapsed_secs = self.elapsed_secs.saturating_add(secs_since_tick);
                    restart = true;
                }
            } else {
                self.ticking = true;
                restart = true;
            }
        }
        if child_exited && self.has_child {
            self.stop();
        }
        restart
    }

    /// The next step of a seek by `delta_secs`: mpv is told over its
    /// standard input when `try_mpv` and it runs; otherwise what plays is
    /// started again at the new position. Nothing is done when nothing
    /// plays.
    pub fn seek(&self, delta_secs: i64, try_mpv: bool) -> (r: SeekStep)
        requires
            delta_secs > i64::MIN,
        ensures
            ({
                let target = seek_offset(self.elapsed_secs as int, delta_secs as int, self.total_duration_secs);
                if self.state == PlaybackState::Stopped {
                    r is Fail
                } else if try_mpv && self.has_child && self.backend == Some(AudioBackend::Mpv) {
                    r matches SeekStep::Tell { command, target: t } && command@ == "seek "@ + signed_decimal(
                        delta_secs as int,
                    ) + "\n"@ && t == target
                } else {
                    match (self.current_title, self.current_url) {
                        (Some(title), Some(url)) => r matches SeekStep::Restart {
                            title: t,
                            url: u,
                            target: g,
                            total,
                            pause_after,
                        } && t@ == title@ && u@ == url@ && g == target && total == self.total_duration_secs
                            && pause_after == (self.state == PlaybackState::Paused),
                        _ => r is Fail,
                    }
                }
            }),
    {
        if self.state == PlaybackState::Stopped {
            return SeekStep::Fail;
        }
        let target = seek_target(self.elapsed_secs, delta_secs, self.total_duration_secs);
        let mpv = match self.backend {
            Some(AudioBackend::Mpv) => true,
            _ => false,
        };
        if try_mpv && self.has_child && mpv {
            let mut command = string_of("seek ");
            if delta_secs < 0 {
                push_str(&mut command, "-");
                let n: i64 = -delta_secs;
                let digits = decimal_chars(n as u64);
                push_chars(&mut command, &digits);
            } else {
                let digits = decimal_chars(delta_secs as u64);
                push_chars(&mut command, &digits);
            }
            push_str(&mut command, "\n");
            return SeekStep::Tell { command, target };
        }
        match (&self.current_title, &self.current_url) {
            (Some(title), Some(url)) => SeekStep::Restart {
                title: string_of(title.as_str()),
                url: string_of(url.as_str()),
                target,
                total: self.total_duration_secs,
                pause_after: self.state == PlaybackState::Paused,
            },
            _ => SeekStep::Fail,
        }
    }

    /// mpv took the seek to `target`: the position moves there and the
    /// clock restarts.
    pub fn seek_done(&mut self, target: u64)
        ensures
            *final(self) == (AudioPlayer { elapsed_secs: target, ticking: true, ..*old(self) }),
    {
        self.elapsed_secs = target;
        self.ticking = true;
    }
}

} // verus!
