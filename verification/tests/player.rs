use wikid::audio::backend::{AudioBackend, PlaybackState};
use wikid::audio::player::{AudioPlayer, PlayerSignal, SeekStep};

fn playing_mpv() -> AudioPlayer {
    let mut p = AudioPlayer::new(Some(AudioBackend::Mpv));
    assert!(p.play("Cat", "https://upload.example.org/Cat.ogg", Some("2:05"), true));
    p
}

#[test]
fn a_new_player_is_stopped() {
    let p = AudioPlayer::new(None);
    assert!(!p.is_active());
    assert!(!p.is_playing());
    assert_eq!(p.state, PlaybackState::Stopped);
}

#[test]
fn playing_needs_a_backend_and_a_process() {
    let mut p = AudioPlayer::new(None);
    assert!(!p.play_at_offset("Cat", "u", 0, None, true));
    assert!(!p.is_active());
    let mut q = AudioPlayer::new(Some(AudioBackend::Ffplay));
    assert!(!q.play_at_offset("Cat", "u", 5, None, false));
    assert_eq!(q.state, PlaybackState::Stopped);
    assert!(q.play_at_offset("Cat", "u", 5, Some(60), true));
    assert!(q.is_playing());
    assert_eq!(q.elapsed_secs, 5);
    assert_eq!(q.total_duration_secs, Some(60));
    assert_eq!(q.current_title.as_deref(), Some("Cat"));
}

#[test]
fn play_reads_the_duration() {
    let p = playing_mpv();
    assert_eq!(p.total_duration_secs, Some(125));
    assert_eq!(p.elapsed_secs, 0);
}

#[test]
fn pause_resume_and_toggle() {
    let mut p = playing_mpv();
    assert!(p.pause());
    assert_eq!(p.state, PlaybackState::Paused);
    assert!(!p.pause());
    assert!(p.resume());
    assert!(p.is_playing());
    assert_eq!(p.toggle_pause(), Some(PlayerSignal::Stop));
    assert_eq!(p.toggle_pause(), Some(PlayerSignal::Continue));
    p.stop();
    assert_eq!(p.toggle_pause(), None);
    assert!(!p.is_active());
    assert_eq!(p.current_url, None);
}

#[test]
fn polling_moves_the_clock_and_notices_the_end() {
    let mut p = playing_mpv();
    assert!(!p.poll_status(0, false));
    assert!(p.poll_status(3, false));
    assert_eq!(p.elapsed_secs, 3);
    p.pause();
    assert!(!p.poll_status(10, false));
    assert_eq!(p.elapsed_secs, 3);
    p.poll_status(0, true);
    assert!(!p.is_active());
    assert_eq!(p.elapsed_secs, 0);
}

#[test]
fn seeking_through_a_recording() {
    let mut p = playing_mpv();
    p.poll_status(100, false);
    match p.seek(-30, true) {
        SeekStep::Tell { command, target } => {
            assert_eq!(command, "seek -30\n");
            assert_eq!(target, 70);
            p.seek_done(target);
            assert_eq!(p.elapsed_secs, 70);
        },
        _ => panic!("mpv is told"),
    }
    match p.seek(90, true) {
        SeekStep::Tell { command, target } => {
            assert_eq!(command, "seek 90\n");
            // stops at the length
            assert_eq!(target, 125);
        },
        _ => panic!("mpv is told"),
    }
    p.pause();
    match p.seek(-100, false) {
        SeekStep::Restart { title, target, pause_after, total, .. } => {
            assert_eq!(title, "Cat");
            assert_eq!(target, 0);
            assert!(pause_after);
            assert_eq!(total, Some(125));
        },
        _ => panic!("a restart"),
    }
    p.stop();
    assert!(matches!(p.seek(5, true), SeekStep::Fail));
}
