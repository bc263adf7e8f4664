use rustplayer::clock::PlayStatus;
use rustplayer::lyrics::{Lyric, Lyrics};
use rustplayer::media::{Media, Source};
use rustplayer::player::MusicPlayer;

fn local(path: &str) -> Media {
    Media { src: Source::Local(path.to_string()) }
}

fn no_lyrics() -> Lyrics {
    Lyrics { list: vec![] }
}

#[test]
fn volume_clamp() {
    let mut p = MusicPlayer::new();
    assert_eq!(p.volume(), 1000);
    p.set_volume(1500);
    assert_eq!(p.volume(), 1000);
    p.set_volume(-5);
    assert_eq!(p.volume(), 0);
    p.set_volume(700);
    assert_eq!(p.volume(), 700);
}

#[test]
fn replace_queue() {
    let mut p = MusicPlayer::new();
    assert!(p.add_to_list(local("dir/a.mp3"), Some(10_000), no_lyrics(), 0, false));
    assert!(p.add_to_list(local("dir/b.mp3"), Some(10_000), no_lyrics(), 1, false));
    assert_eq!(p.play_list.lists.len(), 2);
    assert!(p.add_to_list(local("dir/c.mp3"), Some(10_000), no_lyrics(), 2, true));
    assert_eq!(p.play_list.lists.len(), 1);
    assert_eq!(p.playing_song().unwrap().name, "c.mp3");
    assert_eq!(p.playing_song().unwrap().path, "dir/c.mp3");
    assert!(p.is_playing());
}

#[test]
fn queue_advance() {
    let mut p = MusicPlayer::new();
    for name in ["x/a.mp3", "x/b.mp3", "x/c.mp3"] {
        assert!(p.add_to_list(local(name), Some(60_000), no_lyrics(), 0, false));
    }
    assert_eq!(p.play_list.lists.len(), 3);
    assert!(p.next(1));
    assert_eq!(p.playing_song().unwrap().name, "b.mp3");
    assert!(p.next(2));
    assert_eq!(p.playing_song().unwrap().name, "c.mp3");
    assert!(p.next(3));
    assert!(p.playing_song().is_none());
    assert!(!p.is_playing());
    // a further advance on the empty queue fails and changes nothing
    assert!(!p.next(4));
    assert!(p.playing_song().is_none());
}

#[test]
fn volume_survives_advance() {
    let mut p = MusicPlayer::new();
    assert!(p.add_to_list(local("a.mp3"), Some(60_000), no_lyrics(), 0, false));
    assert!(p.add_to_list(local("b.mp3"), Some(60_000), no_lyrics(), 0, false));
    p.set_volume(300);
    assert!(p.next(5));
    assert_eq!(p.volume(), 300);
}

#[test]
fn auto_advance_on_track_end() {
    let mut p = MusicPlayer::new();
    assert!(p.add_to_list(local("a.mp3"), Some(10_000), no_lyrics(), 0, true));
    assert_eq!(p.play_list.lists.len(), 1);
    assert!(p.is_playing());
    match p.playing_song().unwrap().status {
        PlayStatus::Playing(anchor, acc) => {
            assert_eq!(anchor, 0);
            assert_eq!(acc, 0);
        }
        _ => panic!("expected the track to be playing"),
    }
    p.tick(10_000);
    assert!(p.playing_song().is_none());
    assert!(!p.is_playing());
}

#[test]
fn elapsed_has_no_drift() {
    let mut p = MusicPlayer::new();
    assert!(p.add_to_list(local("a.mp3"), Some(100_000), no_lyrics(), 0, true));
    p.tick(1000);
    assert_eq!(p.current_time, 1000);
    assert_eq!(p.total_time, 100_000);
    p.pause(3000);
    // while paused the clock is frozen, however often it is polled
    p.tick(4000);
    p.tick(5000);
    p.tick(6500);
    assert_eq!(p.current_time, 3000);
    p.resume(7000);
    p.tick(8000);
    p.tick(9000);
    // 3000 ms before the pause plus 2000 ms since the resume
    assert_eq!(p.current_time, 5000);
}

#[test]
fn rejected_adds_leave_queue_alone() {
    let mut p = MusicPlayer::new();
    assert!(!p.add_to_list(local("a.mp3"), None, no_lyrics(), 0, true));
    assert!(!p.add_to_list(local("a.mp3"), Some(0), no_lyrics(), 0, true));
    assert!(!p.add_to_list(
        Media { src: Source::Http("http://example.com/a.mp3".to_string()) },
        Some(10_000),
        no_lyrics(),
        0,
        true,
    ));
    assert_eq!(p.play_list.lists.len(), 0);
    assert!(!p.is_playing());
}

#[test]
fn lyric_cursor_follows_playback() {
    let lines = Lyrics {
        list: vec![
            Lyric { time: 1000, content: "one".to_string() },
            Lyric { time: 3000, content: "two".to_string() },
            Lyric { time: 5000, content: "three".to_string() },
        ],
    };
    let mut p = MusicPlayer::new();
    assert!(p.add_to_list(local("a.mp3"), Some(100_000), lines, 0, true));
    assert_eq!(p.playing_song().unwrap().lyrics_index, 0);
    p.tick(4000);
    // the lines due at 1000 and 3000 have passed, the one at 5000 has not
    assert_eq!(p.playing_song().unwrap().lyrics_index, 1);
    p.tick(6000);
    assert_eq!(p.playing_song().unwrap().lyrics_index, 2);
    assert!(p.has_lyrics());
}

#[test]
fn current_lyric_placeholder() {
    let p = MusicPlayer::new();
    assert_eq!(p.current_lyric(), "No Lyrics");
    assert!(!p.has_lyrics());
}

#[test]
fn pause_and_resume_toggle_playing() {
    let mut p = MusicPlayer::new();
    assert!(p.add_to_list(local("a.mp3"), Some(60_000), no_lyrics(), 0, true));
    assert!(p.is_playing());
    p.pause(100);
    assert!(!p.is_playing());
    p.resume(200);
    assert!(p.is_playing());
}
