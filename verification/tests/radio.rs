use rustplayer::media::{Media, RadioConfig, Source};
use rustplayer::radio::{compute_skip, DownloadTimeoutError, RadioError, RadioPlayer};

fn station(url: &str) -> Media {
    Media {
        src: Source::M3u8(RadioConfig { name: "news".to_string(), url: url.to_string() }),
    }
}

fn manifest(base: u64, names: &[&str]) -> Vec<u8> {
    let mut text = String::new();
    text.push_str("#EXTM3U\n");
    text.push_str("#EXT-X-VERSION:3\n");
    text.push_str("#EXT-X-TARGETDURATION:10\n");
    text.push_str(&format!("#EXT-X-MEDIA-SEQUENCE:{}\n", base));
    for name in names {
        text.push_str("#EXTINF:10.0,\n");
        text.push_str(name);
        text.push('\n');
    }
    text.into_bytes()
}

#[test]
fn sliding_window_refresh() {
    let mut r = RadioPlayer::new(0);
    let first = manifest(100, &["s100.aac", "s101.aac", "s102.aac", "s103.aac", "s104.aac"]);
    let urls = r
        .add_to_list(station("http://radio.example/live/index.m3u8"), Some(first), 0, true)
        .unwrap();
    assert_eq!(
        urls,
        vec![
            "http://radio.example/live/s100.aac",
            "http://radio.example/live/s101.aac",
            "http://radio.example/live/s102.aac",
            "http://radio.example/live/s103.aac",
            "http://radio.example/live/s104.aac",
        ]
    );
    assert!(r.is_playing());
    assert_eq!(r.last_fetched, Some(104));

    // the window slid forward by three: only ids 105..=107 are new
    let second = manifest(103, &["s103.aac", "s104.aac", "s105.aac", "s106.aac", "s107.aac"]);
    let urls = r.refresh(Some(second), 6000).unwrap();
    assert_eq!(
        urls,
        vec![
            "http://radio.example/live/s105.aac",
            "http://radio.example/live/s106.aac",
            "http://radio.example/live/s107.aac",
        ]
    );
    assert_eq!(r.last_fetched, Some(107));
}

#[test]
fn refresh_window_jump_leaves_no_gap() {
    let mut r = RadioPlayer::new(0);
    let first = manifest(100, &["a.aac", "b.aac"]);
    r.add_to_list(station("http://h/x/i.m3u8"), Some(first), 0, true).unwrap();
    assert_eq!(r.last_fetched, Some(101));
    // the stream jumped far ahead; everything advertised is new
    let jumped = manifest(500, &["j.aac", "k.aac"]);
    let urls = r.refresh(Some(jumped), 6000).unwrap();
    assert_eq!(urls, vec!["http://h/x/j.aac", "http://h/x/k.aac"]);
    assert_eq!(r.last_fetched, Some(501));
}

#[test]
fn refresh_fully_covered_window_schedules_nothing() {
    let mut r = RadioPlayer::new(0);
    let first = manifest(100, &["a.aac", "b.aac", "c.aac"]);
    r.add_to_list(station("http://h/x/i.m3u8"), Some(first), 0, true).unwrap();
    assert_eq!(r.last_fetched, Some(102));
    // the same window again: every id was already scheduled
    let again = manifest(100, &["a.aac", "b.aac", "c.aac"]);
    let urls = r.refresh(Some(again), 6000).unwrap();
    assert!(urls.is_empty());
    assert_eq!(r.last_fetched, Some(102));
}

#[test]
fn connect_timeout_changes_nothing() {
    let mut r = RadioPlayer::new(0);
    let e = r.add_to_list(station("http://h/i.m3u8"), None, 5, true).unwrap_err();
    assert_eq!(e, RadioError::Timeout);
    assert!(r.item.is_none());
    assert!(!r.is_playing());
}

#[test]
fn connect_parse_failure_changes_nothing() {
    let mut r = RadioPlayer::new(0);
    let garbage = b"this is no playlist at all".to_vec();
    let e = r.add_to_list(station("http://h/i.m3u8"), Some(garbage), 5, true).unwrap_err();
    assert_eq!(e, RadioError::ParseFailed);
    assert!(r.item.is_none());
    assert!(!r.is_playing());
}

#[test]
fn master_playlist_is_rejected() {
    let mut r = RadioPlayer::new(0);
    let master = b"#EXTM3U\n#EXT-X-STREAM-INF:BANDWIDTH=128000\nlow/index.m3u8\n".to_vec();
    let e = r.add_to_list(station("http://h/i.m3u8"), Some(master), 5, true).unwrap_err();
    assert_eq!(e, RadioError::ParseFailed);
    assert!(r.item.is_none());
}

#[test]
fn local_media_is_not_a_radio_source() {
    let mut r = RadioPlayer::new(0);
    let e = r
        .add_to_list(
            Media { src: Source::Local("a.mp3".to_string()) },
            Some(manifest(1, &["x.aac"])),
            5,
            true,
        )
        .unwrap_err();
    assert_eq!(e, RadioError::UnsupportedSource);
}

#[test]
fn refresh_without_session_fails() {
    let mut r = RadioPlayer::new(0);
    let e = r.refresh(Some(manifest(1, &["x.aac"])), 5).unwrap_err();
    assert_eq!(e, RadioError::NoSession);
}

#[test]
fn refresh_becomes_due_after_gap() {
    let mut r = RadioPlayer::new(0);
    r.play();
    assert!(!r.tick(None, 4000));
    assert!(!r.tick(None, 5000));
    assert!(r.tick(None, 5001));
    r.pause();
    assert!(!r.tick(None, 9000));
}

#[test]
fn radio_volume_clamp() {
    let mut r = RadioPlayer::new(0);
    r.set_volume(2000);
    assert_eq!(r.volume(), 1000);
    r.set_volume(-1);
    assert_eq!(r.volume(), 0);
    r.set_volume(450);
    assert_eq!(r.volume(), 450);
}

#[test]
fn radio_has_no_lyrics_or_next() {
    let mut r = RadioPlayer::new(0);
    assert!(!r.has_lyrics());
    assert_eq!(r.current_lyric(), "");
    assert!(!r.next());
}

#[test]
fn skip_computation_edges() {
    // nothing fetched yet: take the whole window
    assert_eq!(compute_skip(None, 100, 5), 0);
    // overlap of two: skip them
    assert_eq!(compute_skip(Some(101), 100, 5), 2);
    // the window jumped ahead of everything fetched: skip nothing
    assert_eq!(compute_skip(Some(104), 200, 3), 0);
    // the whole window lies behind what was fetched: skip it all,
    // without any negative subtraction
    assert_eq!(compute_skip(Some(200), 103, 5), 5);
}

#[test]
fn timeout_error_message() {
    let e = DownloadTimeoutError::new("index.m3u8".to_string());
    assert_eq!(e.message(), "index.m3u8");
}
