use rustplayer::clock::PlayStatus;
use rustplayer::config::Config;
use rustplayer::lyrics::{Lyric, Lyrics};
use rustplayer::pathstr::{dir_prefix_of, file_name_of, resolve_uri};

#[test]
fn lyrics_count() {
    let l = Lyrics {
        list: vec![
            Lyric { time: 0, content: "a".to_string() },
            Lyric { time: 1000, content: "b".to_string() },
        ],
    };
    assert_eq!(l.count(), 2);
    assert_eq!(Lyrics::empty().count(), 0);
}

#[test]
fn lyrics_from_text() {
    let text = "[00:10.00]hello\n[01:02.003]world\n";
    let l = Lyrics::from_text(text);
    assert_eq!(l.count(), 2);
    assert_eq!(l.list[0].time, 10_000);
    assert_eq!(l.list[0].content, "hello");
    assert_eq!(l.list[1].time, 62_003);
    assert_eq!(l.list[1].content, "world");
}

#[test]
fn lyrics_from_text_skips_other_lines() {
    let text = "just a title\n[ar:somebody]\n[00:05.1]first line\n\n[0:6.2]second\nnot this";
    let l = Lyrics::from_text(text);
    assert_eq!(l.count(), 2);
    assert_eq!(l.list[0].time, 5_001);
    assert_eq!(l.list[0].content, "first line");
    assert_eq!(l.list[1].time, 6_002);
    assert_eq!(l.list[1].content, "second");
}

#[test]
fn lyrics_from_text_edges() {
    assert_eq!(Lyrics::from_text("").count(), 0);
    // a final line without a newline still counts
    let l = Lyrics::from_text("[00:01.0]last");
    assert_eq!(l.count(), 1);
    assert_eq!(l.list[0].content, "last");
    // an empty text after the timestamp is kept as an empty line
    let l = Lyrics::from_text("[00:01.0]\n");
    assert_eq!(l.count(), 1);
    assert_eq!(l.list[0].content, "");
    // a timestamp too large for the clock is not a lyric
    assert_eq!(Lyrics::from_text("[99999999999999999999:00.0]x").count(), 0);
    // malformed shapes are skipped
    assert_eq!(Lyrics::from_text("[0:0]x\n[:1.2]y\n[1:2.]z").count(), 0);
}

#[test]
fn config_defaults() {
    let c = Config::default();
    assert_eq!(c.refresh_rate, 100);
    assert_eq!(c.tick_gap, 200);
    assert_eq!(c.home_page, "https://github.com/Kingtous");
}

#[test]
fn clock_transitions_are_exact() {
    let s = PlayStatus::Waiting;
    assert_eq!(s.elapsed(99), 0);
    let s = s.started(10);
    assert_eq!(s, PlayStatus::Playing(10, 0));
    assert_eq!(s.elapsed(30), 20);
    let s = s.paused(30);
    assert_eq!(s, PlayStatus::Stopped(20));
    assert_eq!(s.elapsed(1000), 20);
    let s = s.resumed(50);
    assert_eq!(s, PlayStatus::Playing(50, 20));
    assert_eq!(s.elapsed(80), 50);
    // starting a running clock, or pausing a paused one, changes nothing
    assert_eq!(s.started(60), s);
    assert_eq!(PlayStatus::Stopped(7).paused(60), PlayStatus::Stopped(7));
}

#[test]
fn url_prefix_and_file_name() {
    assert_eq!(dir_prefix_of("http://h/live/index.m3u8"), "http://h/live/");
    assert_eq!(file_name_of("http://h/live/index.m3u8"), "index.m3u8");
    assert_eq!(file_name_of("dir/sub/song.mp3"), "song.mp3");
    // no slash at all: no prefix, the whole string is the name
    assert_eq!(dir_prefix_of("plain.mp3"), "");
    assert_eq!(file_name_of("plain.mp3"), "plain.mp3");
    assert_eq!(resolve_uri("http://h/live/", "s1.aac"), "http://h/live/s1.aac");
}
