use wikid::audio::backend::{detect_backend, seek_target, spawn_player_command, AudioBackend};
use wikid::audio::cache::safe_audio_filename;
use wikid::audio::duration::parse_duration_to_secs;
use wikid::config::{Config, ImageProtocol};
use wikid::graphics::cache::{fnv1a_hash_hex, image_cache_file_name, image_cache_path};
use wikid::graphics::halfblocks::{render_halfblock_lines, RgbPixel};
use wikid::graphics::kitty::{base64_encode, clear_all_kitty_images, composite_over_white, render_kitty_rgba_chunked, KittyImageArgs};
use wikid::graphics::protocol::{detect_terminal_protocol, resolve_protocol, GraphicsProtocol};

#[test]
fn durations() {
    assert_eq!(parse_duration_to_secs("1:02:03"), Some(3723));
    assert_eq!(parse_duration_to_secs("12:34"), Some(754));
    assert_eq!(parse_duration_to_secs("5 minutes 30 seconds"), Some(330));
    assert_eq!(parse_duration_to_secs("1h 2m"), Some(3720));
    assert_eq!(parse_duration_to_secs("length: 2 hours"), Some(7200));
    assert_eq!(parse_duration_to_secs(""), None);
    assert_eq!(parse_duration_to_secs("0 seconds"), None);
    assert_eq!(parse_duration_to_secs("soon"), None);
}

#[test]
fn backends_in_order_of_preference() {
    assert_eq!(detect_backend(true, true, true, true, true), Some(AudioBackend::Mpv));
    assert_eq!(detect_backend(false, false, true, true, false), Some(AudioBackend::Cvlc));
    assert_eq!(detect_backend(false, false, false, false, true), Some(AudioBackend::Afplay));
    assert_eq!(detect_backend(false, false, false, false, false), None);
}

#[test]
fn player_commands() {
    let c = spawn_player_command(AudioBackend::Mpv, "https://x.org/a.ogg", 30, "ua");
    assert_eq!(c.program, "mpv");
    assert_eq!(c.args, vec!["--no-video", "--really-quiet", "--user-agent=ua", "--start=30", "https://x.org/a.ogg"]);
    assert!(c.pipe_stdin && !c.pipe_stderr);
    let f = spawn_player_command(AudioBackend::Ffplay, "/tmp/a.ogg", 0, "ua");
    assert_eq!(f.args, vec!["-nodisp", "-autoexit", "-stats", "-loglevel", "info", "/tmp/a.ogg"]);
    assert!(f.pipe_stderr);
    let v = spawn_player_command(AudioBackend::Cvlc, "http://x/a", 5, "ua");
    assert_eq!(v.args, vec!["--play-and-exit", "--no-video", "-I", "dummy", "--http-user-agent=ua", "--start-time=5", "http://x/a", "vlc://quit"]);
    let a = spawn_player_command(AudioBackend::Afplay, "a.ogg", 7, "ua");
    assert_eq!(a.program, "afplay");
    assert_eq!(a.args, vec!["-t", "7", "a.ogg"]);
}

#[test]
fn seeking() {
    assert_eq!(seek_target(10, -20, None), 0);
    assert_eq!(seek_target(10, 15, Some(20)), 20);
    assert_eq!(seek_target(10, 5, None), 15);
    assert_eq!(seek_target(u64::MAX - 1, 5, None), u64::MAX);
}

#[test]
fn audio_file_names() {
    assert_eq!(safe_audio_filename("https://x.org/a/En-Cat.ogg?x=1"), "En-Cat.ogg");
    assert_eq!(safe_audio_filename("https://x.org/a/b c.ogg"), "b_c.ogg");
    assert_eq!(safe_audio_filename("noslash"), "track.ogg");
    assert_eq!(safe_audio_filename("https://x.org/"), "track.ogg");
}

#[test]
fn protocols() {
    assert_eq!(detect_terminal_protocol(true, false, None), GraphicsProtocol::Kitty);
    assert_eq!(detect_terminal_protocol(false, true, None), GraphicsProtocol::Kitty);
    assert_eq!(detect_terminal_protocol(false, false, Some("xterm-kitty")), GraphicsProtocol::Kitty);
    assert_eq!(detect_terminal_protocol(false, false, Some("xterm-256color")), GraphicsProtocol::Halfblocks);
    assert_eq!(resolve_protocol(ImageProtocol::Off, GraphicsProtocol::Kitty), GraphicsProtocol::Disabled);
    assert_eq!(resolve_protocol(ImageProtocol::Auto, GraphicsProtocol::Halfblocks), GraphicsProtocol::Halfblocks);
    assert_eq!(resolve_protocol(ImageProtocol::Kitty, GraphicsProtocol::Halfblocks), GraphicsProtocol::Kitty);
    assert!(GraphicsProtocol::Kitty.is_kitty());
    assert!(GraphicsProtocol::Halfblocks.is_halfblocks());
    assert_eq!(GraphicsProtocol::Disabled.name(), "none");
    assert!(Config::default().general.liked_readonly);
}

#[test]
fn base64_and_hashes() {
    assert_eq!(base64_encode(b"hello"), "aGVsbG8=");
    assert_eq!(base64_encode(b"ab"), "YWI=");
    assert_eq!(base64_encode(b""), "");
    assert_eq!(fnv1a_hash_hex(b""), "cbf29ce484222325");
    assert_eq!(fnv1a_hash_hex(b"https://upload.wikimedia.org/a/b/Cat.jpg"), "af702fcc98c96ade");
    assert_eq!(image_cache_file_name("https://upload.wikimedia.org/a/b/Cat.jpg"), "af702fcc98c96ade.jpg");
    assert_eq!(image_cache_path("/c/img", "https://upload.wikimedia.org/a/b/Cat.jpg"), "/c/img/af702fcc98c96ade.jpg");
    assert!(image_cache_file_name("https://x.org/thing.jpeg?size=2").ends_with(".jpeg"));
    assert!(image_cache_file_name("https://x.org/a.webpx").ends_with(".img"));
}

#[test]
fn kitty_sequences() {
    assert_eq!(clear_all_kitty_images(), b"\x1b_Ga=d\x1b\\".to_vec());
    let args = KittyImageArgs { screen_x: 0, screen_y: 0, cols: 2, rows: 1, crop_top_lines: 0, crop_bot_lines: 0 };
    let out = render_kitty_rgba_chunked("QUJD", 1, 1, &args);
    assert_eq!(String::from_utf8(out).unwrap(), "\x1b_Ga=T,f=32,s=1,v=1,c=2,r=1,m=0;QUJD\x1b\\");
    let cropped = KittyImageArgs { screen_x: 0, screen_y: 0, cols: 2, rows: 2, crop_top_lines: 1, crop_bot_lines: 1 };
    let out = render_kitty_rgba_chunked("QUJD", 4, 8, &cropped);
    assert_eq!(String::from_utf8(out).unwrap(), "\x1b_Ga=T,f=32,s=4,v=8,c=2,r=2,m=0,y=2,h=4;QUJD\x1b\\");
    let long = "A".repeat(5000);
    let out = String::from_utf8(render_kitty_rgba_chunked(&long, 1, 1, &args)).unwrap();
    assert!(out.contains("m=1;"));
    assert!(out.ends_with(&format!("\x1b_Gm=0;{}\x1b\\", "A".repeat(904))));
}

#[test]
fn halfblocks_pair_rows() {
    let p = |v: u8| RgbPixel { r: v, g: v, b: v };
    let lines = render_halfblock_lines(&[p(1), p(2), p(3)], 1, 3);
    assert_eq!(lines.len(), 2);
    assert_eq!(lines[0][0].top, Some(p(1)));
    assert_eq!(lines[0][0].bottom, Some(p(2)));
    assert_eq!(lines[1][0].top, Some(p(3)));
    assert_eq!(lines[1][0].bottom, None);
}

#[test]
fn base64_lengths_and_padding() {
    for n in 0..12usize {
        let data: Vec<u8> = (0..n).map(|i| (i * 37 + 200) as u8).collect();
        let e = base64_encode(&data);
        assert_eq!(e.len(), 4 * ((n + 2) / 3));
        let pad = (3 - n % 3) % 3;
        assert_eq!(e.chars().filter(|c| *c == '=').count(), pad);
        assert!(e.chars().take(e.len() - pad).all(|c| c.is_ascii_alphanumeric() || c == '+' || c == '/'));
    }
    assert_eq!(base64_encode(&[0xff, 0xfe, 0xfd]), "//79");
}

#[test]
fn kitty_placement_without_crop_takes_any_height() {
    let args = KittyImageArgs { screen_x: 0, screen_y: 0, cols: 10, rows: 40000, crop_top_lines: 0, crop_bot_lines: 0 };
    let out = render_kitty_rgba_chunked("QUJD", 1, u32::MAX, &args);
    let text = String::from_utf8(out).unwrap();
    assert!(text.starts_with("\x1b_Ga=T,f=32,s=1,v=4294967295,c=10,r=40000,m=0;QUJD"));
}

#[test]
fn compositing_lays_pixels_over_white() {
    let mut px: Vec<u8> = vec![10, 20, 30, 0, 1, 2, 3, 255, 100, 0, 200, 128];
    composite_over_white(&mut px);
    // transparent pixel becomes white, opaque pixel stays, half-transparent mixes
    assert_eq!(px[0..4], [255, 255, 255, 255]);
    assert_eq!(px[4..8], [1, 2, 3, 255]);
    // (100*128 + 255*127)/255 = 177, (0*128 + 255*127)/255 = 127, (200*128+255*127)/255 = 227
    assert_eq!(px[8..12], [177, 127, 227, 255]);
    let mut empty: Vec<u8> = Vec::new();
    composite_over_white(&mut empty);
    assert!(empty.is_empty());
}
