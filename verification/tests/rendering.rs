use knob_core::image::{
    art_usable, decode_header, encode, encode_header, fingerprint, frame_payload, ArtImage,
    NowPlayingFrame, PlaybackState, Resolution, DISPLAY_HEIGHT, DISPLAY_WIDTH,
};

fn frame(title: &str, artist: &str) -> NowPlayingFrame {
    NowPlayingFrame {
        title: title.to_string(),
        artist: artist.to_string(),
        art: None,
        playback_state: PlaybackState::Playing,
        volume: 40,
    }
}

fn res240() -> Resolution {
    Resolution { width: DISPLAY_WIDTH, height: DISPLAY_HEIGHT }
}

#[test]
fn encode_length_is_exact() {
    let b = encode(&frame("Song", "Band"), res240());
    assert_eq!(b.len(), 240 * 240 * 2);
    let small = encode(&frame("Song", "Band"), Resolution { width: 2, height: 2 });
    assert_eq!(small.len(), 8);
    let empty = encode(&frame("", ""), Resolution { width: 3, height: 5 });
    assert_eq!(empty.len(), 30);
}

#[test]
fn encode_is_deterministic() {
    let a = encode(&frame("Blue in Green", "Miles Davis"), res240());
    let b = encode(&frame("Blue in Green", "Miles Davis"), res240());
    assert_eq!(a, b);
}

#[test]
fn encode_differs_when_title_differs() {
    let a = encode(&frame("Blue in Green", "Miles Davis"), res240());
    let b = encode(&frame("So What", "Miles Davis"), res240());
    assert_ne!(a, b);
}

#[test]
fn background_pixel_quantizes_round_to_nearest() {
    // pixel (0,0) lies above the text band: solid background (12, 16, 24).
    // round-to-nearest RGB565: r5 = (12*31+127)/255 = 1, g6 = (16*63+127)/255 = 4,
    // b5 = (24*31+127)/255 = 3, packed = 1*2048 + 4*32 + 3 = 2179 = 0x0883,
    // little-endian on the wire.
    let b = encode(&frame("T", "A"), res240());
    assert_eq!(b[0], 0x83);
    assert_eq!(b[1], 0x08);
}

#[test]
fn art_pixel_is_sampled() {
    // a 1x1 pure-white art fills everything above the text band
    let art = ArtImage { width: 1, height: 1, pixels: vec![255, 255, 255] };
    let mut f = frame("T", "A");
    f.art = Some(art);
    let b = encode(&f, res240());
    // white quantizes to 0xFFFF
    assert_eq!(b[0], 0xff);
    assert_eq!(b[1], 0xff);
}

#[test]
fn malformed_art_falls_back_to_text_only_render() {
    // wrong buffer length: must render exactly like a frame with no art
    let mut with_bad_art = frame("T", "A");
    with_bad_art.art = Some(ArtImage { width: 10, height: 10, pixels: vec![1, 2, 3] });
    let without_art = frame("T", "A");
    assert_eq!(encode(&with_bad_art, res240()), encode(&without_art, res240()));
    assert_eq!(fingerprint(&with_bad_art), fingerprint(&without_art));
}

#[test]
fn art_usability_checks_dimensions_and_length() {
    assert!(art_usable(&ArtImage { width: 2, height: 2, pixels: vec![0; 12] }));
    assert!(!art_usable(&ArtImage { width: 0, height: 2, pixels: vec![] }));
    assert!(!art_usable(&ArtImage { width: 2, height: 0, pixels: vec![] }));
    assert!(!art_usable(&ArtImage { width: 2, height: 2, pixels: vec![0; 11] }));
    assert!(!art_usable(&ArtImage { width: 2, height: 2, pixels: vec![0; 13] }));
}

#[test]
fn fingerprint_tracks_content() {
    let a = fingerprint(&frame("Song", "Band"));
    let b = fingerprint(&frame("Song", "Band"));
    assert_eq!(a, b);
    assert_ne!(a, fingerprint(&frame("Song2", "Band")));
    assert_ne!(a, fingerprint(&frame("Song", "Band2")));
    let mut paused = frame("Song", "Band");
    paused.playback_state = PlaybackState::Paused;
    assert_ne!(a, fingerprint(&paused));
    // volume is display-only: it must not move the fingerprint
    let mut loud = frame("Song", "Band");
    loud.volume = 100;
    assert_eq!(a, fingerprint(&loud));
}

#[test]
fn fingerprint_separates_title_from_artist() {
    // the 0xFF separator keeps "ab" + "c" distinct from "a" + "bc"
    assert_ne!(fingerprint(&frame("ab", "c")), fingerprint(&frame("a", "bc")));
}

#[test]
fn header_round_trips() {
    let h = encode_header(240, 240, 7);
    assert_eq!(h.len(), 8);
    assert_eq!(decode_header(&h), Some((240, 240, 7)));
    let h2 = encode_header(65535, 1, 0xdeadbeef);
    assert_eq!(decode_header(&h2), Some((65535, 1, 0xdeadbeef)));
}

#[test]
fn header_bytes_are_little_endian() {
    let h = encode_header(240, 240, 0x01020304);
    assert_eq!(&h[..], &[240, 0, 240, 0, 0x04, 0x03, 0x02, 0x01]);
}

#[test]
fn decode_header_rejects_wrong_length() {
    assert_eq!(decode_header(&[0u8; 7]), None);
    assert_eq!(decode_header(&[0u8; 9]), None);
}

#[test]
fn payload_is_header_then_pixels() {
    let pixels = vec![9u8, 8, 7, 6];
    let p = frame_payload(2, 1, 5, &pixels);
    assert_eq!(p.len(), 12);
    assert_eq!(&p[..8], &[2, 0, 1, 0, 5, 0, 0, 0]);
    assert_eq!(&p[8..], &[9, 8, 7, 6]);
}
