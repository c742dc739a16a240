use yandex_music_likes_to_evernote::audio::{
    codec_extension, codec_mime, human_size, sanitize_file_stem, AudioAttachment, CoverAttachment,
    CoverImage, TrackAudio,
};

fn lossless_audio(bytes: Vec<u8>) -> TrackAudio {
    TrackAudio {
        bytes,
        codec: "flac".to_string(),
        bitrate_kbps: 0,
        quality: "lossless".to_string(),
    }
}

#[test]
fn maps_codecs_to_extension_and_mime() {
    let cases = [
        ("flac", "flac", "audio/flac"),
        ("flac-mp4", "mp4", "audio/mp4"),
        ("mp3", "mp3", "audio/mpeg"),
        ("aac", "m4a", "audio/mp4"),
        ("aac-mp4", "m4a", "audio/mp4"),
        ("he-aac", "m4a", "audio/mp4"),
        ("unknown", "bin", "application/octet-stream"),
    ];
    for (codec, extension, mime) in cases {
        let audio = TrackAudio {
            bytes: Vec::new(),
            codec: codec.to_string(),
            bitrate_kbps: 0,
            quality: "lossless".to_string(),
        };
        assert_eq!(audio.extension(), extension, "extension for {codec}");
        assert_eq!(audio.mime(), mime, "mime for {codec}");
    }
}

#[test]
fn builds_attachment_with_sanitized_name_and_md5() {
    let attachment = AudioAttachment::new(lossless_audio(b"hello".to_vec()), "AC/DC - T:N*S?");

    assert_eq!(attachment.file_name, "AC_DC - T_N_S_.flac");
    assert_eq!(attachment.mime, "audio/flac");
    assert_eq!(attachment.size(), 5);
    // MD5 of "hello".
    assert_eq!(attachment.md5_hex(), "5d41402abc4b2a76b9719d911017c592");
    assert_eq!(attachment.md5_raw().len(), 16);
}

#[test]
fn falls_back_to_track_when_name_is_empty() {
    let attachment = AudioAttachment::new(lossless_audio(vec![0u8; 3]), "  ///  ");
    assert_eq!(attachment.file_name, "___.flac");

    let attachment = AudioAttachment::new(lossless_audio(vec![0u8; 3]), "   ");
    assert_eq!(attachment.file_name, "track.flac");
}

#[test]
fn formats_human_size() {
    assert_eq!(human_size(512), "512 B");
    assert_eq!(human_size(2048), "2.0 KiB");
    assert_eq!(human_size(3 * 1024 * 1024), "3.0 MiB");
}

/// The same size by way of floating-point arithmetic.
fn float_size(bytes: usize) -> String {
    let value = bytes as f64;
    if value >= 1024.0 * 1024.0 {
        format!("{:.1} MiB", value / (1024.0 * 1024.0))
    } else if value >= 1024.0 {
        format!("{:.1} KiB", value / 1024.0)
    } else {
        format!("{bytes} B")
    }
}

#[test]
fn human_size_agrees_with_floating_point() {
    for bytes in 0..20_000usize {
        assert_eq!(human_size(bytes), float_size(bytes));
    }
    for shift in 10..64u32 {
        for offset in 0..40usize {
            for base in [(1usize << shift) - 20, (1usize << shift).wrapping_mul(5) / 4] {
                let bytes = base.wrapping_add(offset);
                assert_eq!(human_size(bytes), float_size(bytes), "{bytes}");
            }
        }
    }
    for bytes in [1_048_575, 1_048_576, 1280, 1_310_720, 13_107_200, usize::MAX] {
        assert_eq!(human_size(bytes), float_size(bytes), "{bytes}");
    }
    assert_eq!(human_size(1280), "1.2 KiB");
    assert_eq!(human_size(1_048_575), "1024.0 KiB");
}

#[test]
fn attachment_reports_its_size() {
    let attachment = AudioAttachment::new(lossless_audio(vec![1u8; 1536]), "name");
    assert_eq!(attachment.size(), 1536);
    assert_eq!(attachment.human_size(), "1.5 KiB");
}

#[test]
fn every_codec_of_the_aac_family_is_known() {
    assert_eq!(codec_extension("he-aac-mp4"), "m4a");
    assert_eq!(codec_mime("he-aac-mp4"), "audio/mp4");
    assert_eq!(codec_extension("FLAC"), "bin");
}

#[test]
fn bitrate_is_reported_estimated_or_unknown() {
    let mut audio = lossless_audio(vec![0u8; 100_000]);
    audio.bitrate_kbps = 320;
    let reported = AudioAttachment::new(audio, "name");
    assert_eq!(reported.display_bitrate_kbps(None), Some((320, false)));
    assert_eq!(reported.display_bitrate_kbps(Some(1_000)), Some((320, false)));

    let estimated = AudioAttachment::new(lossless_audio(vec![0u8; 100_000]), "name");
    assert_eq!(estimated.display_bitrate_kbps(Some(1_000)), Some((800, true)));
    assert_eq!(estimated.display_bitrate_kbps(Some(0)), None);
    assert_eq!(estimated.display_bitrate_kbps(None), None);
    assert_eq!(estimated.display_bitrate_kbps(Some(800_001)), None);
    assert_eq!(estimated.display_bitrate_kbps(Some(800_000)), Some((1, true)));

    let empty = AudioAttachment::new(lossless_audio(Vec::new()), "name");
    assert_eq!(empty.display_bitrate_kbps(Some(1_000)), None);
}

#[test]
fn file_stems_are_safe() {
    assert_eq!(sanitize_file_stem("a\u{7}b\tc\u{a0}\u{a0}d"), "a b c d");
    assert_eq!(sanitize_file_stem("..name.."), "name");
    assert_eq!(sanitize_file_stem(". . a"), ". a");
    assert_eq!(sanitize_file_stem("..."), "track");
    assert_eq!(sanitize_file_stem("a\\b:c*d?e\"f<g>h|i/j"), "a_b_c_d_e_f_g_h_i_j");
    let long = "ж".repeat(200);
    assert_eq!(sanitize_file_stem(&long), "ж".repeat(120));
    let cut_at_space = format!("{} {}", "x".repeat(119), "y".repeat(50));
    assert_eq!(sanitize_file_stem(&cut_at_space), "x".repeat(119));
    for name in ["", " ", "a/b", "\u{1}\u{2}", ". .", "CON", "x  y"] {
        let stem = sanitize_file_stem(name);
        assert!(!stem.is_empty() && stem.chars().count() <= 120);
        assert!(!stem.chars().any(|c| "/\\:*?\"<>|".contains(c) || c.is_control()));
        assert_eq!(stem.trim(), stem);
        assert!(!stem.contains("  "));
    }
}

#[test]
fn attachment_with_a_given_digest() {
    let attachment = AudioAttachment::with_digest(lossless_audio(vec![9]), "x", [0xab; 16]);
    assert_eq!(attachment.md5_raw(), vec![0xab; 16]);
    assert_eq!(attachment.md5_hex(), "ab".repeat(16));
}

#[test]
fn digests_depend_on_the_bytes() {
    for bytes in [b"".to_vec(), b"hello".to_vec(), vec![0u8; 1000]] {
        let expected = format!("{:x}", md5::compute(&bytes));
        let audio = AudioAttachment::new(lossless_audio(bytes.clone()), "x");
        assert_eq!(audio.md5_hex(), expected);
        if !bytes.is_empty() {
            let cover = CoverImage::new(bytes, Some("image/png")).expect("cover");
            assert_eq!(CoverAttachment::new(cover).md5_hex(), expected);
        }
    }
}

#[test]
fn covers_have_a_type_that_notes_can_show() {
    let png = CoverImage::new(b"x".to_vec(), Some("image/png")).expect("png");
    assert_eq!(CoverAttachment::new(png).file_name, "cover.png");
    let jpeg = CoverImage::new(b"x".to_vec(), Some("image/jpeg")).expect("jpeg");
    let attachment = CoverAttachment::new(jpeg);
    assert_eq!(attachment.file_name, "cover.jpg");
    assert_eq!(attachment.mime, "image/jpeg");
    assert_eq!(attachment.size(), 1);
    assert!(CoverImage::new(Vec::new(), Some("image/png")).is_none());
    assert!(CoverImage::new(b"x".to_vec(), Some("text/html")).is_none());
    assert!(CoverImage::new(b"x".to_vec(), None).is_none());
    let other = CoverImage { bytes: vec![1], mime: "image/gif".to_string() };
    assert_eq!(CoverAttachment::new(other).file_name, "cover");
}
