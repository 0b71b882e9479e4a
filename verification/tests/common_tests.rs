use axum_video_upload::common::{
    content_type_from_filename, extension_to_header, generate_uuid, is_video_content, is_video_mime,
    mime_id_from_timestamp, mime_to_extension, new_mime_id,
};

#[test]
fn mime_to_extension_maps_known_types() {
    assert_eq!(mime_to_extension("image/png"), ".png");
    assert_eq!(mime_to_extension("image/jpeg"), ".jpg");
    assert_eq!(mime_to_extension("image/gif"), ".gif");
    assert_eq!(mime_to_extension("image/webp"), ".webp");
    assert_eq!(mime_to_extension("application/pdf"), ".pdf");
    assert_eq!(mime_to_extension("video/mp4"), ".mp4");
    assert_eq!(mime_to_extension("video/quicktime"), ".mov");
}

#[test]
fn mime_to_extension_falls_back_to_bin() {
    assert_eq!(mime_to_extension("text/plain"), ".bin");
    assert_eq!(mime_to_extension("VIDEO/MP4"), ".bin");
    assert_eq!(mime_to_extension(""), ".bin");
}

#[test]
fn content_type_from_filename_uses_last_extension_without_case() {
    assert_eq!(content_type_from_filename("clip.MP4"), "video/mp4");
    assert_eq!(content_type_from_filename("a.b.JPEG"), "image/jpeg");
    assert_eq!(content_type_from_filename("photo.jpg"), "image/jpeg");
    assert_eq!(content_type_from_filename("movie.Mov"), "video/quicktime");
    assert_eq!(content_type_from_filename("doc.pdf"), "application/pdf");
    assert_eq!(content_type_from_filename("anim.gif"), "image/gif");
    assert_eq!(content_type_from_filename("pic.webp"), "image/webp");
    assert_eq!(content_type_from_filename("pic.png"), "image/png");
}

#[test]
fn content_type_from_filename_falls_back_to_octet_stream() {
    assert_eq!(content_type_from_filename("noext"), "application/octet-stream");
    assert_eq!(content_type_from_filename("png"), "image/png");
    assert_eq!(content_type_from_filename("archive.tar.gz"), "application/octet-stream");
    assert_eq!(content_type_from_filename("trailing."), "application/octet-stream");
}

#[test]
fn content_type_from_filename_lowercases_unicode() {
    // U+212A KELVIN SIGN lowercases to an ASCII 'k'; non-ASCII text goes through the
    // standard library's Unicode lowercasing.
    assert_eq!(content_type_from_filename("x.\u{212A}"), "application/octet-stream");
    assert_eq!(content_type_from_filename("x.MÖV"), "application/octet-stream");
}

#[test]
fn stored_type_is_served_back() {
    for m in ["image/png", "image/jpeg", "image/gif", "image/webp", "application/pdf", "video/mp4", "video/quicktime"] {
        let name = format!("0123abcd{}", mime_to_extension(m));
        assert_eq!(content_type_from_filename(&name), m);
    }
}

#[test]
fn extension_to_header_maps_known_extensions() {
    assert_eq!(extension_to_header(&"mp4".to_string()), "video/mp4");
    assert_eq!(extension_to_header(&"MKV".to_string()), "video/x-matroska");
    assert_eq!(extension_to_header(&"mov".to_string()), "video/quicktime");
    assert_eq!(extension_to_header(&"png".to_string()), "image/png");
    assert_eq!(extension_to_header(&"JPEG".to_string()), "image/jpeg");
    assert_eq!(extension_to_header(&"jpg".to_string()), "image/jpeg");
    assert_eq!(extension_to_header(&"pdf".to_string()), "application/pdf");
    assert_eq!(extension_to_header(&"json".to_string()), "application/json");
    assert_eq!(extension_to_header(&"Html".to_string()), "text/html");
    assert_eq!(extension_to_header(&"gif".to_string()), "application/octet-stream");
    assert_eq!(extension_to_header(&"".to_string()), "application/octet-stream");
}

#[test]
fn mime_id_from_timestamp_is_exact() {
    assert_eq!(mime_id_from_timestamp(0), "00000000000000009ca78ddc72e96aeb");
    assert_eq!(mime_id_from_timestamp(0x17f3b2c4d5e00000), "17f3b2c4d5e00000019fbb63d6a2aaeb");
    assert_eq!(mime_id_from_timestamp((1u128 << 100) + 5), "100000000000000000000000059ca78ddd3063cbae");
}

#[test]
fn new_mime_id_is_hex() {
    let id = new_mime_id(None);
    assert!(id.len() >= 32);
    assert!(id.chars().all(|c| c.is_ascii_hexdigit() && !c.is_ascii_uppercase()));
    let id2 = new_mime_id(Some("ignored"));
    assert!(id2.len() >= 32);
}

#[test]
fn generate_uuid_is_v4_text() {
    let random = [70, 235, 208, 238, 14, 109, 67, 201, 185, 13, 204, 195, 90, 145, 63, 62];
    let u = generate_uuid(random);
    assert_eq!(u, "46ebd0ee-0e6d-43c9-b90d-ccc35a913f3e");
    assert_eq!(generate_uuid([0; 16]), "00000000-0000-4000-8000-000000000000");
    assert_eq!(generate_uuid([0xff; 16]), "ffffffff-ffff-4fff-bfff-ffffffffffff");
    let u = generate_uuid([0x5a; 16]);
    assert_eq!(u, "5a5a5a5a-5a5a-4a5a-9a5a-5a5a5a5a5a5a");
    let cs: Vec<char> = u.chars().collect();
    for (i, c) in cs.iter().enumerate() {
        if i == 8 || i == 13 || i == 18 || i == 23 {
            assert_eq!(*c, '-');
        } else {
            assert!(c.is_ascii_hexdigit() && !c.is_ascii_uppercase());
        }
    }
    assert_ne!(generate_uuid([1; 16]), generate_uuid([2; 16]));
}

#[test]
fn is_video_mime_checks_prefix() {
    assert!(is_video_mime(Some("video/mp4")));
    assert!(is_video_mime(Some("video/")));
    assert!(!is_video_mime(Some("video")));
    assert!(!is_video_mime(Some("image/png")));
    assert!(!is_video_mime(None));
}

#[test]
fn is_video_content_detects_mp4() {
    let mut mp4 = vec![0u8, 0, 0, 0x18];
    mp4.extend_from_slice(b"ftypisom");
    mp4.extend_from_slice(&[0u8; 20]);
    assert!(is_video_content(&mp4));
    let png = [0x89u8, 0x50, 0x4E, 0x47, 0x0D, 0x0A, 0x1A, 0x0A];
    assert!(!is_video_content(&png));
    assert!(!is_video_content(&[]));
    assert!(!is_video_content(b"plain text"));
}

#[test]
fn extension_to_header_ignores_case_and_falls_back() {
    for e in ["mp4", "MP4", "Mp4", "JPEG", "Html"] {
        assert_eq!(extension_to_header(&e.to_string()), extension_to_header(&e.to_lowercase()));
    }
    for e in ["webp", "gif", "", ".mp4"] {
        assert_eq!(extension_to_header(&e.to_string()), "application/octet-stream");
    }
}

#[test]
fn mime_ids_follow_time() {
    let a = mime_id_from_timestamp(0x17f3b2c4d5e);
    let b = mime_id_from_timestamp(0x17f3b2c4d5f);
    let c = mime_id_from_timestamp(0xffff_ffff_ffff_fffe);
    assert!(a < b);
    assert!(b < c);
    assert_eq!(a, mime_id_from_timestamp(0x17f3b2c4d5e));
}
