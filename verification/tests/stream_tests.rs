use axum_video_upload::http::{body_too_large, precheck_content_length, required_content_type};
use axum_video_upload::stream::{
    basic_stream_reply, content_range_value, parse_range, plan_range_window, probe_failure,
    range_init_reply, range_step_failure, read_failure, stream_file_path, FileProbe, RangeStep,
    VideoStreamRequest,
};

fn req(file_name: &str, upload_type: &str) -> VideoStreamRequest {
    VideoStreamRequest { file_name: file_name.to_string(), upload_type: upload_type.to_string() }
}

fn span(h: &str, total: u64) -> Option<(u64, u64)> {
    parse_range(h, total).ok()
}

fn err(h: &str, total: u64) -> (u16, String) {
    let e = parse_range(h, total).err().expect("an error reply");
    (e.status, e.message)
}

#[test]
fn parse_range_start_end() {
    assert_eq!(span("bytes=0-99", 1000), Some((0, 99)));
    assert_eq!(span("bytes=10-10", 1000), Some((10, 10)));
    assert_eq!(span("bytes=0-5000", 1000), Some((0, 999)));
    assert_eq!(span("bytes=+5-+9", 1000), Some((5, 9)));
}

#[test]
fn parse_range_open_and_suffix() {
    assert_eq!(span("bytes=500-", 1000), Some((500, 999)));
    assert_eq!(span("bytes=-100", 1000), Some((900, 999)));
    assert_eq!(span("bytes=-2000", 1000), Some((0, 999)));
}

#[test]
fn parse_range_first_range_and_whitespace() {
    assert_eq!(span("  bytes= 0-1 , 5-6", 1000), Some((0, 1)));
    assert_eq!(span("\tbytes=2-3\n", 10), Some((2, 3)));
}

#[test]
fn parse_range_unsatisfiable() {
    let u = (416, "Requested range not satisfiable".to_string());
    assert_eq!(err("bytes=1000-", 1000), u);
    assert_eq!(err("bytes=-0", 1000), u);
    assert_eq!(err("bytes=5-3", 1000), u);
    assert_eq!(err("bytes=0-0", 0), u);
    assert_eq!(err("bytes=-5", 0), u);
}

#[test]
fn parse_range_malformed() {
    let m = (400, "Malformed Range header".to_string());
    assert_eq!(err("", 1000), m);
    assert_eq!(err("bytes=abc", 1000), m);
    assert_eq!(err("items=0-1", 1000), m);
    assert_eq!(err("bytes=0-99-1", 1000), m);
    assert_eq!(err("bytes=-", 1000), m);
    assert_eq!(err("bytes=x-5", 1000), m);
    assert_eq!(err("bytes=18446744073709551616-", 1000), m);
    assert_eq!(err("Bytes=0-1", 1000), m);
}

#[test]
fn range_window_is_capped_at_one_mebibyte() {
    let total = 5 * 1024 * 1024;
    let w = plan_range_window("bytes=0-", total).ok().unwrap();
    assert_eq!((w.start, w.end, w.total, w.length), (0, 1048575, total, 1048576));
    assert_eq!(content_range_value(&w), "bytes 0-1048575/5242880");
    let w = plan_range_window("bytes=5242000-", total).ok().unwrap();
    assert_eq!((w.start, w.end, w.length), (5242000, 5242879, 880));
    assert_eq!(content_range_value(&w), "bytes 5242000-5242879/5242880");
    let e = plan_range_window("bytes=9-1", total).err().unwrap();
    assert_eq!(e.status, 416);
}

#[test]
fn stream_file_path_layout() {
    assert_eq!(stream_file_path(&req("a.mp4", "chunk")), "./uploads/chunk/final_data/a.mp4");
    assert_eq!(stream_file_path(&req("a.mp4", "resumable")), "./uploads/resumable/final_data/a.mp4");
    assert_eq!(stream_file_path(&req("a.mp4", "basic")), "./uploads/basic/a.mp4");
    assert_eq!(stream_file_path(&req("a.mp4", "")), "./uploads/a.mp4");
    assert_eq!(stream_file_path(&req("/etc/passwd", "basic")), "/etc/passwd");
    assert_eq!(stream_file_path(&req("x.png", "stream/")), "./uploads/stream/x.png");
}

#[test]
fn basic_stream_reply_types_by_name() {
    let (ct, data) = basic_stream_reply(&req("clip.MOV", "basic"), vec![1, 2, 3]);
    assert_eq!(ct, "video/quicktime");
    assert_eq!(data, vec![1, 2, 3]);
}

#[test]
fn read_failure_replies() {
    let e = read_failure(true);
    assert_eq!((e.status, e.message.as_str()), (400, "Invalid File Request"));
    let e = read_failure(false);
    assert_eq!((e.status, e.message.as_str()), (500, "Internal Server Error"));
}

#[test]
fn range_init_reply_by_probe() {
    let ok = range_init_reply("./uploads/basic/clip.MP4", &FileProbe::Video(42)).ok().unwrap();
    assert_eq!((ok.content_length, ok.content_type.as_str()), (42, "video/mp4"));
    let ok = range_init_reply("./uploads/basic/clip.mkv/.", &FileProbe::Video(7)).ok().unwrap();
    assert_eq!(ok.content_type, "video/x-matroska");
    let ok = range_init_reply("./uploads/basic/.hidden", &FileProbe::Video(1)).ok().unwrap();
    assert_eq!(ok.content_type, "application/octet-stream");
    let ok = range_init_reply("./uploads/basic/noext", &FileProbe::Video(1)).ok().unwrap();
    assert_eq!(ok.content_type, "application/octet-stream");
    let e = range_init_reply("p.mp4", &FileProbe::Missing).err().unwrap();
    assert_eq!((e.status, e.message.as_str()), (404, "Invalid file Request"));
    let e = range_init_reply("p.mp4", &FileProbe::NotVideo).err().unwrap();
    assert_eq!((e.status, e.message.as_str()), (400, "Requested file is not a video file"));
    let e = range_init_reply("p.mp4", &FileProbe::Unreadable).err().unwrap();
    assert_eq!((e.status, e.message.as_str()), (500, "Internal Server Error"));
    assert!(probe_failure(&FileProbe::Video(3)).is_none());
}

#[test]
fn range_step_failures() {
    assert_eq!(range_step_failure(RangeStep::Open).message, "Error opening file");
    assert_eq!(range_step_failure(RangeStep::Metadata).message, "Error reading file metadata");
    let e = range_step_failure(RangeStep::Seek);
    assert_eq!((e.status, e.message.as_str()), (500, "Error in file seek operation"));
}

#[test]
fn content_type_header_required() {
    assert_eq!(required_content_type(Some(Some("video/mp4"))).ok().unwrap(), "video/mp4");
    let e = required_content_type(Some(None)).err().unwrap();
    assert_eq!((e.status, e.message.as_str()), (415, "missing Content-Type header"));
    assert_eq!(required_content_type(None).err().unwrap().status, 415);
}

#[test]
fn content_length_precheck() {
    assert!(precheck_content_length(None).is_ok());
    assert!(precheck_content_length(Some(None)).is_ok());
    assert!(precheck_content_length(Some(Some("abc"))).is_ok());
    assert!(precheck_content_length(Some(Some("52428800"))).is_ok());
    let e = precheck_content_length(Some(Some("52428801"))).err().unwrap();
    assert_eq!((e.status, e.message.as_str()), (413, "file exceeds size limit"));
    assert!(precheck_content_length(Some(Some("+99999999999"))).is_err());
    assert!(precheck_content_length(Some(Some("99999999999999999999999"))).is_ok());
    let e = body_too_large();
    assert_eq!((e.status, e.message.as_str()), (413, "body exceeded size limit"));
}
