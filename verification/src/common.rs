//! MIME-type tables, identifiers and file-type detection shared by the
//! upload and streaming flows.
use vstd::prelude::*;
use crate::text::{
    after_last, before_first, chars_eq_str, chars_of, find_after_last, find_first, hex_char, hex_text,
    lowercase, lowercase_chars, push_hex_padded, string_from_chars, sub_chars, trim, trim_chars,
    zero_pad,
};

verus! {

// ---------------------------------------------------------------------------
// MIME types and extensions
// ---------------------------------------------------------------------------

/// The MIME types that uploads may carry.
pub open spec fn is_allowed_mime(m: Seq<char>) -> bool {
    ||| m == "image/png"@
    ||| m == "image/jpeg"@
    ||| m == "image/gif"@
    ||| m == "image/webp"@
    ||| m == "application/pdf"@
    ||| m == "video/mp4"@
    ||| m == "video/quicktime"@
}

/// File extension (with its leading dot) stored for a MIME type.
pub open spec fn extension_for_mime(m: Seq<char>) -> Seq<char> {
    if m == "image/png"@ {
        ".png"@
    } else if m == "image/jpeg"@ {
        ".jpg"@
    } else if m == "image/gif"@ {
        ".gif"@
    } else if m == "image/webp"@ {
        ".webp"@
    } else if m == "application/pdf"@ {
        ".pdf"@
    } else if m == "video/mp4"@ {
        ".mp4"@
    } else if m == "video/quicktime"@ {
        ".mov"@
    } else {
        ".bin"@
    }
}

/// MIME type served for a (lowercased) file extension.
pub open spec fn content_type_for_extension(e: Seq<char>) -> Seq<char> {
    if e == "png"@ {
        "image/png"@
    } else if e == "jpg"@ || e == "jpeg"@ {
        "image/jpeg"@
    } else if e == "gif"@ {
        "image/gif"@
    } else if e == "webp"@ {
        "image/webp"@
    } else if e == "pdf"@ {
        "application/pdf"@
    } else if e == "mp4"@ {
        "video/mp4"@
    } else if e == "mov"@ {
        "video/quicktime"@
    } else {
        "application/octet-stream"@
    }
}

/// MIME type served for a stored file, chosen by the text after its last `.`.
pub open spec fn content_type_for_file_name(name: Seq<char>) -> Seq<char> {
    content_type_for_extension(lowercase(after_last(name, '.')))
}

/// `Content-Type` header for a (lowercased) file extension in the range flow.
pub open spec fn header_for_extension(e: Seq<char>) -> Seq<char> {
    if e == "mp4"@ {
        "video/mp4"@
    } else if e == "mkv"@ {
        "video/x-matroska"@
    } else if e == "mov"@ {
        "video/quicktime"@
    } else if e == "png"@ {
        "image/png"@
    } else if e == "jpg"@ || e == "jpeg"@ {
        "image/jpeg"@
    } else if e == "pdf"@ {
        "application/pdf"@
    } else if e == "json"@ {
        "application/json"@
    } else if e == "html"@ {
        "text/html"@
    } else {
        "application/octet-stream"@
    }
}

/// The base MIME type of a `Content-Type` value: the part before the first
/// `;`, trimmed and lowercased.
pub open spec fn mime_base(content_type: Seq<char>) -> Seq<char> {
    lowercase(trim(before_first(content_type, ';')))
}

/// `s` without its leading `c` characters (`trim_start_matches(c)`).
pub open spec fn trim_start_char(s: Seq<char>, c: char) -> Seq<char>
    decreases s.len(),
{
    if s.len() > 0 && s[0] == c {
        trim_start_char(s.drop_first(), c)
    } else {
        s
    }
}

/// Whether `m` is one of the allowed upload MIME types.
pub fn is_allowed_mime_type(m: &[char]) -> (r: bool)
    ensures
        r == is_allowed_mime(m@),
{
    chars_eq_str(m, "image/png") || chars_eq_str(m, "image/jpeg") || chars_eq_str(m, "image/gif")
        || chars_eq_str(m, "image/webp") || chars_eq_str(m, "application/pdf") || chars_eq_str(
        m,
        "video/mp4",
    ) || chars_eq_str(m, "video/quicktime")
}

fn extension_of_mime_chars(m: &[char]) -> (r: &'static str)
    ensures
        r@ == extension_for_mime(m@),
{
    if chars_eq_str(m, "image/png") {
        ".png"
    } else if chars_eq_str(m, "image/jpeg") {
        ".jpg"
    } else if chars_eq_str(m, "image/gif") {
        ".gif"
    } else if chars_eq_str(m, "image/webp") {
        ".webp"
    } else if chars_eq_str(m, "application/pdf") {
        ".pdf"
    } else if chars_eq_str(m, "video/mp4") {
        ".mp4"
    } else if chars_eq_str(m, "video/quicktime") {
        ".mov"
    } else {
        ".bin"
    }
}

/// Maps common MIME types to file extensions; anything else is `.bin`.
pub fn mime_to_extension(mime: &str) -> (r: &'static str)
    ensures
        r@ == extension_for_mime(mime@),
{
    let m = chars_of(mime);
    extension_of_mime_chars(m.as_slice())
}

fn content_type_of_extension_chars(e: &[char]) -> (r: &'static str)
    ensures
        r@ == content_type_for_extension(e@),
{
    if chars_eq_str(e, "png") {
        "image/png"
    } else if chars_eq_str(e, "jpg") || chars_eq_str(e, "jpeg") {
        "image/jpeg"
    } else if chars_eq_str(e, "gif") {
        "image/gif"
    } else if chars_eq_str(e, "webp") {
        "image/webp"
    } else if chars_eq_str(e, "pdf") {
        "application/pdf"
    } else if chars_eq_str(e, "mp4") {
        "video/mp4"
    } else if chars_eq_str(e, "mov") {
        "video/quicktime"
    } else {
        "application/octet-stream"
    }
}

/// Maps a stored file's name back to the MIME type it is served with, by the
/// text after its last `.`, compared without regard to case. Falls back to
/// `application/octet-stream`.
pub fn content_type_from_filename(file_name: &str) -> (r: &'static str)
    ensures
        r@ == content_type_for_file_name(file_name@),
{
    let name = chars_of(file_name);
    let start = find_after_last(name.as_slice(), '.');
    let ext = sub_chars(name.as_slice(), start, name.len());
    assert(ext@ =~= after_last(name@, '.'));
    let low = lowercase_chars(ext.as_slice());
    content_type_of_extension_chars(low.as_slice())
}

/// `Content-Type` for a file extension in the range flow, compared without
/// regard to case; falls back to `application/octet-stream`.
pub fn extension_to_header(extension: &String) -> (r: &'static str)
    ensures
        r@ == header_for_extension(lowercase(extension@)),
{
    let e = chars_of(extension.as_str());
    let low = lowercase_chars(e.as_slice());
    let l = low.as_slice();
    if chars_eq_str(l, "mp4") {
        "video/mp4"
    } else if chars_eq_str(l, "mkv") {
        "video/x-matroska"
    } else if chars_eq_str(l, "mov") {
        "video/quicktime"
    } else if chars_eq_str(l, "png") {
        "image/png"
    } else if chars_eq_str(l, "jpg") || chars_eq_str(l, "jpeg") {
        "image/jpeg"
    } else if chars_eq_str(l, "pdf") {
        "application/pdf"
    } else if chars_eq_str(l, "json") {
        "application/json"
    } else if chars_eq_str(l, "html") {
        "text/html"
    } else {
        "application/octet-stream"
    }
}

/// The base MIME type of a `Content-Type` value.
pub fn mime_base_of(content_type: &str) -> (r: Vec<char>)
    ensures
        r@ == mime_base(content_type@),
{
    let ct = chars_of(content_type);
    let cut = find_first(ct.as_slice(), ';');
    let head = sub_chars(ct.as_slice(), 0, cut);
    assert(head@ =~= before_first(ct@, ';'));
    let trimmed = trim_chars(head.as_slice());
    lowercase_chars(trimmed.as_slice())
}

/// `s` without its leading `c` characters.
pub fn trim_start_matches_char(s: &[char], c: char) -> (r: Vec<char>)
    ensures
        r@ == trim_start_char(s@, c),
{
    let mut i: usize = 0;
    assert(s@.skip(0) =~= s@);
    while i < s.len() && s[i] == c
        invariant
            0 <= i <= s@.len(),
            trim_start_char(s@.skip(i as int), c) == trim_start_char(s@, c),
        decreases s@.len() - i,
    {
        assert(s@.skip(i as int).drop_first() =~= s@.skip(i + 1));
        i = i + 1;
    }
    assert(s@.skip(i as int) =~= s@.subrange(i as int, s@.len() as int));
    sub_chars(s, i, s.len())
}

// ---------------------------------------------------------------------------
// Identifiers
// ---------------------------------------------------------------------------

/// The xor-shift mix of a timestamp used for the random-looking half of a
/// file identifier.
pub open spec fn mime_id_mix(ts: u128) -> u64 {
    let x0 = (ts as u64) ^ 0xdeadbeefcafeu64;
    let x1 = x0 ^ (x0 << 13u64);
    let x2 = x1 ^ (x1 >> 7u64);
    x2 ^ (x2 << 17u64)
}

/// A file identifier for timestamp `ts` (nanoseconds since the Unix epoch):
/// `ts` and its mix, each in lowercase hexadecimal padded to 16 digits.
pub open spec fn mime_id_text(ts: u128) -> Seq<char> {
    zero_pad(hex_text(ts as nat), 16) + zero_pad(hex_text(mime_id_mix(ts) as nat), 16)
}

/// The file identifier for timestamp `ts`.
pub fn mime_id_from_timestamp(ts: u128) -> (id: String)
    ensures
        id@ == mime_id_text(ts),
{
    let mut x: u64 = (ts as u64) ^ 0xdeadbeefcafeu64;
    x = x ^ (x << 13u64);
    x = x ^ (x >> 7u64);
    x = x ^ (x << 17u64);
    let mut out: Vec<char> = Vec::new();
    push_hex_padded(ts, 16, &mut out);
    push_hex_padded(x as u128, 16, &mut out);
    assert(out@ =~= mime_id_text(ts));
    string_from_chars(out.as_slice())
}

#[verifier::external_type_specification]
#[verifier::external_body]
pub struct ExSystemTime(std::time::SystemTime);

/// `SystemTime::now`: the current wall-clock time. Nothing is claimed of it.
#[verifier::external_body]
fn system_time_now() -> std::time::SystemTime {
    std::time::SystemTime::now()
}

/// `SystemTime::duration_since(UNIX_EPOCH)`, with its error (a clock set
/// before the epoch) turned into `None`. Nothing is claimed of the value.
#[verifier::external_body]
fn duration_since_epoch(t: &std::time::SystemTime) -> Option<std::time::Duration> {
    t.duration_since(std::time::UNIX_EPOCH).ok()
}

/// `Duration::as_nanos`. Nothing is claimed of the value: a `Duration` is
/// opaque here.
#[verifier::external_body]
fn duration_as_nanos(d: &std::time::Duration) -> u128 {
    d.as_nanos()
}

/// A new file identifier made from the current time: the identifier of the
/// nanoseconds since the Unix epoch (zero for a clock set before it).
pub fn new_mime_id(_name: Option<&str>) -> (id: String)
    ensures
        exists|ts: u128| id@ == mime_id_text(ts),
{
    let now = system_time_now();
    let ts: u128 = match duration_since_epoch(&now) {
        Some(d) => duration_as_nanos(&d),
        None => 0,
    };
    mime_id_from_timestamp(ts)
}

pub open spec fn is_lower_hex_char(c: char) -> bool {
    ('0' <= c && c <= '9') || ('a' <= c && c <= 'f')
}

/// The hyphenated lowercase text of a version-4 UUID.
pub open spec fn is_uuid_v4_text(s: Seq<char>) -> bool {
    &&& s.len() == 36
    &&& forall|i: int|
        0 <= i < 36 ==> if i == 8 || i == 13 || i == 18 || i == 23 {
            #[trigger] s[i] == '-'
        } else {
            is_lower_hex_char(s[i])
        }
    &&& s[14] == '4'
    &&& (s[19] == '8' || s[19] == '9' || s[19] == 'a' || s[19] == 'b')
}

/// How many hyphens the hyphenated UUID text holds before position `j`.
pub open spec fn uuid_hyphens_before(j: int) -> int {
    if j < 8 {
        0
    } else if j < 13 {
        1
    } else if j < 18 {
        2
    } else if j < 23 {
        3
    } else {
        4
    }
}

/// Byte `i` of the version-4 UUID built from the random bytes `b`: byte 6
/// carries version 4 in its high nibble, byte 8 the RFC 4122 variant in its
/// two high bits, and every other byte is kept.
pub open spec fn uuid_v4_byte(b: Seq<u8>, i: int) -> u8 {
    if i == 6 {
        (b[6] & 0x0fu8) | 0x40u8
    } else if i == 8 {
        (b[8] & 0x3fu8) | 0x80u8
    } else {
        b[i]
    }
}

/// The hyphenated lowercase text of the version-4 UUID built from the random
/// bytes `b`: each byte as two hexadecimal digits, high nibble first, with
/// hyphens after the 4th, 6th, 8th and 10th byte.
pub open spec fn uuid_v4_text_of(b: Seq<u8>) -> Seq<char> {
    Seq::new(
        36,
        |j: int|
            if j == 8 || j == 13 || j == 18 || j == 23 {
                '-'
            } else {
                let k = j - uuid_hyphens_before(j);
                let byte = uuid_v4_byte(b, k / 2);
                if k % 2 == 0 {
                    hex_char((byte / 16) as nat)
                } else {
                    hex_char((byte % 16) as nat)
                }
            },
    )
}

/// `uuid::Builder::from_random_bytes(random).into_uuid()` rendered by its
/// `Display`: the builder keeps the sixteen bytes but sets the version
/// nibble of byte 6 to 4 and the two high bits of byte 8 to the RFC 4122
/// variant, and the text is the hyphenated lowercase form. It does not
/// draw randomness itself and does not fail.
#[verifier::external_body]
fn uuid_text_from_random_bytes(random: [u8; 16]) -> (s: String)
    ensures
        s@ == uuid_v4_text_of(random@),
{
    uuid::Builder::from_random_bytes(random).into_uuid().to_string()
}

proof fn lemma_hex_char_is_lower_hex(d: nat)
    requires
        d < 16,
    ensures
        is_lower_hex_char(hex_char(d)),
{
}

/// The text of a version-4 UUID built from sixteen bytes has the shape of
/// such a UUID, whatever the bytes.
pub proof fn lemma_uuid_v4_text_shape(b: Seq<u8>)
    requires
        b.len() == 16,
    ensures
        is_uuid_v4_text(uuid_v4_text_of(b)),
{
    let s = uuid_v4_text_of(b);
    assert forall|i: int| 0 <= i < 36 && !(i == 8 || i == 13 || i == 18 || i == 23) implies
        is_lower_hex_char(#[trigger] s[i]) by {
        let k = i - uuid_hyphens_before(i);
        let byte = uuid_v4_byte(b, k / 2);
        lemma_hex_char_is_lower_hex((byte / 16) as nat);
        lemma_hex_char_is_lower_hex((byte % 16) as nat);
    }
    let b6 = b[6];
    let b8 = b[8];
    assert(((b6 & 0x0fu8) | 0x40u8) / 16 == 4) by (bit_vector);
    let v = ((b8 & 0x3fu8) | 0x80u8) / 16;
    assert(8 <= ((b8 & 0x3fu8) | 0x80u8) / 16 <= 11) by (bit_vector);
    assert(s[14] == hex_char(4));
    assert(s[19] == hex_char(v as nat));
}

/// The transfer identifier made from sixteen random bytes: the text of the
/// version-4 UUID built from them.
pub fn generate_uuid(random: [u8; 16]) -> (s: String)
    ensures
        s@ == uuid_v4_text_of(random@),
        is_uuid_v4_text(s@),
{
    proof {
        lemma_uuid_v4_text_shape(random@);
    }
    uuid_text_from_random_bytes(random)
}

// ---------------------------------------------------------------------------
// File-type detection
// ---------------------------------------------------------------------------

/// The MIME type that `infer::get` finds for the given leading bytes.
pub uninterp spec fn inferred_mime(bytes: Seq<u8>) -> Option<Seq<char>>;

/// Whether an inferred MIME type is a video type.
pub open spec fn is_video_kind(m: Option<Seq<char>>) -> bool {
    match m {
        Some(t) => t.len() >= 6 && t.take(6) == "video/"@,
        None => false,
    }
}

/// `infer::get(buf).map(|k| k.mime_type())`: the type found by the crate's
/// magic-number matchers, a function of the bytes alone.
#[verifier::external_body]
fn infer_mime_type(buf: &[u8]) -> (r: Option<&'static str>)
    ensures
        match r {
            Some(m) => inferred_mime(buf@) == Some(m@),
            None => inferred_mime(buf@) is None,
        },
{
    match infer::get(buf) {
        Some(kind) => Some(kind.mime_type()),
        None => None,
    }
}

/// Whether a detected MIME type (if any) starts with `video/`.
pub fn is_video_mime(mime: Option<&str>) -> (r: bool)
    ensures
        r == is_video_kind(
            match mime {
                Some(m) => Some(m@),
                None => None,
            },
        ),
{
    match mime {
        Some(m) => {
            let cs = chars_of(m);
            if cs.len() < 6 {
                return false;
            }
            let head = sub_chars(cs.as_slice(), 0, 6);
            assert(head@ =~= cs@.take(6));
            chars_eq_str(head.as_slice(), "video/")
        },
        None => false,
    }
}

/// Whether the leading bytes of a file identify it as a video.
pub fn is_video_content(buf: &[u8]) -> (r: bool)
    ensures
        r == is_video_kind(inferred_mime(buf@)),
{
    let m = infer_mime_type(buf);
    is_video_mime(m)
}

} // verus!
