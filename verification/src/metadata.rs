//! Screenshot metadata and the image data handed to the front end: the VRCX
//! description text, index rows, data URLs and gallery entries.
use vstd::prelude::*;
use base64::Engine;
use crate::text::str_equal;

verus! {

/// The compact JSON text that serde_json writes back for `text` when
/// `text` parses as JSON.
pub uninterp spec fn json_compact(text: Seq<char>) -> Option<Seq<char>>;

/// `serde_json::from_str::<serde_json::Value>` followed by writing the value
/// back as text, named `json_compact`; nothing else is claimed of it.
#[verifier::external_body]
fn reformat_json(text: &str) -> (r: Option<String>)
    ensures
        match r {
            Some(j) => json_compact(text@) == Some(j@),
            None => json_compact(text@) is None,
        },
{
    serde_json::from_str::<serde_json::Value>(text).ok().map(|v| v.to_string())
}

/// The character of the standard Base64 alphabet (RFC 4648, section 4)
/// for a six-bit value.
pub open spec fn base64_digit(v: int) -> char {
    if v < 26 {
        (65 + v) as char
    } else if v < 52 {
        (97 + v - 26) as char
    } else if v < 62 {
        (48 + v - 52) as char
    } else if v == 62 {
        '+'
    } else {
        '/'
    }
}

/// The standard Base64 text of some bytes: each group of three bytes becomes
/// four characters, and a last group of one or two bytes is padded with `=`.
pub open spec fn base64_standard(bytes: Seq<u8>) -> Seq<char>
    decreases bytes.len(),
{
    if bytes.len() == 0 {
        Seq::empty()
    } else if bytes.len() == 1 {
        let a = bytes[0] as int;
        seq![base64_digit(a / 4), base64_digit(a % 4 * 16), '=', '=']
    } else if bytes.len() == 2 {
        let a = bytes[0] as int;
        let b = bytes[1] as int;
        seq![
            base64_digit(a / 4),
            base64_digit(a % 4 * 16 + b / 16),
            base64_digit(b % 16 * 4),
            '=',
        ]
    } else {
        let a = bytes[0] as int;
        let b = bytes[1] as int;
        let c = bytes[2] as int;
        seq![
            base64_digit(a / 4),
            base64_digit(a % 4 * 16 + b / 16),
            base64_digit(b % 16 * 4 + c / 64),
            base64_digit(c % 64),
        ] + base64_standard(bytes.subrange(3, bytes.len() as int))
    }
}

/// Whether the Base64 length of `n` bytes fits in a `usize`; the encoder
/// stops with a panic otherwise.
pub open spec fn base64_fits(n: nat) -> bool {
    n / 3 * 4 + 4 <= usize::MAX
}

/// `base64::engine::general_purpose::STANDARD.encode`: the standard
/// alphabet with padding, as `base64_standard` states it.
#[verifier::external_body]
fn encode_base64(bytes: &[u8]) -> (r: String)
    requires
        base64_fits(bytes@.len()),
    ensures
        r@ == base64_standard(bytes@),
{
    base64::engine::general_purpose::STANDARD.encode(bytes)
}

/// The MIME type mime_guess gives for a path, from its extension
/// (`application/octet-stream` when it knows none).
pub uninterp spec fn guessed_mime(path: Seq<char>) -> Seq<char>;

/// `mime_guess::from_path(..).first_or_octet_stream()` as text, named
/// `guessed_mime`; nothing else is claimed of it.
#[verifier::external_body]
fn guess_mime(path: &str) -> (r: String)
    ensures
        r@ == guessed_mime(path@),
{
    mime_guess::from_path(path).first_or_octet_stream().essence_str().to_string()
}

/// One international text chunk of a PNG file: its keyword, and its text
/// when it could be decoded.
pub struct TextChunk {
    pub keyword: String,
    pub text: Option<String>,
}

/// The text of an optional string.
pub open spec fn text_view(o: Option<String>) -> Option<Seq<char>> {
    match o {
        Some(t) => Some(t@),
        None => None,
    }
}

/// Text chunks as (keyword, text) pairs.
pub open spec fn chunk_views(chunks: Seq<TextChunk>) -> Seq<(Seq<char>, Option<Seq<char>>)> {
    Seq::new(chunks.len(), |i: int| (chunks[i].keyword@, text_view(chunks[i].text)))
}

/// The international text chunks (keyword, and text when it decodes) that
/// the png crate reads from the header of a PNG file, or the text of the
/// decoding error it reports when it cannot read the header.
pub uninterp spec fn png_itxt_chunks(png: Seq<u8>) -> Result<
    Seq<(Seq<char>, Option<Seq<char>>)>,
    Seq<char>,
>;

/// `png::Decoder::read_info` on the bytes of a PNG file, then each
/// international text chunk's keyword and `get_text`, or the decoding
/// error as text; named `png_itxt_chunks`, nothing else is claimed of it.
#[verifier::external_body]
fn read_itxt_chunks(png_bytes: &[u8]) -> (r: Result<Vec<TextChunk>, String>)
    ensures
        match r {
            Ok(v) => png_itxt_chunks(png_bytes@) matches Ok(cs) && cs == chunk_views(v@),
            Err(e) => png_itxt_chunks(png_bytes@) matches Err(m) && m == e@,
        },
{
    match png::Decoder::new(std::io::Cursor::new(png_bytes)).read_info() {
        Ok(reader) => Ok(
            reader.info().utf8_text.iter().map(
                |t| TextChunk { keyword: t.keyword.clone(), text: t.get_text().ok() },
            ).collect(),
        ),
        Err(e) => Err(e.to_string()),
    }
}

/// The text of the first chunk whose keyword is `Description`.
pub open spec fn first_description(chunks: Seq<(Seq<char>, Option<Seq<char>>)>) -> Option<
    Option<Seq<char>>,
>
    decreases chunks.len(),
{
    if chunks.len() == 0 {
        None
    } else if chunks[0].0 == "Description"@ {
        Some(chunks[0].1)
    } else {
        first_description(chunks.drop_first())
    }
}

/// The metadata kept for a screenshot: the text of its first `Description`
/// chunk (empty when it could not be decoded), in compact form when it is
/// JSON and as it is otherwise; none without such a chunk.
pub open spec fn metadata_of(chunks: Seq<(Seq<char>, Option<Seq<char>>)>) -> Option<Seq<char>> {
    match first_description(chunks) {
        None => None,
        Some(t) => {
            let data = match t {
                Some(x) => x,
                None => Seq::empty(),
            };
            match json_compact(data) {
                Some(j) => Some(j),
                None => Some(data),
            }
        },
    }
}

/// Picks the VRCX metadata from a PNG's text chunks (see `metadata_of`).
pub fn metadata_from_chunks(chunks: &Vec<TextChunk>) -> (r: Option<String>)
    ensures
        text_view(r) == metadata_of(chunk_views(chunks@)),
{
    let n = chunks.len();
    let ghost views = chunk_views(chunks@);
    let mut i: usize = 0;
    assert(views.subrange(0, n as int) =~= views);
    while i < n
        invariant
            n == chunks@.len(),
            views == chunk_views(chunks@),
            i <= n,
            first_description(views) == first_description(views.subrange(i as int, n as int)),
        decreases n - i,
    {
        let ghost rest = views.subrange(i as int, n as int);
        assert(rest.drop_first() =~= views.subrange(i + 1, n as int));
        assert(rest[0] == views[i as int]);
        if str_equal(chunks[i].keyword.as_str(), "Description") {
            let data: &str = match &chunks[i].text {
                Some(t) => t.as_str(),
                None => "",
            };
            proof {
                reveal_strlit("");
                assert(first_description(views) == Some(text_view(chunks@[i as int].text)));
                assert(data@ == (match text_view(chunks@[i as int].text) {
                    Some(x) => x,
                    None => Seq::<char>::empty(),
                }));
            }
            return match reformat_json(data) {
                Some(j) => Some(j),
                None => Some(String::from_str(data)),
            };
        }
        i = i + 1;
    }
    assert(views.subrange(n as int, n as int) =~= Seq::<(Seq<char>, Option<Seq<char>>)>::empty());
    None
}

/// The metadata of a PNG file's bytes: what `metadata_of` picks from its
/// chunks, or, when the png crate cannot read its header, `PNG解析エラー: `
/// followed by the crate's error text.
pub open spec fn png_metadata(png: Seq<u8>) -> Result<Option<Seq<char>>, Seq<char>> {
    match png_itxt_chunks(png) {
        Ok(cs) => Ok(metadata_of(cs)),
        Err(e) => Err("PNG解析エラー: "@ + e),
    }
}

/// Extracts the VRCX metadata from the bytes of a PNG file: an error when
/// the file is not a readable PNG, `Ok(None)` when it carries no
/// description.
pub fn extract_metadata(png_bytes: &[u8]) -> (r: Result<Option<String>, String>)
    ensures
        match png_metadata(png_bytes@) {
            Ok(m) => r matches Ok(x) && text_view(x) == m,
            Err(msg) => r matches Err(e) && e@ == msg,
        },
{
    match read_itxt_chunks(png_bytes) {
        Ok(chunks) => Ok(metadata_from_chunks(&chunks)),
        Err(e) => {
            let mut msg = String::from_str("PNG解析エラー: ");
            msg.append(e.as_str());
            Err(msg)
        },
    }
}

/// The width and height of an image file, and a thumbnail that fits in
/// `max_width` by `max_height` pixels written in the format the extension
/// `encoding` names, as the image crate makes them from the file's bytes,
/// decoded in the format its path's extension names.
pub uninterp spec fn thumbnail_of(
    path: Seq<char>,
    image: Seq<u8>,
    max_width: u32,
    max_height: u32,
    encoding: Seq<char>,
) -> Option<(u32, u32, Seq<u8>)>;

/// Decodes an image as `image::open` does (format from the path's
/// extension), takes its dimensions, makes `thumbnail(max_width,
/// max_height)` and writes it in the format `ImageFormat::from_extension`
/// gives for `encoding`; named `thumbnail_of`. Beside the name it claims
/// only what std documents of every `Vec`: it holds at most `isize::MAX`
/// bytes.
#[verifier::external_body]
fn decode_thumbnail(
    path: &str,
    image: &[u8],
    max_width: u32,
    max_height: u32,
    encoding: &str,
) -> (r: Option<(u32, u32, Vec<u8>)>)
    ensures
        match r {
            Some(t) => thumbnail_of(path@, image@, max_width, max_height, encoding@) == Some(
                (t.0, t.1, t.2@),
            ) && t.2@.len() <= isize::MAX,
            None => thumbnail_of(path@, image@, max_width, max_height, encoding@) is None,
        },
{
    let format = image::ImageFormat::from_path(path).ok()?;
    let output = image::ImageFormat::from_extension(encoding)?;
    let decoded =
        image::ImageReader::with_format(std::io::Cursor::new(image), format).decode().ok()?;
    let (width, height) = image::GenericImageView::dimensions(&decoded);
    let mut bytes = Vec::new();
    decoded.thumbnail(max_width, max_height).write_to(
        &mut std::io::Cursor::new(&mut bytes),
        output,
    ).ok()?;
    Some((width, height, bytes))
}

/// The longest side of a thumbnail, in pixels.
pub const THUMBNAIL_EDGE: u32 = 256;

/// The thumbnail of an indexed image: a PNG at most `THUMBNAIL_EDGE`
/// pixels on a side.
pub open spec fn index_thumbnail(path: Seq<char>, image: Seq<u8>) -> Option<(u32, u32, Seq<u8>)> {
    thumbnail_of(path, image, THUMBNAIL_EDGE, THUMBNAIL_EDGE, "png"@)
}

/// What the indexers take from an image file: its dimensions, its
/// thumbnail, and its metadata.
pub struct ImageContent {
    pub width: u32,
    pub height: u32,
    pub thumbnail_png: Vec<u8>,
    pub metadata_json: Option<String>,
}

/// The metadata an indexed image keeps: none unless it is a PNG with a
/// description.
pub open spec fn kept_metadata(image: Seq<u8>) -> Option<Seq<char>> {
    match png_metadata(image) {
        Ok(m) => m,
        Err(_) => None,
    }
}

/// Reads dimensions, thumbnail and metadata from the bytes of the image file
/// at `file_path`; `None` when the image cannot be decoded or its thumbnail
/// cannot be written.
pub fn read_image_content(file_path: &str, image_bytes: &[u8]) -> (r: Option<ImageContent>)
    ensures
        match index_thumbnail(file_path@, image_bytes@) {
            None => r is None,
            Some(t) => r matches Some(c) && c.width == t.0 && c.height == t.1 && c.thumbnail_png@
                == t.2 && text_view(c.metadata_json) == kept_metadata(image_bytes@)
                && base64_fits(c.thumbnail_png@.len()),
        },
{
    let (width, height, thumbnail_png) = match decode_thumbnail(
        file_path,
        image_bytes,
        THUMBNAIL_EDGE,
        THUMBNAIL_EDGE,
        "png",
    ) {
        Some(t) => t,
        None => return None,
    };
    assert(isize::MAX / 3 * 4 + 4 <= usize::MAX);
    let metadata_json = match extract_metadata(image_bytes) {
        Ok(m) => m,
        Err(_) => None,
    };
    Some(ImageContent { width, height, thumbnail_png, metadata_json })
}

/// A file system time, as its distance from the Unix epoch.
pub enum FileTime {
    /// At or after the epoch by `secs` seconds and `nanos` nanoseconds.
    AfterEpoch { secs: u64, nanos: u32 },
    /// Before the epoch by `secs` seconds and `nanos` nanoseconds.
    BeforeEpoch { secs: u64, nanos: u32 },
}

/// The Unix timestamp (seconds, nanoseconds) chrono takes a file time to
/// when it turns it into `DateTime<Utc>`: a time before the epoch goes to
/// the second below it, the seconds arithmetic wrapping as in a release
/// build.
pub open spec fn unix_parts(t: FileTime) -> (i64, u32) {
    match t {
        FileTime::AfterEpoch { secs, nanos } => (secs as i64, nanos),
        FileTime::BeforeEpoch { secs, nanos } => if nanos == 0 {
            (0i64.wrapping_sub(secs as i64), 0)
        } else {
            (0i64.wrapping_sub(secs as i64).wrapping_sub(1), (1_000_000_000 - nanos) as u32)
        },
    }
}

/// Whether the nanoseconds of a file time are below one second, as a
/// `Duration`'s always are.
pub open spec fn file_time_well_formed(t: FileTime) -> bool {
    match t {
        FileTime::AfterEpoch { nanos, .. } => nanos < 1_000_000_000,
        FileTime::BeforeEpoch { nanos, .. } => nanos < 1_000_000_000,
    }
}

/// The RFC 3339 text chrono writes for the UTC instant `secs` seconds and
/// `nanos` nanoseconds after the Unix epoch, if chrono can represent it.
pub uninterp spec fn rfc3339_utc(secs: i64, nanos: u32) -> Option<Seq<char>>;

/// `chrono::DateTime::<Utc>::from_timestamp` followed by `to_rfc3339`,
/// named `rfc3339_utc`; nothing else is claimed of it.
#[verifier::external_body]
fn format_rfc3339(secs: i64, nanos: u32) -> (r: Option<String>)
    ensures
        text_view(r) == rfc3339_utc(secs, nanos),
{
    chrono::DateTime::<chrono::Utc>::from_timestamp(secs, nanos).map(|d| d.to_rfc3339())
}

/// The RFC 3339 text of a file's creation time, as chrono writes a
/// `DateTime<Utc>` made from it; `None` where chrono cannot represent the
/// time (converting it then stops with a panic).
pub fn file_time_text(t: &FileTime) -> (r: Option<String>)
    requires
        file_time_well_formed(*t),
    ensures
        text_view(r) == rfc3339_utc(unix_parts(*t).0, unix_parts(*t).1),
{
    match t {
        FileTime::AfterEpoch { secs, nanos } => format_rfc3339(*secs as i64, *nanos),
        FileTime::BeforeEpoch { secs, nanos } => {
            let back = 0i64.wrapping_sub(*secs as i64);
            if *nanos == 0 {
                format_rfc3339(back, 0)
            } else {
                format_rfc3339(back.wrapping_sub(1), 1_000_000_000 - *nanos)
            }
        },
    }
}

/// A row of the image index. The batch indexer stores the thumbnail as
/// Base64 text, the single-file indexer as the PNG bytes themselves.
pub struct ImageRow<T> {
    pub file_path: String,
    pub thumbnail: T,
    pub width: i32,
    pub height: i32,
    pub file_size: i32,
    pub metadata_json: String,
    pub file_created_at: String,
    pub created_at: String,
    pub updated_at: String,
}

/// Builds the batch indexer's row for one image: the thumbnail PNG in
/// Base64, the dimensions and size as 32-bit signed numbers, missing
/// metadata and creation time as empty text, and `now` as both write times.
pub fn image_row(
    file_path: String,
    content: ImageContent,
    file_len: u64,
    file_created_at: Option<String>,
    now: &str,
) -> (r: ImageRow<String>)
    requires
        base64_fits(content.thumbnail_png@.len()),
    ensures
        r.file_path == file_path,
        r.thumbnail@ == base64_standard(content.thumbnail_png@),
        r.width == content.width as i32,
        r.height == content.height as i32,
        r.file_size == file_len as i32,
        r.metadata_json@ == (match content.metadata_json {
            Some(m) => m@,
            None => Seq::empty(),
        }),
        r.file_created_at@ == (match file_created_at {
            Some(t) => t@,
            None => Seq::empty(),
        }),
        r.created_at@ == now@,
        r.updated_at@ == now@,
{
    let metadata_json = match content.metadata_json {
        Some(m) => m,
        None => String::new(),
    };
    let file_created_at = match file_created_at {
        Some(t) => t,
        None => String::new(),
    };
    ImageRow {
        file_path,
        thumbnail: encode_base64(content.thumbnail_png.as_slice()),
        width: content.width as i32,
        height: content.height as i32,
        file_size: file_len as i32,
        metadata_json,
        file_created_at,
        created_at: String::from_str(now),
        updated_at: String::from_str(now),
    }
}

/// Builds the single-file indexer's row: the thumbnail PNG as it is,
/// missing metadata as empty text, and `now` as both write times.
pub fn image_record(
    file_path: String,
    content: ImageContent,
    file_len: u64,
    file_created_at: String,
    now: &str,
) -> (r: ImageRow<Vec<u8>>)
    ensures
        r.file_path == file_path,
        r.thumbnail@ == content.thumbnail_png@,
        r.width == content.width as i32,
        r.height == content.height as i32,
        r.file_size == file_len as i32,
        r.metadata_json@ == (match content.metadata_json {
            Some(m) => m@,
            None => Seq::empty(),
        }),
        r.file_created_at == file_created_at,
        r.created_at@ == now@,
        r.updated_at@ == now@,
{
    let metadata_json = match content.metadata_json {
        Some(m) => m,
        None => String::new(),
    };
    ImageRow {
        file_path,
        thumbnail: content.thumbnail_png,
        width: content.width as i32,
        height: content.height as i32,
        file_size: file_len as i32,
        metadata_json,
        file_created_at,
        created_at: String::from_str(now),
        updated_at: String::from_str(now),
    }
}

/// The name of the single index database all scans write to.
pub const INDEX_DB_NAME: &'static str = "imageCache";

/// `data:image/png;base64,` followed by a stored thumbnail.
pub open spec fn thumbnail_url_of(thumbnail_b64: Seq<char>) -> Seq<char> {
    "data:image/png;base64,"@ + thumbnail_b64
}

/// One gallery entry for the front end: the file path, its thumbnail as a
/// data URL, and the index database it came from.
pub fn gallery_entry(file_path: String, thumbnail_b64: &str) -> (r: (String, String, String))
    ensures
        r.0 == file_path,
        r.1@ == thumbnail_url_of(thumbnail_b64@),
        r.2@ == "imageCache"@,
{
    let mut url = String::from_str("data:image/png;base64,");
    url.append(thumbnail_b64);
    (file_path, url, String::from_str(INDEX_DB_NAME))
}

/// What the detail view shows for one screenshot.
pub struct ImageDetails {
    /// The stored metadata text.
    pub metadata_json: String,
    /// The whole file as a data URL.
    pub data_url: String,
    /// When the file was created, or empty text.
    pub file_created_at: String,
}

/// `data:<mime>;base64,<file bytes in Base64>` for a file.
pub open spec fn data_url_of(file_path: Seq<char>, bytes: Seq<u8>) -> Seq<char> {
    "data:"@ + guessed_mime(file_path) + ";base64,"@ + base64_standard(bytes)
}

/// The detail view of a screenshot whose metadata is stored: the file's
/// content as a data URL typed by its extension.
pub fn image_details(
    file_path: &str,
    metadata_json: String,
    file_created_at: Option<String>,
    file_bytes: &[u8],
) -> (r: ImageDetails)
    requires
        base64_fits(file_bytes@.len()),
    ensures
        r.metadata_json == metadata_json,
        r.data_url@ == data_url_of(file_path@, file_bytes@),
        r.file_created_at@ == (match file_created_at {
            Some(t) => t@,
            None => Seq::empty(),
        }),
{
    let mut data_url = String::from_str("data:");
    let mime = guess_mime(file_path);
    data_url.append(mime.as_str());
    data_url.append(";base64,");
    let encoded = encode_base64(file_bytes);
    data_url.append(encoded.as_str());
    let file_created_at = match file_created_at {
        Some(t) => t,
        None => String::new(),
    };
    ImageDetails { metadata_json, data_url, file_created_at }
}

/// The error for a path that names no existing file.
pub fn missing_file_message() -> (r: String)
    ensures
        r@ == "指定されたファイルが存在しません。"@,
{
    String::from_str("指定されたファイルが存在しません。")
}

/// The error for a file the index holds no metadata for.
pub fn missing_metadata_message() -> (r: String)
    ensures
        r@ == "指定されたファイルのメタデータが見つかりません。"@,
{
    String::from_str("指定されたファイルのメタデータが見つかりません。")
}

/// The error for a file that could not be read, with the reason.
pub fn read_failure_message(reason: &str) -> (r: String)
    ensures
        r@ == "ファイル読み取りエラー: "@ + reason@,
{
    let mut m = String::from_str("ファイル読み取りエラー: ");
    m.append(reason);
    m
}

} // verus!
