//! Audio and cover images as they were downloaded, and as attachments of a
//! note.
use vstd::prelude::*;

use crate::double::{half_even_div, half_even_quotient, nearest_double, to_nearest_double};
use crate::text::{
    chars_of, control, decimal, decimal_string, hex, hex_string, is_control, join, joined,
    lemma_blank_trimmed, lemma_trimmed_ends, lemma_trimmed_range, lemma_word, split_words, trim,
    trimmed, white_space, words,
};

pub mod laws;

verus! {

/// Audio as Yandex Music served it, byte for byte. The codec, the bitrate and
/// the quality say what was served.
#[derive(Debug, Clone, PartialEq, Eq)]
pub struct TrackAudio {
    pub bytes: Vec<u8>,
    pub codec: String,
    pub bitrate_kbps: u32,
    pub quality: String,
}

/// The codecs whose container is MP4 with AAC inside.
pub open spec fn aac_codec(codec: Seq<char>) -> bool {
    ||| codec == "aac"@
    ||| codec == "aac-mp4"@
    ||| codec == "he-aac"@
    ||| codec == "he-aac-mp4"@
}

/// The file extension for a codec.
pub open spec fn extension_of(codec: Seq<char>) -> Seq<char> {
    if codec == "flac"@ {
        "flac"@
    } else if codec == "flac-mp4"@ {
        "mp4"@
    } else if codec == "mp3"@ {
        "mp3"@
    } else if aac_codec(codec) {
        "m4a"@
    } else {
        "bin"@
    }
}

/// The MIME type for a codec.
pub open spec fn mime_of(codec: Seq<char>) -> Seq<char> {
    if codec == "flac"@ {
        "audio/flac"@
    } else if codec == "flac-mp4"@ {
        "audio/mp4"@
    } else if codec == "mp3"@ {
        "audio/mpeg"@
    } else if aac_codec(codec) {
        "audio/mp4"@
    } else {
        "application/octet-stream"@
    }
}

/// Whether `codec` stands for MP4 with AAC inside.
fn is_aac_codec(codec: &str) -> (res: bool)
    ensures
        res == aac_codec(codec@),
{
    *codec == *"aac" || *codec == *"aac-mp4" || *codec == *"he-aac" || *codec == *"he-aac-mp4"
}

/// The file extension for `codec`.
pub fn codec_extension(codec: &str) -> (res: &'static str)
    ensures
        res@ == extension_of(codec@),
{
    if *codec == *"flac" {
        "flac"
    } else if *codec == *"flac-mp4" {
        "mp4"
    } else if *codec == *"mp3" {
        "mp3"
    } else if is_aac_codec(codec) {
        "m4a"
    } else {
        "bin"
    }
}

/// The MIME type for `codec`.
pub fn codec_mime(codec: &str) -> (res: &'static str)
    ensures
        res@ == mime_of(codec@),
{
    if *codec == *"flac" {
        "audio/flac"
    } else if *codec == *"flac-mp4" {
        "audio/mp4"
    } else if *codec == *"mp3" {
        "audio/mpeg"
    } else if is_aac_codec(codec) {
        "audio/mp4"
    } else {
        "application/octet-stream"
    }
}

impl TrackAudio {
    /// The file extension for the container.
    pub fn extension(&self) -> (res: &'static str)
        ensures
            res@ == extension_of(self.codec@),
    {
        codec_extension(self.codec.as_str())
    }

    /// The MIME type for the container.
    pub fn mime(&self) -> (res: &'static str)
        ensures
            res@ == mime_of(self.codec@),
    {
        codec_mime(self.codec.as_str())
    }
}

// ---------------------------------------------------------------------------
// File names
// ---------------------------------------------------------------------------
/// The characters that common file systems do not take in a name.
pub open spec fn illegal_in_file_name(c: char) -> bool {
    ||| c == '/'
    ||| c == '\\'
    ||| c == ':'
    ||| c == '*'
    ||| c == '?'
    ||| c == '"'
    ||| c == '<'
    ||| c == '>'
    ||| c == '|'
}

/// What stands in a file name for a character.
pub open spec fn file_name_char(c: char) -> char {
    if illegal_in_file_name(c) {
        '_'
    } else if control(c) {
        ' '
    } else {
        c
    }
}

/// A text without the dots at its start.
pub open spec fn undotted_start(s: Seq<char>) -> Seq<char>
    decreases s.len(),
{
    if s.len() > 0 && s[0] == '.' {
        undotted_start(s.drop_first())
    } else {
        s
    }
}

/// A text without the dots at its end.
pub open spec fn undotted_end(s: Seq<char>) -> Seq<char>
    decreases s.len(),
{
    if s.len() > 0 && s.last() == '.' {
        undotted_end(s.drop_last())
    } else {
        s
    }
}

/// A text without the dots at its start and at its end.
pub open spec fn undotted(s: Seq<char>) -> Seq<char> {
    undotted_end(undotted_start(s))
}

/// The words of a name, in characters that a file name may hold, with single
/// spaces between them and no dots around them.
pub open spec fn cleaned_name(name: Seq<char>) -> Seq<char> {
    trimmed(
        undotted(joined(words(name.map_values(|c: char| file_name_char(c))), seq![' '])),
    )
}

/// The longest file name, without its extension.
pub const MAX_FILE_STEM: usize = 120;

/// The file name for a name, without its extension.
pub open spec fn file_stem(name: Seq<char>) -> Seq<char> {
    let cleaned = cleaned_name(name);
    if cleaned.len() == 0 {
        "track"@
    } else if cleaned.len() > MAX_FILE_STEM {
        trimmed(cleaned.take(MAX_FILE_STEM as int))
    } else {
        cleaned
    }
}

/// `s` without the dots at its start and at its end.
fn trim_dots(s: &str) -> (res: &str)
    ensures
        res@ == undotted(s@),
{
    let chars = chars_of(s);
    let mut start: usize = 0;
    assert(s@.skip(0) =~= s@);
    while start < chars.len() && chars[start] == '.'
        invariant
            start <= chars@.len(),
            chars@ == s@,
            undotted_start(s@) == undotted_start(s@.skip(start as int)),
        decreases chars.len() - start,
    {
        assert(s@.skip(start as int).drop_first() =~= s@.skip(start + 1));
        start += 1;
    }
    let mut end: usize = chars.len();
    while start < end && chars[end - 1] == '.'
        invariant
            start <= end <= chars@.len(),
            chars@ == s@,
            undotted_end(s@.skip(start as int)) == undotted_end(
                s@.subrange(start as int, end as int),
            ),
        decreases end - start,
    {
        assert(s@.subrange(start as int, end as int).drop_last() =~= s@.subrange(
            start as int,
            end - 1,
        ));
        end -= 1;
    }
    s.substring_char(start, end)
}

/// What stands in a file name for `c`.
fn to_file_name_char(c: char) -> (res: char)
    ensures
        res == file_name_char(c),
{
    if c == '/' || c == '\\' || c == ':' || c == '*' || c == '?' || c == '"' || c == '<' || c == '>'
        || c == '|' {
        '_'
    } else if is_control(c) {
        ' '
    } else {
        c
    }
}

/// The file name for `name`, without its extension: no characters that common
/// file systems refuse, single spaces, and a length that they take.
pub fn sanitize_file_stem(name: &str) -> (res: String)
    ensures
        res@ == file_stem(name@),
{
    let ghost f = |c: char| file_name_char(c);
    let mut out = String::new();
    assert(out@ =~= name@.take(0).map_values(f));
    for c in it: name.chars()
        invariant
            it.seq() == name@,
            f == (|c: char| file_name_char(c)),
            out@ == it.seq().take(it.index()).map_values(f),
    {
        out.push(to_file_name_char(c));
        assert(name@.take(it.index() + 1).map_values(f) =~= name@.take(it.index()).map_values(
            f,
        ).push(file_name_char(c)));
    }
    assert(name@.take(name@.len() as int) =~= name@);
    let parts = split_words(out.as_str());
    proof {
        reveal_strlit(" ");
        assert(" "@ =~= seq![' ']);
    }
    let collapsed = join(&parts, " ");
    let cleaned = trim(trim_dots(collapsed.as_str()));
    if cleaned.is_empty() {
        return "track".to_owned();
    }
    let length: usize = chars_of(cleaned).len();
    if length > MAX_FILE_STEM {
        trim(cleaned.substring_char(0, MAX_FILE_STEM)).to_owned()
    } else {
        cleaned.to_owned()
    }
}

/// A text that file systems take as a name, with white space collapsed: none of
/// its characters is refused or a control character, and white space is a
/// single space.
pub open spec fn safe_in_file_name(s: Seq<char>) -> bool {
    forall|i: int|
        0 <= i < s.len() ==> {
            &&& !illegal_in_file_name(#[trigger] s[i])
            &&& !control(s[i])
            &&& white_space(s[i]) ==> s[i] == ' ' && (i + 1 < s.len() ==> !white_space(s[i + 1]))
        }
}

/// Part of a safe text is safe.
proof fn lemma_safe_part(s: Seq<char>, start: int, end: int)
    requires
        safe_in_file_name(s),
        0 <= start <= end <= s.len(),
    ensures
        safe_in_file_name(s.subrange(start, end)),
{
    let part = s.subrange(start, end);
    assert forall|i: int| 0 <= i < part.len() implies {
        &&& !illegal_in_file_name(#[trigger] part[i])
        &&& !control(part[i])
        &&& white_space(part[i]) ==> part[i] == ' ' && (i + 1 < part.len() ==> !white_space(
            part[i + 1],
        ))
    } by {
        assert(part[i] == s[start + i]);
        if i + 1 < part.len() {
            assert(part[i + 1] == s[start + i + 1]);
        }
    }
}

/// Where the text without dots around it stands in a text.
proof fn lemma_undotted_range(s: Seq<char>) -> (range: (int, int))
    ensures
        0 <= range.0 <= range.1 <= s.len(),
        undotted(s) == s.subrange(range.0, range.1),
    decreases s.len(),
{
    if s.len() > 0 && s[0] == '.' {
        let range = lemma_undotted_range(s.drop_first());
        assert(s.drop_first().subrange(range.0, range.1) =~= s.subrange(
            range.0 + 1,
            range.1 + 1,
        ));
        (range.0 + 1, range.1 + 1)
    } else {
        let end = lemma_undotted_end_range(s);
        assert(s.take(end) =~= s.subrange(0, end));
        (0, end)
    }
}

proof fn lemma_undotted_end_range(s: Seq<char>) -> (end: int)
    ensures
        0 <= end <= s.len(),
        undotted_end(s) == s.take(end),
    decreases s.len(),
{
    if s.len() > 0 && s.last() == '.' {
        let end = lemma_undotted_end_range(s.drop_last());
        assert(s.drop_last().take(end) =~= s.take(end));
        end
    } else {
        assert(s.take(s.len() as int) =~= s);
        s.len() as int
    }
}

/// Words of safe characters with single spaces between them are safe.
proof fn lemma_joined_words_safe(parts: Seq<Seq<char>>)
    requires
        forall|i: int| 0 <= i < parts.len() ==> (#[trigger] parts[i]).len() > 0,
        forall|i: int, j: int|
            0 <= i < parts.len() && 0 <= j < parts[i].len() ==> !illegal_in_file_name(
                #[trigger] parts[i][j],
            ) && !control(parts[i][j]) && !white_space(parts[i][j]),
    ensures
        safe_in_file_name(joined(parts, seq![' '])),
        joined(parts, seq![' ']).len() > 0 ==> !white_space(joined(parts, seq![' ']).last()),
    decreases parts.len(),
{
    if parts.len() > 1 {
        let front = parts.drop_last();
        assert forall|i: int, j: int|
            0 <= i < front.len() && 0 <= j < front[i].len() implies !illegal_in_file_name(
            #[trigger] front[i][j],
        ) && !control(front[i][j]) && !white_space(front[i][j]) by {
            assert(front[i] == parts[i]);
            assert(parts[i][j] == front[i][j]);
        }
        lemma_joined_words_safe(front);
        let head = joined(front, seq![' ']);
        let last = parts[parts.len() - 1];
        let all = joined(parts, seq![' ']);
        assert(all =~= head + seq![' '] + last);
        assert forall|i: int| 0 <= i < all.len() implies {
            &&& !illegal_in_file_name(#[trigger] all[i])
            &&& !control(all[i])
            &&& white_space(all[i]) ==> all[i] == ' ' && (i + 1 < all.len() ==> !white_space(
                all[i + 1],
            ))
        } by {
            if i < head.len() {
                assert(all[i] == head[i]);
                if i + 1 < head.len() {
                    assert(all[i + 1] == head[i + 1]);
                } else {
                    assert(head[i] == head.last());
                }
            } else if i == head.len() {
                assert(all[i] == ' ');
                assert(all[i + 1] == last[0]);
                assert(!white_space(parts[parts.len() - 1][0]));
            } else {
                assert(all[i] == parts[parts.len() - 1][i - head.len() - 1]);
            }
        }
        assert(all.last() == parts[parts.len() - 1][last.len() - 1]);
    }
}

/// A file name made from any name is safe, has between 1 and 120 characters, and
/// neither starts nor ends with white space.
pub proof fn lemma_file_stem_safe(name: Seq<char>)
    ensures
        safe_in_file_name(file_stem(name)),
        1 <= file_stem(name).len() <= MAX_FILE_STEM,
        !white_space(file_stem(name)[0]),
        !white_space(file_stem(name).last()),
{
    let mapped = name.map_values(|c: char| file_name_char(c));
    let parts = words(mapped);
    let line = joined(parts, seq![' ']);
    assert forall|i: int| 0 <= i < parts.len() implies (#[trigger] parts[i]).len() > 0 by {
        lemma_word(mapped, i);
    }
    assert forall|i: int, j: int|
        0 <= i < parts.len() && 0 <= j < parts[i].len() implies !illegal_in_file_name(
        #[trigger] parts[i][j],
    ) && !control(parts[i][j]) && !white_space(parts[i][j]) by {
        lemma_word(mapped, i);
        let c = parts[i][j];
        assert(mapped.contains(c));
        let k = choose|k: int| 0 <= k < mapped.len() && mapped[k] == c;
        assert(c == file_name_char(name[k]));
    }
    lemma_joined_words_safe(parts);
    let dots = lemma_undotted_range(line);
    lemma_safe_part(line, dots.0, dots.1);
    let ends = lemma_trimmed_range(undotted(line));
    lemma_safe_part(undotted(line), ends.0, ends.1);
    let cleaned = cleaned_name(name);
    lemma_trimmed_ends(undotted(line));
    if cleaned.len() == 0 {
        reveal_strlit("track");
    } else if cleaned.len() > MAX_FILE_STEM {
        let cut = cleaned.take(MAX_FILE_STEM as int);
        assert(cut =~= cleaned.subrange(0, MAX_FILE_STEM as int));
        lemma_safe_part(cleaned, 0, MAX_FILE_STEM as int);
        let range = lemma_trimmed_range(cut);
        lemma_safe_part(cut, range.0, range.1);
        lemma_trimmed_ends(cut);
        lemma_blank_trimmed(cut);
        assert(!white_space(cut[0]));
    }
}

// ---------------------------------------------------------------------------
// Attachments
// ---------------------------------------------------------------------------
/// The MD5 digest of a byte string.
pub uninterp spec fn md5_digest(bytes: Seq<u8>) -> Seq<u8>;

/// `md5::compute`: the MD5 digest of the bytes. How it comes from them is not
/// stated; it depends on nothing else.
#[verifier::external_body]
fn md5_of(bytes: &[u8]) -> (res: [u8; 16])
    ensures
        res@ == md5_digest(bytes@),
{
    md5::compute(bytes).0
}

/// Audio as an attachment of a note.
pub struct AudioAttachment {
    pub body: Vec<u8>,
    pub mime: String,
    pub file_name: String,
    pub bitrate_kbps: u32,
    pub quality: String,
    /// The digest that the note refers to the attachment by.
    pub md5: [u8; 16],
}

/// The bitrate to show, and whether it is an estimate: what was reported or,
/// where nothing was, the average that comes from the size and the duration.
/// There are 8 bits to a byte, and one bit per millisecond is one kilobit per
/// second.
pub open spec fn shown_bitrate(bitrate_kbps: u32, size: nat, duration_ms: Option<u128>) -> Option<
    (u32, bool),
> {
    if bitrate_kbps > 0 {
        Some((bitrate_kbps, false))
    } else {
        match duration_ms {
            Some(ms) => if ms > 0 && 0 < size * 8 / (ms as nat) <= u32::MAX {
                Some(((size * 8 / (ms as nat)) as u32, true))
            } else {
                None
            },
            None => None,
        }
    }
}

impl AudioAttachment {
    /// The attachment for downloaded audio, with a file named after `base_name`.
    pub fn new(audio: TrackAudio, base_name: &str) -> (res: Self)
        ensures
            res.body@ == audio.bytes@,
            res.mime@ == mime_of(audio.codec@),
            res.file_name@ == file_stem(base_name@) + seq!['.'] + extension_of(audio.codec@),
            res.bitrate_kbps == audio.bitrate_kbps,
            res.quality@ == audio.quality@,
            res.md5@ == md5_digest(audio.bytes@),
    {
        let md5 = md5_of(audio.bytes.as_slice());
        AudioAttachment::with_digest(audio, base_name, md5)
    }

    /// The attachment for downloaded audio with the given digest.
    pub fn with_digest(audio: TrackAudio, base_name: &str, md5: [u8; 16]) -> (res: Self)
        ensures
            res.body@ == audio.bytes@,
            res.mime@ == mime_of(audio.codec@),
            res.file_name@ == file_stem(base_name@) + seq!['.'] + extension_of(audio.codec@),
            res.bitrate_kbps == audio.bitrate_kbps,
            res.quality@ == audio.quality@,
            res.md5@ == md5@,
    {
        let mime = audio.mime().to_owned();
        let mut file_name = sanitize_file_stem(base_name);
        file_name.push('.');
        file_name.append(audio.extension());
        assert(file_name@ =~= file_stem(base_name@) + seq!['.'] + extension_of(audio.codec@));
        AudioAttachment {
            body: audio.bytes,
            mime,
            file_name,
            bitrate_kbps: audio.bitrate_kbps,
            quality: audio.quality,
            md5,
        }
    }

    /// The digest as bytes.
    pub fn md5_raw(&self) -> (res: Vec<u8>)
        ensures
            res@ == self.md5@,
    {
        array_to_vec(&self.md5)
    }

    /// The digest in hexadecimal digits.
    pub fn md5_hex(&self) -> (res: String)
        ensures
            res@ == hex(self.md5@),
    {
        hex_string(&self.md5)
    }

    /// The number of bytes.
    pub fn size(&self) -> (res: usize)
        ensures
            res == self.body@.len(),
    {
        self.body.len()
    }

    /// The number of bytes, for people.
    pub fn human_size(&self) -> (res: String)
        ensures
            res@ == size_text(self.body@.len()),
    {
        human_size(self.body.len())
    }

    /// The bitrate to show, in kilobits per second, and whether it is an
    /// estimate. Yandex Music reports 0 for lossless audio.
    pub fn display_bitrate_kbps(&self, duration_ms: Option<u128>) -> (res: Option<(u32, bool)>)
        ensures
            res == shown_bitrate(self.bitrate_kbps, self.body@.len(), duration_ms),
    {
        if self.bitrate_kbps > 0 {
            return Some((self.bitrate_kbps, false));
        }
        match duration_ms {
            Some(ms) => {
                if ms == 0 {
                    return None;
                }
                let kbps: u128 = (self.body.len() as u128 * 8) / ms;
                if 0 < kbps && kbps <= 0xffff_ffff {
                    Some((kbps as u32, true))
                } else {
                    None
                }
            },
            None => None,
        }
    }
}

/// The bytes of an array.
fn array_to_vec(bytes: &[u8; 16]) -> (res: Vec<u8>)
    ensures
        res@ == bytes@,
{
    let mut res: Vec<u8> = Vec::new();
    for i in 0..16usize
        invariant
            res@ == bytes@.take(i as int),
    {
        res.push(bytes[i]);
        assert(bytes@.take(i + 1) =~= bytes@.take(i as int).push(bytes@[i as int]));
    }
    assert(bytes@.take(16) =~= bytes@);
    res
}

// ---------------------------------------------------------------------------
// Sizes
// ---------------------------------------------------------------------------
/// A number of tenths in decimal notation, with one digit after the point.
pub open spec fn tenths_text(tenths: nat) -> Seq<char> {
    decimal(tenths / 10) + "."@ + decimal(tenths % 10)
}

/// A number of bytes for people: as it is below 1024, and from there on in KiB
/// or MiB with one digit after the point. The number is first rounded to a
/// double, which matters from 2^53 on.
pub open spec fn size_text(bytes: nat) -> Seq<char> {
    let value = nearest_double(bytes);
    if value >= 1024 * 1024 {
        tenths_text(half_even_quotient(10 * value, 1024 * 1024)) + " MiB"@
    } else if value >= 1024 {
        tenths_text(half_even_quotient(10 * value, 1024)) + " KiB"@
    } else {
        decimal(bytes) + " B"@
    }
}

/// A number of tenths in decimal notation.
fn tenths_string(tenths: u128) -> (res: String)
    ensures
        res@ == tenths_text(tenths as nat),
{
    let mut res = decimal_string(tenths / 10);
    res.append(".");
    res.append(decimal_string(tenths % 10).as_str());
    res
}

/// A number of bytes for people.
pub fn human_size(bytes: usize) -> (res: String)
    ensures
        res@ == size_text(bytes as nat),
{
    let value: u128 = to_nearest_double(bytes as u64);
    if value >= 1024 * 1024 {
        let mut res = tenths_string(half_even_div(10 * value, 1024 * 1024));
        res.append(" MiB");
        res
    } else if value >= 1024 {
        let mut res = tenths_string(half_even_div(10 * value, 1024));
        res.append(" KiB");
        res
    } else {
        let mut res = decimal_string(bytes as u128);
        res.append(" B");
        res
    }
}

// ---------------------------------------------------------------------------
// Covers
// ---------------------------------------------------------------------------
/// A cover image of a type that notes can show.
#[derive(Debug, Clone, PartialEq, Eq)]
pub struct CoverImage {
    pub bytes: Vec<u8>,
    pub mime: String,
}

/// The file name for a cover of the given type, if notes can show that type.
pub open spec fn cover_file_name(mime: Seq<char>) -> Option<Seq<char>> {
    if mime == "image/jpeg"@ {
        Some("cover.jpg"@)
    } else if mime == "image/png"@ {
        Some("cover.png"@)
    } else {
        None
    }
}

impl CoverImage {
    /// The cover with these bytes, if there are any and the type that the
    /// server gave is one that notes can show.
    pub fn new(bytes: Vec<u8>, content_type: Option<&str>) -> (res: Option<Self>)
        ensures
            match res {
                Some(cover) => {
                    &&& cover.bytes@ == bytes@
                    &&& bytes@.len() > 0
                    &&& content_type is Some
                    &&& cover.mime@ == content_type->0@
                    &&& cover_file_name(cover.mime@) is Some
                },
                None => bytes@.len() == 0 || content_type is None || cover_file_name(
                    content_type->0@,
                ) is None,
            },
    {
        match content_type {
            Some(mime) => {
                if bytes.len() > 0 && (*mime == *"image/jpeg" || *mime == *"image/png") {
                    Some(CoverImage { bytes, mime: mime.to_owned() })
                } else {
                    None
                }
            },
            None => None,
        }
    }
}

/// A cover as an attachment of a note.
pub struct CoverAttachment {
    pub body: Vec<u8>,
    pub mime: String,
    pub file_name: String,
    /// The digest that the note refers to the attachment by.
    pub md5: [u8; 16],
}

impl CoverAttachment {
    /// The attachment for a cover. A type without a file name of its own gets
    /// the name `cover`.
    pub fn new(cover: CoverImage) -> (res: Self)
        ensures
            res.body@ == cover.bytes@,
            res.mime@ == cover.mime@,
            res.file_name@ == match cover_file_name(cover.mime@) {
                Some(name) => name,
                None => "cover"@,
            },
            res.md5@ == md5_digest(cover.bytes@),
    {
        let md5 = md5_of(cover.bytes.as_slice());
        let file_name = if *cover.mime.as_str() == *"image/jpeg" {
            "cover.jpg".to_owned()
        } else if *cover.mime.as_str() == *"image/png" {
            "cover.png".to_owned()
        } else {
            "cover".to_owned()
        };
        CoverAttachment { body: cover.bytes, mime: cover.mime, file_name, md5 }
    }

    /// The digest as bytes.
    pub fn md5_raw(&self) -> (res: Vec<u8>)
        ensures
            res@ == self.md5@,
    {
        array_to_vec(&self.md5)
    }

    /// The digest in hexadecimal digits.
    pub fn md5_hex(&self) -> (res: String)
        ensures
            res@ == hex(self.md5@),
    {
        hex_string(&self.md5)
    }

    /// The number of bytes.
    pub fn size(&self) -> (res: usize)
        ensures
            res == self.body@.len(),
    {
        self.body.len()
    }
}

} // verus!
