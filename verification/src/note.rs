//! The title and the content of the note for a track.
use vstd::prelude::*;

use crate::audio::{shown_bitrate, AudioAttachment, CoverAttachment};
use crate::enrichment::links::{link_views, ExternalLink, Link};
use crate::escape::{encode_safe, markup_escaped};
use crate::text::{decimal, decimal_string, digit, hex, join, joined, lemma_texts_push, texts};
use crate::timestamp::rfc3339_text;
use crate::yandex::{AlbumLink, ArtistLink, LikedTrack, NamedPage, Track};

pub mod laws;
pub mod line_laws;

verus! {

/// A list for people.
pub open spec fn list_text(items: Seq<Seq<char>>) -> Seq<char> {
    joined(items, ", "@)
}

/// A list for people.
pub fn display_list(items: &Vec<String>) -> (res: String)
    ensures
        res@ == list_text(texts(items@)),
{
    join(items, ", ")
}

/// The title of a note: the artists, if they have names, and the title of the
/// track.
pub open spec fn title_text(track: Track) -> Seq<char> {
    let artists = list_text(track.artists);
    if artists.len() == 0 {
        track.title
    } else {
        artists + " - "@ + track.title
    }
}

/// The title of the note for `track`.
pub fn title(track: &LikedTrack) -> (res: String)
    ensures
        res@ == title_text(track@),
{
    let artists = display_list(&track.artists);
    if artists.as_str().is_empty() {
        track.title.clone()
    } else {
        let mut res = artists;
        res.append(" - ");
        res.append(track.title.as_str());
        res
    }
}

// ---------------------------------------------------------------------------
// Parts of the content
// ---------------------------------------------------------------------------
/// A duration in minutes and seconds, without what is left of the last second.
pub open spec fn duration_text(duration_ms: nat) -> Seq<char> {
    let seconds = duration_ms / 1000;
    decimal(seconds / 60) + ":"@ + seq![digit(seconds % 60 / 10), digit(seconds % 60 % 10)]
}

/// `duration_ms` in minutes and seconds.
pub fn format_duration(duration_ms: u128) -> (res: String)
    ensures
        res@ == duration_text(duration_ms as nat),
{
    let total_seconds: u128 = duration_ms / 1000;
    let mut res = decimal_string(total_seconds / 60);
    res.append(":");
    let seconds: u128 = total_seconds % 60;
    if seconds < 10 {
        res.append("0");
    }
    res.append(decimal_string(seconds).as_str());
    proof {
        reveal_strlit("0");
        if seconds >= 10 {
            assert(decimal(seconds as nat / 10) == seq![digit(seconds as nat / 10)]);
        }
        assert(res@ =~= duration_text(duration_ms as nat));
    }
    res
}

/// A link in the content.
pub open spec fn anchor(url: Seq<char>, label: Seq<char>) -> Seq<char> {
    "<a href=\""@ + markup_escaped(url) + "\">"@ + markup_escaped(label) + "</a>"@
}

/// A link in the content.
fn render_anchor(url: &str, label: &str) -> (res: String)
    ensures
        res@ == anchor(url@, label@),
{
    let mut res = "<a href=\"".to_owned();
    res.append(encode_safe(url).as_str());
    res.append("\">");
    res.append(encode_safe(label).as_str());
    res.append("</a>");
    res
}

/// The address of the first page with the given name.
pub open spec fn page_of(name: Seq<char>, pages: Seq<NamedPage>) -> Option<Seq<char>>
    decreases pages.len(),
{
    if pages.len() == 0 {
        None
    } else if pages[0].name == name {
        Some(pages[0].yandex_url)
    } else {
        page_of(name, pages.drop_first())
    }
}

/// A name in the content, linked to its page if it has one.
pub open spec fn name_markup(name: Seq<char>, pages: Seq<NamedPage>) -> Seq<char> {
    match page_of(name, pages) {
        Some(url) => anchor(url, name),
        None => markup_escaped(name),
    }
}

/// A list of names in the content, each linked to its page if it has one.
pub open spec fn names_markup(names: Seq<Seq<char>>, pages: Seq<NamedPage>) -> Seq<char> {
    if pages.len() == 0 {
        markup_escaped(list_text(names))
    } else {
        list_text(names.map_values(|name: Seq<char>| name_markup(name, pages)))
    }
}

/// Something with a name and a page.
trait Page {
    spec fn page(&self) -> NamedPage;

    fn page_name(&self) -> (res: &str)
        ensures
            res@ == self.page().name,
    ;

    fn page_url(&self) -> (res: &str)
        ensures
            res@ == self.page().yandex_url,
    ;
}

impl Page for ArtistLink {
    spec fn page(&self) -> NamedPage {
        self@
    }

    fn page_name(&self) -> (res: &str) {
        self.name.as_str()
    }

    fn page_url(&self) -> (res: &str) {
        self.yandex_url.as_str()
    }
}

impl Page for AlbumLink {
    spec fn page(&self) -> NamedPage {
        self@
    }

    fn page_name(&self) -> (res: &str) {
        self.name.as_str()
    }

    fn page_url(&self) -> (res: &str) {
        self.yandex_url.as_str()
    }
}

/// A name in the content, linked to its page if it has one.
fn render_name<P: Page>(name: &str, links: &Vec<P>) -> (res: String)
    ensures
        res@ == name_markup(name@, links@.map_values(|link: P| link.page())),
{
    let ghost pages = links@.map_values(|link: P| link.page());
    assert(pages.skip(0) =~= pages);
    for i in 0..links.len()
        invariant
            pages == links@.map_values(|link: P| link.page()),
            page_of(name@, pages) == page_of(name@, pages.skip(i as int)),
    {
        let ghost rest = pages.skip(i as int);
        assert(rest.drop_first() =~= pages.skip(i + 1));
        assert(rest[0] == links@[i as int].page());
        if *links[i].page_name() == *name {
            return render_anchor(links[i].page_url(), name);
        }
    }
    encode_safe(name)
}

/// A list of names in the content, each linked to its page if it has one.
fn render_names<P: Page>(names: &Vec<String>, links: &Vec<P>) -> (res: String)
    ensures
        res@ == names_markup(texts(names@), links@.map_values(|link: P| link.page())),
{
    if links.len() == 0 {
        return encode_safe(display_list(names).as_str());
    }
    let ghost pages = links@.map_values(|link: P| link.page());
    let ghost f = |name: Seq<char>| name_markup(name, pages);
    let mut parts: Vec<String> = Vec::new();
    assert(texts(parts@) =~= texts(names@).take(0).map_values(f));
    for i in 0..names.len()
        invariant
            pages == links@.map_values(|link: P| link.page()),
            f == (|name: Seq<char>| name_markup(name, pages)),
            texts(parts@) == texts(names@).take(i as int).map_values(f),
    {
        broadcast use lemma_texts_push;

        parts.push(render_name(names[i].as_str(), links));
        assert(texts(names@).take(i + 1).map_values(f) =~= texts(names@).take(i as int).map_values(
            f,
        ).push(f(names@[i as int]@)));
    }
    assert(texts(names@).take(names@.len() as int) =~= texts(names@));
    display_list(&parts)
}

/// The artists in the content.
pub fn render_artists(track: &LikedTrack) -> (res: String)
    ensures
        res@ == names_markup(track@.artists, track@.artist_links),
{
    let res = render_names(&track.artists, &track.artist_links);
    assert(track.artist_links@.map_values(|link: ArtistLink| link.page())
        =~= track@.artist_links);
    res
}

/// The albums in the content.
pub fn render_albums(track: &LikedTrack) -> (res: String)
    ensures
        res@ == names_markup(track@.albums, track@.album_links),
{
    let res = render_names(&track.albums, &track.album_links);
    assert(track.album_links@.map_values(|link: AlbumLink| link.page()) =~= track@.album_links);
    res
}

/// A row with a link in the content.
pub open spec fn link_row(link: Link) -> Seq<char> {
    "<div>"@ + anchor(link.url, link.label) + "</div>"@
}

/// The links in the content: a row for each, after an empty one; nothing if
/// there are none.
pub open spec fn links_markup(links: Seq<Link>) -> Seq<char> {
    if links.len() == 0 {
        Seq::empty()
    } else {
        "<div><br/></div>\n"@ + joined(links.map_values(|link: Link| link_row(link)), "\n"@)
    }
}

/// The links in the content.
pub fn render_external_links(links: &[ExternalLink]) -> (res: String)
    ensures
        res@ == links_markup(link_views(links@)),
{
    if links.len() == 0 {
        return String::new();
    }
    let ghost views = link_views(links@);
    let ghost f = |link: Link| link_row(link);
    let mut rows: Vec<String> = Vec::new();
    assert(texts(rows@) =~= views.take(0).map_values(f));
    for i in 0..links.len()
        invariant
            views == link_views(links@),
            f == (|link: Link| link_row(link)),
            texts(rows@) == views.take(i as int).map_values(f),
    {
        broadcast use lemma_texts_push;

        let mut row = "<div>".to_owned();
        row.append(render_anchor(links[i].url.as_str(), links[i].label.as_str()).as_str());
        row.append("</div>");
        rows.push(row);
        assert(views[i as int] == links@[i as int]@);
        assert(views.take(i + 1).map_values(f) =~= views.take(i as int).map_values(f).push(
            link_row(links@[i as int]@),
        ));
    }
    assert(views.take(views.len() as int) =~= views);
    let mut res = "<div><br/></div>\n".to_owned();
    res.append(join(&rows, "\n").as_str());
    res
}

/// The place of an attachment in the content.
pub open spec fn media_tag(mime: Seq<char>, md5: Seq<u8>) -> Seq<char> {
    "<en-media type=\""@ + markup_escaped(mime) + "\" hash=\""@ + hex(md5) + "\"/>"@
}

/// The cover in the content.
pub fn render_cover(cover: &CoverAttachment) -> (res: String)
    ensures
        res@ == media_tag(cover.mime@, cover.md5@),
{
    let mut res = "<en-media type=\"".to_owned();
    res.append(encode_safe(cover.mime.as_str()).as_str());
    res.append("\" hash=\"");
    res.append(cover.md5_hex().as_str());
    res.append("\"/>");
    res
}

/// What is said of the audio: its quality and, if there is one to show, its
/// bitrate, with a tilde before an estimate.
pub open spec fn audio_details(
    quality: Seq<char>,
    bitrate: Option<(u32, bool)>,
) -> Seq<char> {
    markup_escaped(quality) + (match bitrate {
        Some((kbps, estimated)) => ", "@ + (if estimated {
            "~"@
        } else {
            ""@
        }) + decimal(kbps as nat) + " kbps"@,
        None => Seq::empty(),
    })
}

/// The audio in the content.
pub open spec fn audio_markup(audio: AudioAttachment, duration_ms: Option<u128>) -> Seq<char> {
    "<div><b>Audio:</b> "@ + audio_details(
        audio.quality@,
        shown_bitrate(audio.bitrate_kbps, audio.body@.len(), duration_ms),
    ) + "</div>\n"@ + media_tag(audio.mime@, audio.md5@)
}

/// The audio in the content.
pub fn render_audio(audio: &AudioAttachment, duration_ms: Option<u128>) -> (res: String)
    ensures
        res@ == audio_markup(*audio, duration_ms),
{
    let mut res = "<div><b>Audio:</b> ".to_owned();
    let mut details = encode_safe(audio.quality.as_str());
    if let Some((kbps, estimated)) = audio.display_bitrate_kbps(duration_ms) {
        let mut bitrate = ", ".to_owned();
        bitrate.append(
            if estimated {
                "~"
            } else {
                ""
            },
        );
        bitrate.append(decimal_string(kbps as u128).as_str());
        bitrate.append(" kbps");
        details.append(bitrate.as_str());
    }
    assert(details@ =~= audio_details(
        audio.quality@,
        shown_bitrate(audio.bitrate_kbps, audio.body@.len(), duration_ms),
    ));
    res.append(details.as_str());
    res.append("</div>\n");
    let mut tag = "<en-media type=\"".to_owned();
    tag.append(encode_safe(audio.mime.as_str()).as_str());
    tag.append("\" hash=\"");
    tag.append(audio.md5_hex().as_str());
    tag.append("\"/>");
    res.append(tag.as_str());
    res
}

/// The duration in the content, if it is known.
pub open spec fn duration_markup(duration_ms: Option<u128>) -> Seq<char> {
    match duration_ms {
        Some(ms) => "<div><b>Duration:</b> "@ + markup_escaped(duration_text(ms as nat))
            + "</div>"@,
        None => Seq::empty(),
    }
}

/// The duration in the content, if it is known.
fn render_duration(duration_ms: Option<u128>) -> (res: String)
    ensures
        res@ == duration_markup(duration_ms),
{
    match duration_ms {
        Some(ms) => {
            let mut res = "<div><b>Duration:</b> ".to_owned();
            res.append(encode_safe(format_duration(ms).as_str()).as_str());
            res.append("</div>");
            res
        },
        None => String::new(),
    }
}

// ---------------------------------------------------------------------------
// The content
// ---------------------------------------------------------------------------
/// What an option refers to.
pub open spec fn referred<T>(value: Option<&T>) -> Option<T> {
    match value {
        Some(value) => Some(*value),
        None => None,
    }
}

/// The start of the content of a note: what is known of the track.
pub open spec fn content_head(track: Track, liked_at: Seq<char>) -> Seq<char> {
    "<?xml version=\"1.0\" encoding=\"UTF-8\"?>\n<!DOCTYPE en-note SYSTEM \"http://xml.evernote.com/pub/enml2.dtd\">\n<en-note>\n<div><b>Track:</b> "@
        + markup_escaped(track.title) + "</div>\n<div><b>Album:</b> "@ + names_markup(
        track.albums,
        track.album_links,
    ) + "</div>\n<div><b>Artist:</b> "@ + names_markup(track.artists, track.artist_links)
        + "</div>\n"@ + duration_markup(track.duration_ms) + "\n<div><b>Liked at:</b> "@
        + markup_escaped(liked_at) + "</div>\n"@
}

/// The content of a note, in the markup of Evernote. Every text in it that comes
/// from elsewhere is escaped.
pub open spec fn content_text(
    track: Track,
    liked_at: Seq<char>,
    links: Seq<Link>,
    cover: Option<CoverAttachment>,
    audio: Option<AudioAttachment>,
) -> Seq<char> {
    content_head(track, liked_at) + (match cover {
        Some(cover) => media_tag(cover.mime@, cover.md5@),
        None => Seq::empty(),
    }) + "\n"@ + (match audio {
        Some(audio) => audio_markup(audio, track.duration_ms),
        None => Seq::empty(),
    }) + "\n"@ + links_markup(links) + "\n</en-note>"@
}

/// The content of the note for `track`.
pub fn enml(
    track: &LikedTrack,
    external_links: &[ExternalLink],
    cover: Option<&CoverAttachment>,
    audio: Option<&AudioAttachment>,
) -> (res: String)
    ensures
        res@ == content_text(
            track@,
            rfc3339_text(track@.liked_at.seconds, track@.liked_at.nanos),
            link_views(external_links@),
            referred(cover),
            referred(audio),
        ),
{
    let liked_at = track.liked_at.to_rfc3339();
    enml_liked_at(track, liked_at.as_str(), external_links, cover, audio)
}

/// The content of the note for `track`, with `liked_at` for the time at which it
/// was liked.
pub fn enml_liked_at(
    track: &LikedTrack,
    liked_at: &str,
    external_links: &[ExternalLink],
    cover: Option<&CoverAttachment>,
    audio: Option<&AudioAttachment>,
) -> (res: String)
    ensures
        res@ == content_text(
            track@,
            liked_at@,
            link_views(external_links@),
            referred(cover),
            referred(audio),
        ),
{
    let mut res =
        "<?xml version=\"1.0\" encoding=\"UTF-8\"?>\n<!DOCTYPE en-note SYSTEM \"http://xml.evernote.com/pub/enml2.dtd\">\n<en-note>\n<div><b>Track:</b> ".to_owned();
    res.append(encode_safe(track.title.as_str()).as_str());
    res.append("</div>\n<div><b>Album:</b> ");
    res.append(render_albums(track).as_str());
    res.append("</div>\n<div><b>Artist:</b> ");
    res.append(render_artists(track).as_str());
    res.append("</div>\n");
    res.append(render_duration(track.duration_ms).as_str());
    res.append("\n<div><b>Liked at:</b> ");
    res.append(encode_safe(liked_at).as_str());
    res.append("</div>\n");
    let cover_part = match cover {
        Some(cover) => render_cover(cover),
        None => String::new(),
    };
    res.append(cover_part.as_str());
    res.append("\n");
    let audio_part = match audio {
        Some(audio) => render_audio(audio, track.duration_ms),
        None => String::new(),
    };
    res.append(audio_part.as_str());
    res.append("\n");
    res.append(render_external_links(external_links).as_str());
    res.append("\n</en-note>");
    res
}

// ---------------------------------------------------------------------------
// Laws
// ---------------------------------------------------------------------------
/// The part stands somewhere in the text.
pub open spec fn stands_in(part: Seq<char>, text: Seq<char>) -> bool {
    exists|i: int|
        0 <= i <= text.len() - part.len() && #[trigger] text.subrange(i, i + part.len()) == part
}

proof fn lemma_stands_in(before: Seq<char>, part: Seq<char>, after: Seq<char>)
    ensures
        stands_in(part, before + part + after),
{
    let text = before + part + after;
    let i = before.len() as int;
    assert(text.subrange(i, i + part.len()) =~= part);
}

/// The content of a note has a place for each of its attachments, which refers to
/// it by its type and its digest.
pub proof fn lemma_attachments_shown(
    track: Track,
    liked_at: Seq<char>,
    links: Seq<Link>,
    cover: Option<CoverAttachment>,
    audio: Option<AudioAttachment>,
)
    ensures
        cover is Some ==> stands_in(
            media_tag(cover->0.mime@, cover->0.md5@),
            content_text(track, liked_at, links, cover, audio),
        ),
        audio is Some ==> stands_in(
            media_tag(audio->0.mime@, audio->0.md5@),
            content_text(track, liked_at, links, cover, audio),
        ),
{
    let content = content_text(track, liked_at, links, cover, audio);
    let head = content_head(track, liked_at);
    let shown_cover = match cover {
        Some(cover) => media_tag(cover.mime@, cover.md5@),
        None => Seq::empty(),
    };
    let shown_audio = match audio {
        Some(audio) => audio_markup(audio, track.duration_ms),
        None => Seq::empty(),
    };
    let tail = "\n"@ + links_markup(links) + "\n</en-note>"@;
    assert(content =~= head + shown_cover + ("\n"@ + shown_audio + tail));
    lemma_stands_in(head, shown_cover, "\n"@ + shown_audio + tail);
    if let Some(audio) = audio {
        let line = "<div><b>Audio:</b> "@ + audio_details(
            audio.quality@,
            shown_bitrate(audio.bitrate_kbps, audio.body@.len(), track.duration_ms),
        ) + "</div>\n"@;
        let tag = media_tag(audio.mime@, audio.md5@);
        assert(content =~= head + shown_cover + "\n"@ + line + tag + tail);
        lemma_stands_in(head + shown_cover + "\n"@ + line, tag, tail);
    }
}

} // verus!
