//! What stands in the title and in the content of a note, whatever the track.
use vstd::prelude::*;

use crate::audio::{shown_bitrate, AudioAttachment, CoverAttachment};
use crate::enrichment::links::Link;
use crate::escape::markup_escaped;
use crate::note::{
    audio_details, audio_markup, content_head, content_text, duration_markup, duration_text,
    link_row, links_markup, media_tag, name_markup, names_markup, page_of, stands_in, title_text,
};
use crate::text::{decimal, digit, hex, joined};
use crate::yandex::{NamedPage, Track};

verus! {

// ---------------------------------------------------------------------------
// The title
// ---------------------------------------------------------------------------
/// The title of a note ends with the title of the track. Where the artists have no
/// name it is nothing else; where they do it starts with all of them, in order and
/// with commas between them, and a dash follows.
pub proof fn lemma_title(track: Track)
    ensures
        joined(track.artists, ", "@).len() == 0 ==> title_text(track) == track.title,
        joined(track.artists, ", "@).len() > 0 ==> title_text(track) == joined(
            track.artists,
            ", "@,
        ) + " - "@ + track.title,
        track.artists.len() == 0 ==> title_text(track) == track.title,
        track.artists.len() == 1 && track.artists[0].len() > 0 ==> title_text(track)
            == track.artists[0] + " - "@ + track.title,
        track.artists.len() == 2 ==> title_text(track) == track.artists[0] + ", "@
            + track.artists[1] + " - "@ + track.title,
{
    if track.artists.len() == 2 {
        reveal_strlit(", ");
        let front = track.artists.drop_last();
        assert(joined(front, ", "@) == track.artists[0]);
        assert(joined(track.artists, ", "@) == track.artists[0] + ", "@ + track.artists[1]);
    }
}

// ---------------------------------------------------------------------------
// Parts in order
// ---------------------------------------------------------------------------
/// The parts stand in the text, each after the end of the one before.
pub open spec fn in_order(parts: Seq<Seq<char>>, text: Seq<char>) -> bool
    decreases parts.len(),
{
    parts.len() == 0 || exists|i: int|
        {
            &&& 0 <= i <= text.len() - parts[0].len()
            &&& #[trigger] text.subrange(i, i + parts[0].len()) == parts[0]
            &&& in_order(parts.drop_first(), text.skip(i + parts[0].len()))
        }
}

/// The length of the parts together.
pub open spec fn total_len(parts: Seq<Seq<char>>) -> nat
    decreases parts.len(),
{
    if parts.len() == 0 {
        0
    } else {
        parts[0].len() + total_len(parts.drop_first())
    }
}

proof fn lemma_in_order_before(parts: Seq<Seq<char>>, before: Seq<char>, text: Seq<char>)
    requires
        in_order(parts, text),
    ensures
        in_order(parts, before + text),
{
    if parts.len() > 0 {
        let i = choose|i: int|
            {
                &&& 0 <= i <= text.len() - parts[0].len()
                &&& #[trigger] text.subrange(i, i + parts[0].len()) == parts[0]
                &&& in_order(parts.drop_first(), text.skip(i + parts[0].len()))
            };
        let all = before + text;
        let j = before.len() + i;
        assert(all.subrange(j, j + parts[0].len()) =~= text.subrange(i, i + parts[0].len()));
        assert(all.skip(j + parts[0].len()) =~= text.skip(i + parts[0].len()));
    }
}

/// Parts of two texts stand in order in the texts one after the other.
proof fn lemma_in_order_add(
    first: Seq<Seq<char>>,
    left: Seq<char>,
    second: Seq<Seq<char>>,
    right: Seq<char>,
)
    requires
        in_order(first, left),
        in_order(second, right),
    ensures
        in_order(first + second, left + right),
        total_len(first + second) == total_len(first) + total_len(second),
    decreases first.len(),
{
    let parts = first + second;
    if first.len() == 0 {
        assert(parts =~= second);
        lemma_in_order_before(second, left, right);
    } else {
        let i = choose|i: int|
            {
                &&& 0 <= i <= left.len() - first[0].len()
                &&& #[trigger] left.subrange(i, i + first[0].len()) == first[0]
                &&& in_order(first.drop_first(), left.skip(i + first[0].len()))
            };
        let end = i + first[0].len();
        lemma_in_order_add(first.drop_first(), left.skip(end), second, right);
        let all = left + right;
        assert(parts.drop_first() =~= first.drop_first() + second);
        assert(parts[0] == first[0]);
        assert(all.subrange(i, end) =~= left.subrange(i, end));
        assert(all.skip(end) =~= left.skip(end) + right);
    }
}

proof fn lemma_in_order_one(before: Seq<char>, part: Seq<char>, after: Seq<char>)
    ensures
        in_order(seq![part], before + part + after),
        total_len(seq![part]) == part.len(),
{
    let text = before + part + after;
    let i = before.len() as int;
    let parts = seq![part];
    assert(text.subrange(i, i + parts[0].len()) =~= part);
    assert(parts.drop_first() =~= Seq::empty());
    assert(in_order(parts.drop_first(), text.skip(i + parts[0].len())));
    reveal_with_fuel(total_len, 2);
}

/// Texts with separators between them hold the texts in order, and nothing but the
/// separators besides.
proof fn lemma_joined_in_order(parts: Seq<Seq<char>>, sep: Seq<char>)
    ensures
        in_order(parts, joined(parts, sep)),
        parts.len() == 0 ==> joined(parts, sep).len() == 0,
        parts.len() > 0 ==> joined(parts, sep).len() == total_len(parts) + (parts.len() - 1)
            * sep.len(),
    decreases parts.len(),
{
    if parts.len() == 1 {
        assert(parts =~= seq![parts[0]]);
        lemma_in_order_one(Seq::empty(), parts[0], Seq::empty());
        assert(Seq::<char>::empty() + parts[0] + Seq::<char>::empty() =~= parts[0]);
    } else if parts.len() > 1 {
        let front = parts.drop_last();
        let last = parts.last();
        lemma_joined_in_order(front, sep);
        lemma_in_order_one(sep, last, Seq::empty());
        assert(sep + last + Seq::<char>::empty() =~= sep + last);
        lemma_in_order_add(front, joined(front, sep), seq![last], sep + last);
        assert(front + seq![last] =~= parts);
        assert(joined(front, sep) + (sep + last) =~= joined(parts, sep));
        let n = parts.len() as int;
        let m = sep.len() as int;
        assert((n - 2) * m + m == (n - 1) * m) by (nonlinear_arith);
    }
}

// ---------------------------------------------------------------------------
// Escaping part by part
// ---------------------------------------------------------------------------
proof fn lemma_escaped_add(a: Seq<char>, b: Seq<char>)
    ensures
        markup_escaped(a + b) == markup_escaped(a) + markup_escaped(b),
    decreases b.len(),
{
    let f = |c: char| crate::escape::markup_char(c);
    if b.len() == 0 {
        assert(a + b =~= a);
        assert(markup_escaped(b) =~= Seq::empty());
        assert(markup_escaped(a) + Seq::<char>::empty() =~= markup_escaped(a));
    } else {
        let front = b.drop_last();
        lemma_escaped_add(a, front);
        assert((a + front).push(b.last()) =~= a + b);
        assert(front.push(b.last()) =~= b);
        (a + front).lemma_flat_map_push(f, b.last());
        front.lemma_flat_map_push(f, b.last());
        assert(markup_escaped(a + b) =~= markup_escaped(a) + markup_escaped(b));
    }
}

proof fn lemma_escaped_comma()
    ensures
        markup_escaped(", "@) == ", "@,
{
    reveal_strlit(", ");
    let f = |c: char| crate::escape::markup_char(c);
    let none = Seq::<char>::empty();
    none.lemma_flat_map_push(f, ',');
    none.push(',').lemma_flat_map_push(f, ' ');
    assert(none.push(',').push(' ') =~= ", "@);
    assert(none.flat_map(f) =~= none);
    assert(markup_escaped(", "@) =~= ", "@);
}

/// A list that is escaped is the list of what is escaped.
proof fn lemma_escaped_list(names: Seq<Seq<char>>)
    ensures
        markup_escaped(joined(names, ", "@)) == joined(
            names.map_values(|name: Seq<char>| markup_escaped(name)),
            ", "@,
        ),
    decreases names.len(),
{
    let f = |name: Seq<char>| markup_escaped(name);
    let parts = names.map_values(f);
    if names.len() == 0 {
        assert(markup_escaped(Seq::<char>::empty()) =~= Seq::empty());
    } else if names.len() > 1 {
        let front = names.drop_last();
        lemma_escaped_list(front);
        lemma_escaped_comma();
        assert(parts.drop_last() =~= front.map_values(f));
        lemma_escaped_add(joined(front, ", "@) + ", "@, names.last());
        lemma_escaped_add(joined(front, ", "@), ", "@);
    }
}

// ---------------------------------------------------------------------------
// The content
// ---------------------------------------------------------------------------
/// The first page with a name is the one that a name is linked to: at some place
/// there is a page with that name and none before it has it, or no page has it.
pub proof fn lemma_first_page(name: Seq<char>, pages: Seq<NamedPage>)
    ensures
        match page_of(name, pages) {
            Some(url) => exists|i: int|
                {
                    &&& 0 <= i < pages.len()
                    &&& #[trigger] pages[i] == (NamedPage { name, yandex_url: url })
                    &&& forall|j: int| 0 <= j < i ==> (#[trigger] pages[j]).name != name
                },
            None => forall|j: int| 0 <= j < pages.len() ==> (#[trigger] pages[j]).name != name,
        },
    decreases pages.len(),
{
    if pages.len() > 0 {
        if pages[0].name == name {
            assert(pages[0] == (NamedPage { name, yandex_url: pages[0].yandex_url }));
        } else {
            let rest = pages.drop_first();
            lemma_first_page(name, rest);
            if let Some(url) = page_of(name, rest) {
                let i = choose|i: int|
                    {
                        &&& 0 <= i < rest.len()
                        &&& #[trigger] rest[i] == (NamedPage { name, yandex_url: url })
                        &&& forall|j: int| 0 <= j < i ==> (#[trigger] rest[j]).name != name
                    };
                assert(pages[i + 1] == (NamedPage { name, yandex_url: url }));
                assert forall|j: int| 0 <= j < i + 1 implies (#[trigger] pages[j]).name != name by {
                    if j > 0 {
                        assert(rest[j - 1] == pages[j]);
                    }
                }
            } else {
                assert forall|j: int| 0 <= j < pages.len() implies (#[trigger] pages[j]).name
                    != name by {
                    if j > 0 {
                        assert(rest[j - 1] == pages[j]);
                    }
                }
            }
        }
    }
}

/// What stands for a name: the name, escaped, and around it the link to the first
/// page with that name, if there is one.
pub open spec fn name_part(name: Seq<char>, pages: Seq<NamedPage>) -> Seq<char> {
    match page_of(name, pages) {
        Some(url) => "<a href=\""@ + markup_escaped(url) + "\">"@ + markup_escaped(name) + "</a>"@,
        None => markup_escaped(name),
    }
}

/// What stands for the names of a list.
pub open spec fn name_parts(names: Seq<Seq<char>>, pages: Seq<NamedPage>) -> Seq<Seq<char>> {
    names.map_values(|name: Seq<char>| name_part(name, pages))
}

/// What stands for a link.
pub open spec fn link_part(link: Link) -> Seq<char> {
    "<div><a href=\""@ + markup_escaped(link.url) + "\">"@ + markup_escaped(link.label)
        + "</a></div>"@
}

/// Where an attachment is shown.
pub open spec fn media_part(mime: Seq<char>, md5: Seq<u8>) -> Seq<char> {
    "<en-media type=\""@ + markup_escaped(mime) + "\" hash=\""@ + hex(md5) + "\"/>"@
}

/// What stands in the content of a note of what is known of the track.
pub open spec fn track_parts(track: Track, liked_at: Seq<char>) -> Seq<Seq<char>> {
    seq!["<div><b>Track:</b> "@ + markup_escaped(track.title) + "</div>"@, "<div><b>Album:</b> "@]
        + name_parts(track.albums, track.album_links) + seq!["<div><b>Artist:</b> "@] + name_parts(
        track.artists,
        track.artist_links,
    ) + (match track.duration_ms {
        Some(ms) => seq![
            "<div><b>Duration:</b> "@ + decimal((ms / 60_000) as nat) + seq![
                ':',
                digit((ms / 10_000 % 6) as nat),
                digit((ms / 1_000 % 10) as nat),
            ] + "</div>"@,
        ],
        None => Seq::empty(),
    }) + seq!["<div><b>Liked at:</b> "@ + markup_escaped(liked_at) + "</div>"@]
}

/// What stands in the content of a note of its attachments and links.
pub open spec fn further_parts(
    links: Seq<Link>,
    cover: Option<CoverAttachment>,
    audio: Option<AudioAttachment>,
    duration_ms: Option<u128>,
) -> Seq<Seq<char>> {
    (match cover {
        Some(cover) => seq![media_part(cover.mime@, cover.md5@)],
        None => Seq::empty(),
    }) + (match audio {
        Some(audio) => seq![
            "<div><b>Audio:</b> "@ + markup_escaped(audio.quality@) + (match shown_bitrate(
                audio.bitrate_kbps,
                audio.body@.len(),
                duration_ms,
            ) {
                Some((kbps, estimated)) => (if estimated {
                    ", ~"@
                } else {
                    ", "@
                }) + decimal(kbps as nat) + " kbps</div>"@,
                None => "</div>"@,
            }),
            media_part(audio.mime@, audio.md5@),
        ],
        None => Seq::empty(),
    }) + links.map_values(|link: Link| link_part(link))
}

/// How many characters stand between the names of a list.
pub open spec fn commas(n: nat) -> int {
    if n == 0 {
        0
    } else {
        2 * (n - 1)
    }
}

/// The names of a list stand in the content with commas between them, in order.
pub proof fn lemma_names(names: Seq<Seq<char>>, pages: Seq<NamedPage>)
    ensures
        names_markup(names, pages) == joined(name_parts(names, pages), ", "@),
        in_order(name_parts(names, pages), names_markup(names, pages)),
        names_markup(names, pages).len() == total_len(name_parts(names, pages)) + commas(
            names.len(),
        ),
{
    let parts = name_parts(names, pages);
    reveal_strlit(", ");
    if pages.len() == 0 {
        lemma_escaped_list(names);
        assert(parts =~= names.map_values(|name: Seq<char>| markup_escaped(name)));
    } else {
        assert(parts =~= names.map_values(|name: Seq<char>| name_markup(name, pages)));
    }
    lemma_joined_in_order(parts, ", "@);
    if parts.len() == 0 {
        assert(total_len(parts) == 0);
    } else {
        assert((parts.len() - 1) * ", "@.len() == commas(names.len()));
    }
}

/// The duration in minutes, and in seconds with two digits.
pub proof fn lemma_duration(ms: u128)
    ensures
        markup_escaped(duration_text(ms as nat)) == decimal((ms / 60_000) as nat) + seq![
            ':',
            digit((ms / 10_000 % 6) as nat),
            digit((ms / 1_000 % 10) as nat),
        ],
{
    let text = decimal((ms / 60_000) as nat) + seq![
        ':',
        digit((ms / 10_000 % 6) as nat),
        digit((ms / 1_000 % 10) as nat),
    ];
    let seconds = ms as nat / 1000;
    reveal_strlit(":");
    assert(seconds / 60 == ms as nat / 60_000);
    assert(seconds % 60 / 10 == ms as nat / 10_000 % 6);
    assert(seconds % 60 % 10 == ms as nat / 1_000 % 10);
    assert(duration_text(ms as nat) =~= text);
    lemma_decimal_digits((ms / 60_000) as nat);
    assert forall|i: int| 0 <= i < text.len() implies '0' <= #[trigger] text[i] <= ':' by {}
    lemma_escaped_plain(text);
}

proof fn lemma_decimal_digits(n: nat)
    ensures
        forall|i: int| 0 <= i < decimal(n).len() ==> '0' <= #[trigger] decimal(n)[i] <= '9',
    decreases n,
{
    if n >= 10 {
        lemma_decimal_digits(n / 10);
        let front = decimal(n / 10);
        assert(decimal(n) == front.push(digit(n % 10)));
        assert forall|i: int| 0 <= i < decimal(n).len() implies '0' <= #[trigger] decimal(n)[i]
            <= '9' by {
            if i < front.len() {
                assert(decimal(n)[i] == front[i]);
            }
        }
    } else {
        assert(decimal(n) == seq![digit(n)]);
    }
}

/// Text without the characters that markup gives a meaning stays as it is.
proof fn lemma_escaped_plain(s: Seq<char>)
    requires
        forall|i: int| 0 <= i < s.len() ==> '0' <= #[trigger] s[i] <= ':',
    ensures
        markup_escaped(s) == s,
    decreases s.len(),
{
    let f = |c: char| crate::escape::markup_char(c);
    if s.len() == 0 {
        assert(markup_escaped(s) =~= s);
    } else {
        let front = s.drop_last();
        assert forall|i: int| 0 <= i < front.len() implies '0' <= #[trigger] front[i] <= ':' by {
            assert(front[i] == s[i]);
        }
        lemma_escaped_plain(front);
        front.lemma_flat_map_push(f, s.last());
        assert(front.push(s.last()) =~= s);
        assert(s[s.len() - 1] == s.last());
        assert(markup_escaped(s) =~= s);
    }
}

proof fn lemma_links(links: Seq<Link>)
    ensures
        in_order(links.map_values(|link: Link| link_part(link)), links_markup(links)),
        links_markup(links).len() == total_len(
            links.map_values(|link: Link| link_part(link)),
        ) + links_glue(links.len()),
{
    let parts = links.map_values(|link: Link| link_part(link));
    let rows = links.map_values(|link: Link| link_row(link));
    reveal_strlit("\n");
    reveal_strlit("<div><br/></div>\n");
    reveal_strlit("<div>");
    reveal_strlit("</div>");
    reveal_strlit("<a href=\"");
    reveal_strlit("</a>");
    reveal_strlit("<div><a href=\"");
    reveal_strlit("</a></div>");
    assert forall|i: int| 0 <= i < links.len() implies #[trigger] rows[i] == parts[i] by {
        assert("<div>"@ + "<a href=\""@ =~= "<div><a href=\""@);
        assert("</a>"@ + "</div>"@ =~= "</a></div>"@);
        assert(link_row(links[i]) =~= link_part(links[i]));
    }
    assert(rows =~= parts);
    lemma_joined_in_order(parts, "\n"@);
    if links.len() > 0 {
        lemma_in_order_before(parts, "<div><br/></div>\n"@, joined(parts, "\n"@));
        assert((parts.len() - 1) * "\n"@.len() == links.len() - 1);
    }
}

/// How many characters stand around the links.
spec fn links_glue(n: nat) -> int {
    if n == 0 {
        0
    } else {
        17 + (n - 1)
    }
}

/// The literals of the content, taken apart.
proof fn lemma_literals()
    ensures
        ({
            let prolog =
                "<?xml version=\"1.0\" encoding=\"UTF-8\"?>\n<!DOCTYPE en-note SYSTEM \"http://xml.evernote.com/pub/enml2.dtd\">\n<en-note>\n<div><b>Track:</b> "@;
            &&& prolog.len() == 134
            &&& prolog == prolog.take(115) + "<div><b>Track:</b> "@
        }),
        "</div>\n<div><b>Album:</b> "@ == "</div>"@ + "\n"@ + "<div><b>Album:</b> "@,
        "</div>\n<div><b>Artist:</b> "@ == "</div>\n"@ + "<div><b>Artist:</b> "@,
        "\n<div><b>Liked at:</b> "@ == "\n"@ + "<div><b>Liked at:</b> "@,
        "</div>\n"@ == "</div>"@ + "\n"@,
        "\n"@.len() == 1,
        "</div>\n"@.len() == 7,
{
    let prolog =
        "<?xml version=\"1.0\" encoding=\"UTF-8\"?>\n<!DOCTYPE en-note SYSTEM \"http://xml.evernote.com/pub/enml2.dtd\">\n<en-note>\n<div><b>Track:</b> "@;
    reveal_strlit(
        "<?xml version=\"1.0\" encoding=\"UTF-8\"?>\n<!DOCTYPE en-note SYSTEM \"http://xml.evernote.com/pub/enml2.dtd\">\n<en-note>\n<div><b>Track:</b> ",
    );
    reveal_strlit("<div><b>Track:</b> ");
    reveal_strlit("</div>\n<div><b>Album:</b> ");
    reveal_strlit("<div><b>Album:</b> ");
    reveal_strlit("</div>\n<div><b>Artist:</b> ");
    reveal_strlit("<div><b>Artist:</b> ");
    reveal_strlit("</div>\n");
    reveal_strlit("</div>");
    reveal_strlit("\n");
    reveal_strlit("\n<div><b>Liked at:</b> ");
    reveal_strlit("<div><b>Liked at:</b> ");
    assert(prolog =~= prolog.take(115) + "<div><b>Track:</b> "@);
    assert("</div>\n<div><b>Album:</b> "@ =~= "</div>"@ + "\n"@ + "<div><b>Album:</b> "@);
    assert("</div>\n<div><b>Artist:</b> "@ =~= "</div>\n"@ + "<div><b>Artist:</b> "@);
    assert("\n<div><b>Liked at:</b> "@ =~= "\n"@ + "<div><b>Liked at:</b> "@);
    assert("</div>\n"@ =~= "</div>"@ + "\n"@);
}

/// What stands for the duration.
spec fn duration_parts(duration_ms: Option<u128>) -> Seq<Seq<char>> {
    match duration_ms {
        Some(ms) => seq![
            "<div><b>Duration:</b> "@ + decimal((ms / 60_000) as nat) + seq![
                ':',
                digit((ms / 10_000 % 6) as nat),
                digit((ms / 1_000 % 10) as nat),
            ] + "</div>"@,
        ],
        None => Seq::empty(),
    }
}

proof fn lemma_duration_parts(duration_ms: Option<u128>, before: Seq<char>)
    ensures
        in_order(duration_parts(duration_ms), before + duration_markup(duration_ms)),
        total_len(duration_parts(duration_ms)) == duration_markup(duration_ms).len(),
{
    let duration = duration_markup(duration_ms);
    let none = Seq::<char>::empty();
    if let Some(ms) = duration_ms {
        lemma_duration(ms);
        assert(duration =~= duration_parts(duration_ms)[0]);
        lemma_in_order_one(before, duration, none);
        assert(before + duration + none =~= before + duration);
        assert(duration_parts(duration_ms) =~= seq![duration]);
    }
}

proof fn lemma_track_parts(track: Track, liked_at: Seq<char>)
    ensures
        in_order(track_parts(track, liked_at), content_head(track, liked_at)),
        content_head(track, liked_at).len() == total_len(track_parts(track, liked_at)) + 132
            + commas(track.albums.len()) + commas(track.artists.len()),
{
    lemma_literals();
    let prolog =
        "<?xml version=\"1.0\" encoding=\"UTF-8\"?>\n<!DOCTYPE en-note SYSTEM \"http://xml.evernote.com/pub/enml2.dtd\">\n<en-note>\n<div><b>Track:</b> "@;
    let none = Seq::<char>::empty();
    let start = prolog.take(115);
    let title = "<div><b>Track:</b> "@ + markup_escaped(track.title) + "</div>"@;
    let albums = names_markup(track.albums, track.album_links);
    let artists = names_markup(track.artists, track.artist_links);
    let duration = duration_markup(track.duration_ms);
    let liked = "<div><b>Liked at:</b> "@ + markup_escaped(liked_at) + "</div>"@;
    let album_line = "<div><b>Album:</b> "@;
    let artist_line = "<div><b>Artist:</b> "@;
    let album_parts = name_parts(track.albums, track.album_links);
    let artist_parts = name_parts(track.artists, track.artist_links);
    let lasting = duration_parts(track.duration_ms);
    lemma_names(track.albums, track.album_links);
    lemma_names(track.artists, track.artist_links);
    lemma_duration_parts(track.duration_ms, "</div>\n"@);
    lemma_in_order_one(start, title, "\n"@);
    lemma_in_order_one(none, album_line, none);
    lemma_in_order_one("</div>\n"@, artist_line, none);
    lemma_in_order_one("\n"@, liked, "\n"@);
    let t0 = start + title + "\n"@;
    let t1 = none + album_line + none;
    let t3 = "</div>\n"@ + artist_line + none;
    let t5 = "</div>\n"@ + duration;
    let t6 = "\n"@ + liked + "\n"@;
    let p0 = seq![title];
    lemma_in_order_add(p0, t0, seq![album_line], t1);
    lemma_in_order_add(p0 + seq![album_line], t0 + t1, album_parts, albums);
    let p2 = p0 + seq![album_line] + album_parts;
    lemma_in_order_add(p2, t0 + t1 + albums, seq![artist_line], t3);
    let p3 = p2 + seq![artist_line];
    lemma_in_order_add(p3, t0 + t1 + albums + t3, artist_parts, artists);
    let p4 = p3 + artist_parts;
    lemma_in_order_add(p4, t0 + t1 + albums + t3 + artists, lasting, t5);
    let p5 = p4 + lasting;
    lemma_in_order_add(p5, t0 + t1 + albums + t3 + artists + t5, seq![liked], t6);
    let whole = t0 + t1 + albums + t3 + artists + t5 + t6;
    assert(p0 + seq![album_line] =~= seq![title, album_line]);
    assert(p5 + seq![liked] == track_parts(track, liked_at));
    lemma_head(
        start,
        markup_escaped(track.title),
        albums,
        artists,
        duration,
        markup_escaped(liked_at),
    );
    assert(whole == content_head(track, liked_at));
}

/// The same text with its pieces put together in two ways.
proof fn lemma_head(
    start: Seq<char>,
    title: Seq<char>,
    albums: Seq<char>,
    artists: Seq<char>,
    duration: Seq<char>,
    liked: Seq<char>,
)
    ensures
        start + ("<div><b>Track:</b> "@ + title + "</div>"@) + "\n"@ + (Seq::<char>::empty()
            + "<div><b>Album:</b> "@ + Seq::<char>::empty()) + albums + ("</div>\n"@
            + "<div><b>Artist:</b> "@ + Seq::<char>::empty()) + artists + ("</div>\n"@ + duration)
            + ("\n"@ + ("<div><b>Liked at:</b> "@ + liked + "</div>"@) + "\n"@) == (start
            + "<div><b>Track:</b> "@) + title + ("</div>"@ + "\n"@ + "<div><b>Album:</b> "@)
            + albums + ("</div>\n"@ + "<div><b>Artist:</b> "@) + artists + "</div>\n"@ + duration
            + ("\n"@ + "<div><b>Liked at:</b> "@) + liked + ("</div>"@ + "\n"@),
{
    assert(start + ("<div><b>Track:</b> "@ + title + "</div>"@) + "\n"@ + (Seq::<char>::empty()
        + "<div><b>Album:</b> "@ + Seq::<char>::empty()) + albums + ("</div>\n"@
        + "<div><b>Artist:</b> "@ + Seq::<char>::empty()) + artists + ("</div>\n"@ + duration) + (
    "\n"@ + ("<div><b>Liked at:</b> "@ + liked + "</div>"@) + "\n"@) =~= (start
        + "<div><b>Track:</b> "@) + title + ("</div>"@ + "\n"@ + "<div><b>Album:</b> "@) + albums
            + (
    "</div>\n"@ + "<div><b>Artist:</b> "@) + artists + "</div>\n"@ + duration + ("\n"@
        + "<div><b>Liked at:</b> "@) + liked + ("</div>"@ + "\n"@));
}

proof fn lemma_further_parts(
    links: Seq<Link>,
    cover: Option<CoverAttachment>,
    audio: Option<AudioAttachment>,
    duration_ms: Option<u128>,
)
    ensures
        ({
            let shown_cover = match cover {
                Some(cover) => media_tag(cover.mime@, cover.md5@),
                None => Seq::empty(),
            };
            let shown_audio = match audio {
                Some(audio) => audio_markup(audio, duration_ms),
                None => Seq::empty(),
            };
            let tail = shown_cover + "\n"@ + shown_audio + "\n"@ + links_markup(links)
                + "\n</en-note>"@;
            &&& in_order(further_parts(links, cover, audio, duration_ms), tail)
            &&& tail.len() == total_len(further_parts(links, cover, audio, duration_ms)) + 13
                + links_glue(links.len()) + (if audio is Some {
                1int
            } else {
                0
            })
        }),
{
    let none = Seq::<char>::empty();
    reveal_strlit("\n");
    reveal_strlit("\n</en-note>");
    let shown_cover = match cover {
        Some(cover) => media_tag(cover.mime@, cover.md5@),
        None => none,
    };
    let cover_parts = match cover {
        Some(cover) => seq![media_part(cover.mime@, cover.md5@)],
        None => Seq::empty(),
    };
    let shown_audio = match audio {
        Some(audio) => audio_markup(audio, duration_ms),
        None => none,
    };
    let audio_parts = match audio {
        Some(audio) => seq![
            audio_line(audio, duration_ms),
            media_part(audio.mime@, audio.md5@),
        ],
        None => Seq::empty(),
    };
    let link_parts = links.map_values(|link: Link| link_part(link));
    if cover is Some {
        assert(cover_parts =~= seq![shown_cover]);
        lemma_in_order_one(none, shown_cover, "\n"@);
        assert(none + shown_cover + "\n"@ =~= shown_cover + "\n"@);
    }
    if let Some(audio) = audio {
        lemma_audio_parts(audio, duration_ms);
    }
    lemma_in_order_add(audio_parts, shown_audio, Seq::empty(), "\n"@);
    assert(audio_parts + Seq::<Seq<char>>::empty() =~= audio_parts);
    lemma_links(links);
    lemma_in_order_add(link_parts, links_markup(links), Seq::empty(), "\n</en-note>"@);
    assert(link_parts + Seq::<Seq<char>>::empty() =~= link_parts);
    lemma_in_order_add(cover_parts, shown_cover + "\n"@, audio_parts, shown_audio + "\n"@);
    lemma_in_order_add(
        cover_parts + audio_parts,
        shown_cover + "\n"@ + (shown_audio + "\n"@),
        link_parts,
        links_markup(links) + "\n</en-note>"@,
    );
    assert(cover_parts + audio_parts + link_parts == further_parts(
        links,
        cover,
        audio,
        duration_ms,
    ));
    assert(shown_cover + "\n"@ + (shown_audio + "\n"@) + (links_markup(links) + "\n</en-note>"@)
        =~= shown_cover + "\n"@ + shown_audio + "\n"@ + links_markup(links) + "\n</en-note>"@);
}

/// The line that tells of the audio.
spec fn audio_line(audio: AudioAttachment, duration_ms: Option<u128>) -> Seq<char> {
    "<div><b>Audio:</b> "@ + markup_escaped(audio.quality@) + (match shown_bitrate(
        audio.bitrate_kbps,
        audio.body@.len(),
        duration_ms,
    ) {
        Some((kbps, estimated)) => (if estimated {
            ", ~"@
        } else {
            ", "@
        }) + decimal(kbps as nat) + " kbps</div>"@,
        None => "</div>"@,
    })
}

proof fn lemma_audio_parts(audio: AudioAttachment, duration_ms: Option<u128>)
    ensures
        ({
            let parts = seq![
                audio_line(audio, duration_ms),
                media_part(audio.mime@, audio.md5@),
            ];
            &&& in_order(parts, audio_markup(audio, duration_ms))
            &&& audio_markup(audio, duration_ms).len() == total_len(parts) + 1
        }),
{
    let none = Seq::<char>::empty();
    let line = audio_line(audio, duration_ms);
    let tag = media_part(audio.mime@, audio.md5@);
    reveal_strlit(", ~");
    reveal_strlit(", ");
    reveal_strlit("~");
    reveal_strlit("");
    reveal_strlit(" kbps");
    reveal_strlit(" kbps</div>");
    reveal_strlit("</div>");
    reveal_strlit("</div>\n");
    reveal_strlit("\n");
    assert(", "@ + "~"@ =~= ", ~"@);
    assert(", "@ + ""@ =~= ", "@);
    assert(" kbps"@ + "</div>"@ =~= " kbps</div>"@);
    assert("</div>"@ + "\n"@ =~= "</div>\n"@);
    let details = audio_details(
        audio.quality@,
        shown_bitrate(audio.bitrate_kbps, audio.body@.len(), duration_ms),
    );
    assert("<div><b>Audio:</b> "@ + details + "</div>"@ =~= line);
    assert(audio_markup(audio, duration_ms) =~= line + "\n"@ + tag);
    lemma_in_order_one(none, line, "\n"@);
    lemma_in_order_one(none, tag, none);
    lemma_in_order_add(seq![line], none + line + "\n"@, seq![tag], none + tag + none);
    assert(seq![line] + seq![tag] =~= seq![line, tag]);
    assert(none + line + "\n"@ + (none + tag + none) =~= line + "\n"@ + tag);
}

/// Whatever the track, its links, cover and audio, the content of its note holds in
/// this order: the title; the albums and the artists, all of them, in order, each
/// linked to its page if it has one; the duration if it is known; when the track was
/// liked; the cover if there is one; the quality and the bitrate of the audio and the
/// audio itself, if there is any; a row for each link, in order. Each text that comes
/// from elsewhere is escaped. Besides these parts it holds nothing but what a note
/// always has around them: the number of those characters depends on nothing but how
/// many names and links there are and whether there is audio.
pub proof fn lemma_content(
    track: Track,
    liked_at: Seq<char>,
    links: Seq<Link>,
    cover: Option<CoverAttachment>,
    audio: Option<AudioAttachment>,
)
    ensures
        ({
            let content = content_text(track, liked_at, links, cover, audio);
            let parts = track_parts(track, liked_at) + further_parts(
                links,
                cover,
                audio,
                track.duration_ms,
            );
            &&& in_order(parts, content)
            &&& content.len() == total_len(parts) + 145 + between(track.albums.len(), 2) + between(
                track.artists.len(),
                2,
            ) + between(links.len(), 1) + (if links.len() > 0 {
                17int
            } else {
                0
            }) + (if audio is Some {
                1int
            } else {
                0
            })
        }),
{
    lemma_track_parts(track, liked_at);
    lemma_further_parts(links, cover, audio, track.duration_ms);
    let shown_cover = match cover {
        Some(cover) => media_tag(cover.mime@, cover.md5@),
        None => Seq::empty(),
    };
    let shown_audio = match audio {
        Some(audio) => audio_markup(audio, track.duration_ms),
        None => Seq::empty(),
    };
    let head = content_head(track, liked_at);
    let tail = shown_cover + "\n"@ + shown_audio + "\n"@ + links_markup(links) + "\n</en-note>"@;
    lemma_in_order_add(
        track_parts(track, liked_at),
        head,
        further_parts(links, cover, audio, track.duration_ms),
        tail,
    );
    lemma_tail(head, shown_cover, shown_audio, links_markup(links));
}

proof fn lemma_tail(head: Seq<char>, cover: Seq<char>, audio: Seq<char>, links: Seq<char>)
    ensures
        head + (cover + "\n"@ + audio + "\n"@ + links + "\n</en-note>"@) == head + cover + "\n"@
            + audio + "\n"@ + links + "\n</en-note>"@,
{
    assert(head + (cover + "\n"@ + audio + "\n"@ + links + "\n</en-note>"@) =~= head + cover
        + "\n"@ + audio + "\n"@ + links + "\n</en-note>"@);
}

/// How many characters stand between so many things, with so many between each two.
pub open spec fn between(n: nat, each: nat) -> int {
    if n == 0 {
        0
    } else {
        each * (n - 1)
    }
}

/// Every link has its row in the content: an anchor with its address and its label,
/// escaped, whatever else the note has.
pub proof fn lemma_links_shown(
    track: Track,
    liked_at: Seq<char>,
    links: Seq<Link>,
    cover: Option<CoverAttachment>,
    audio: Option<AudioAttachment>,
    i: int,
)
    requires
        0 <= i < links.len(),
    ensures
        stands_in(
            "<div><a href=\""@ + markup_escaped(links[i].url) + "\">"@ + markup_escaped(
                links[i].label,
            ) + "</a></div>"@,
            content_text(track, liked_at, links, cover, audio),
        ),
{
    let front = track_parts(track, liked_at);
    let back = further_parts(links, cover, audio, track.duration_ms);
    let rows = links.map_values(|link: Link| link_part(link));
    lemma_content(track, liked_at, links, cover, audio);
    let parts = front + back;
    let k = parts.len() - links.len() + i;
    assert(parts[k] == rows[i]);
    lemma_part_stands(parts, content_text(track, liked_at, links, cover, audio), k);
}

proof fn lemma_part_stands(parts: Seq<Seq<char>>, text: Seq<char>, k: int)
    requires
        in_order(parts, text),
        0 <= k < parts.len(),
    ensures
        stands_in(parts[k], text),
    decreases parts.len(),
{
    let i = choose|i: int|
        {
            &&& 0 <= i <= text.len() - parts[0].len()
            &&& #[trigger] text.subrange(i, i + parts[0].len()) == parts[0]
            &&& in_order(parts.drop_first(), text.skip(i + parts[0].len()))
        };
    if k > 0 {
        let end = i + parts[0].len();
        let rest = text.skip(end);
        lemma_part_stands(parts.drop_first(), rest, k - 1);
        let part = parts[k];
        assert(parts.drop_first()[k - 1] == part);
        let j = choose|j: int|
            0 <= j <= rest.len() - part.len() && #[trigger] rest.subrange(j, j + part.len())
                == part;
        assert(text.subrange(end + j, end + j + part.len()) =~= rest.subrange(j, j + part.len()));
    }
}

} // verus!
