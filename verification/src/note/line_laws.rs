//! The content of a note, line by line.
use vstd::prelude::*;

use crate::audio::{shown_bitrate, AudioAttachment, CoverAttachment};
use crate::enrichment::links::Link;
use crate::escape::markup_escaped;
use crate::note::laws::{lemma_duration, lemma_names, link_part, media_part, name_parts};
use crate::note::{
    audio_details, audio_markup, content_head, content_text, duration_markup, link_row,
    links_markup, media_tag, names_markup,
};
use crate::text::{decimal, digit, joined};
use crate::yandex::Track;

verus! {

/// The lines of the content of a note: the three with which every note starts; one each for
/// the title, the albums, the artists, the duration and the time at which the track was
/// liked; then the cover, the audio and the links; and the one with which every note ends.
/// Names stand with commas between them. What is not there leaves an empty line.
pub proof fn lemma_content_lines(
    track: Track,
    liked_at: Seq<char>,
    links: Seq<Link>,
    cover: Option<CoverAttachment>,
    audio: Option<AudioAttachment>,
)
    ensures
        content_text(track, liked_at, links, cover, audio) == joined(
            seq![
                "<?xml version=\"1.0\" encoding=\"UTF-8\"?>"@,
                "<!DOCTYPE en-note SYSTEM \"http://xml.evernote.com/pub/enml2.dtd\">"@,
                "<en-note>"@,
                "<div><b>Track:</b> "@ + markup_escaped(track.title) + "</div>"@,
                "<div><b>Album:</b> "@ + joined(name_parts(track.albums, track.album_links), ", "@)
                    + "</div>"@,
                "<div><b>Artist:</b> "@ + joined(
                    name_parts(track.artists, track.artist_links),
                    ", "@,
                ) + "</div>"@,
                match track.duration_ms {
                    Some(ms) => "<div><b>Duration:</b> "@ + decimal((ms / 60_000) as nat) + seq![
                        ':',
                        digit((ms / 10_000 % 6) as nat),
                        digit((ms / 1_000 % 10) as nat),
                    ] + "</div>"@,
                    None => ""@,
                },
                "<div><b>Liked at:</b> "@ + markup_escaped(liked_at) + "</div>"@,
                match cover {
                    Some(cover) => media_part(cover.mime@, cover.md5@),
                    None => ""@,
                },
            ] + (match audio {
                Some(audio) => seq![
                    "<div><b>Audio:</b> "@ + markup_escaped(audio.quality@) + (match shown_bitrate(
                        audio.bitrate_kbps,
                        audio.body@.len(),
                        track.duration_ms,
                    ) {
                        Some((kbps, false)) => ", "@ + decimal(kbps as nat) + " kbps"@,
                        Some((kbps, true)) => ", ~"@ + decimal(kbps as nat) + " kbps"@,
                        None => ""@,
                    }) + "</div>"@,
                    media_part(audio.mime@, audio.md5@),
                ],
                None => seq![""@],
            }) + (if links.len() > 0 {
                seq!["<div><br/></div>"@] + links.map_values(|link: Link| link_part(link))
            } else {
                seq![""@]
            }) + seq!["</en-note>"@],
            "\n"@,
        ),
{
    lemma_lines(track, liked_at, links, cover, audio);
}

spec fn head_lines(
    track: Track,
    liked_at: Seq<char>,
    cover: Option<CoverAttachment>,
) -> Seq<Seq<char>> {
    seq![
        "<?xml version=\"1.0\" encoding=\"UTF-8\"?>"@,
        "<!DOCTYPE en-note SYSTEM \"http://xml.evernote.com/pub/enml2.dtd\">"@,
        "<en-note>"@,
        "<div><b>Track:</b> "@ + markup_escaped(track.title) + "</div>"@,
        "<div><b>Album:</b> "@ + joined(name_parts(track.albums, track.album_links), ", "@)
            + "</div>"@,
        "<div><b>Artist:</b> "@ + joined(name_parts(track.artists, track.artist_links), ", "@)
            + "</div>"@,
        match track.duration_ms {
            Some(ms) => "<div><b>Duration:</b> "@ + decimal((ms / 60_000) as nat) + seq![
                ':',
                digit((ms / 10_000 % 6) as nat),
                digit((ms / 1_000 % 10) as nat),
            ] + "</div>"@,
            None => ""@,
        },
        "<div><b>Liked at:</b> "@ + markup_escaped(liked_at) + "</div>"@,
        match cover {
            Some(cover) => media_part(cover.mime@, cover.md5@),
            None => ""@,
        },
    ]
}

spec fn sound_lines(audio: Option<AudioAttachment>, duration_ms: Option<u128>) -> Seq<Seq<char>> {
    match audio {
        Some(audio) => seq![
            "<div><b>Audio:</b> "@ + markup_escaped(audio.quality@) + (match shown_bitrate(
                audio.bitrate_kbps,
                audio.body@.len(),
                duration_ms,
            ) {
                Some((kbps, false)) => ", "@ + decimal(kbps as nat) + " kbps"@,
                Some((kbps, true)) => ", ~"@ + decimal(kbps as nat) + " kbps"@,
                None => ""@,
            }) + "</div>"@,
            media_part(audio.mime@, audio.md5@),
        ],
        None => seq![""@],
    }
}

spec fn link_lines(links: Seq<Link>) -> Seq<Seq<char>> {
    if links.len() > 0 {
        seq!["<div><br/></div>"@] + links.map_values(|link: Link| link_part(link))
    } else {
        seq![""@]
    }
}

proof fn lemma_lines(
    track: Track,
    liked_at: Seq<char>,
    links: Seq<Link>,
    cover: Option<CoverAttachment>,
    audio: Option<AudioAttachment>,
)
    ensures
        content_text(track, liked_at, links, cover, audio) == joined(
            head_lines(track, liked_at, cover) + sound_lines(audio, track.duration_ms)
                + link_lines(links) + seq!["</en-note>"@],
            "\n"@,
        ),
{
    lemma_head_lines(track, liked_at, cover);
    lemma_sound_lines(audio, track.duration_ms);
    lemma_link_lines(links);
    let nl = "\n"@;
    let head = head_lines(track, liked_at, cover);
    let sound = sound_lines(audio, track.duration_ms);
    let rows = link_lines(links);
    let last = seq!["</en-note>"@];
    lemma_joined_add(head + sound + rows, last, nl);
    lemma_joined_add(head + sound, rows, nl);
    lemma_joined_add(head, sound, nl);
    assert(joined(last, nl) == "</en-note>"@);
    lemma_end(joined(head, nl) + nl + joined(sound, nl) + nl + joined(rows, nl));
}

proof fn lemma_end(text: Seq<char>)
    ensures
        text + "\n</en-note>"@ == text + "\n"@ + "</en-note>"@,
{
    reveal_strlit("\n");
    reveal_strlit("</en-note>");
    reveal_strlit("\n</en-note>");
    assert("\n</en-note>"@ =~= "\n"@ + "</en-note>"@);
    assert(text + "\n</en-note>"@ =~= text + "\n"@ + "</en-note>"@);
}

/// One more text stands behind a separator.
proof fn lemma_joined_push(parts: Seq<Seq<char>>, part: Seq<char>, sep: Seq<char>)
    requires
        parts.len() > 0,
    ensures
        joined(parts.push(part), sep) == joined(parts, sep) + sep + part,
{
    assert(parts.push(part).drop_last() =~= parts);
}

proof fn lemma_joined_take(parts: Seq<Seq<char>>, i: int, sep: Seq<char>)
    requires
        0 < i < parts.len(),
    ensures
        joined(parts.take(i + 1), sep) == joined(parts.take(i), sep) + sep + parts[i],
{
    assert(parts.take(i + 1) =~= parts.take(i).push(parts[i]));
    lemma_joined_push(parts.take(i), parts[i], sep);
}

/// Two lists of texts stand with a separator between them.
proof fn lemma_joined_add(front: Seq<Seq<char>>, back: Seq<Seq<char>>, sep: Seq<char>)
    requires
        front.len() > 0,
        back.len() > 0,
    ensures
        joined(front + back, sep) == joined(front, sep) + sep + joined(back, sep),
    decreases back.len(),
{
    let init = back.drop_last();
    if init.len() == 0 {
        assert(front + back =~= front.push(back[0]));
        lemma_joined_push(front, back[0], sep);
    } else {
        lemma_joined_add(front, init, sep);
        assert(front + back =~= (front + init).push(back.last()));
        lemma_joined_push(front + init, back.last(), sep);
        assert(init.push(back.last()) =~= back);
        lemma_joined_push(init, back.last(), sep);
        assert(joined(front + back, sep) =~= joined(front, sep) + sep + joined(back, sep));
    }
}

proof fn lemma_start()
    ensures
        "<?xml version=\"1.0\" encoding=\"UTF-8\"?>\n<!DOCTYPE en-note SYSTEM \"http://xml.evernote.com/pub/enml2.dtd\">\n<en-note>\n<div><b>Track:</b> "@
            == "<?xml version=\"1.0\" encoding=\"UTF-8\"?>"@ + "\n"@
            + "<!DOCTYPE en-note SYSTEM \"http://xml.evernote.com/pub/enml2.dtd\">"@ + "\n"@
            + "<en-note>"@ + "\n"@ + "<div><b>Track:</b> "@,
        "</div>\n<div><b>Album:</b> "@ == "</div>"@ + "\n"@ + "<div><b>Album:</b> "@,
        "</div>\n<div><b>Artist:</b> "@ == "</div>"@ + "\n"@ + "<div><b>Artist:</b> "@,
        "</div>\n"@ == "</div>"@ + "\n"@,
        "\n<div><b>Liked at:</b> "@ == "\n"@ + "<div><b>Liked at:</b> "@,
{
    reveal_strlit("\n");
    reveal_strlit("</div>");
    reveal_strlit("</div>\n");
    reveal_strlit("<en-note>");
    reveal_strlit("<div><b>Track:</b> ");
    reveal_strlit("<div><b>Album:</b> ");
    reveal_strlit("<div><b>Artist:</b> ");
    reveal_strlit("<div><b>Liked at:</b> ");
    reveal_strlit("</div>\n<div><b>Album:</b> ");
    reveal_strlit("</div>\n<div><b>Artist:</b> ");
    reveal_strlit("\n<div><b>Liked at:</b> ");
    reveal_strlit("<?xml version=\"1.0\" encoding=\"UTF-8\"?>");
    reveal_strlit("<!DOCTYPE en-note SYSTEM \"http://xml.evernote.com/pub/enml2.dtd\">");
    reveal_strlit(
        "<?xml version=\"1.0\" encoding=\"UTF-8\"?>\n<!DOCTYPE en-note SYSTEM \"http://xml.evernote.com/pub/enml2.dtd\">\n<en-note>\n<div><b>Track:</b> ",
    );
}

proof fn lemma_head_lines(track: Track, liked_at: Seq<char>, cover: Option<CoverAttachment>)
    ensures
        joined(head_lines(track, liked_at, cover), "\n"@) == content_head(track, liked_at) + (
        match cover {
            Some(cover) => media_tag(cover.mime@, cover.md5@),
            None => Seq::empty(),
        }),
        head_lines(track, liked_at, cover).len() == 9,
{
    let nl = "\n"@;
    let lines = head_lines(track, liked_at, cover);
    let shown = lines[8];
    assert(""@ =~= Seq::<char>::empty()) by {
        reveal_strlit("");
    }
    lemma_start();
    lemma_names(track.albums, track.album_links);
    lemma_names(track.artists, track.artist_links);
    let albums = names_markup(track.albums, track.album_links);
    let artists = names_markup(track.artists, track.artist_links);
    let duration = duration_markup(track.duration_ms);
    if let Some(ms) = track.duration_ms {
        lemma_duration(ms);
        assert(duration =~= lines[6]);
    } else {
        reveal_strlit("");
        assert(duration =~= lines[6]);
    }
    assert(lines.take(1) =~= seq![lines[0]]);
    assert(joined(lines.take(1), nl) == lines[0]);
    lemma_joined_take(lines, 1, nl);
    lemma_joined_take(lines, 2, nl);
    lemma_joined_take(lines, 3, nl);
    lemma_joined_take(lines, 4, nl);
    lemma_joined_take(lines, 5, nl);
    lemma_joined_take(lines, 6, nl);
    lemma_joined_take(lines, 7, nl);
    lemma_joined_take(lines, 8, nl);
    assert(joined(lines.take(2), nl) == lines[0] + nl + lines[1]);
    assert(joined(lines.take(3), nl) == lines[0] + nl + lines[1] + nl + lines[2]);
    let three = joined(lines.take(3), nl);
    assert(joined(lines.take(4), nl) == three + nl + lines[3]);
    assert(joined(lines.take(5), nl) == three + nl + lines[3] + nl + lines[4]);
    assert(joined(lines.take(6), nl) == three + nl + lines[3] + nl + lines[4] + nl
        + lines[5]);
    assert(joined(lines.take(7), nl) == three + nl + lines[3] + nl + lines[4] + nl + lines[5]
        + nl + lines[6]);
    assert(joined(lines.take(8), nl) == three + nl + lines[3] + nl + lines[4] + nl + lines[5]
        + nl + lines[6] + nl + lines[7]);
    assert(joined(lines.take(9), nl) == three + nl + lines[3] + nl + lines[4] + nl + lines[5]
        + nl + lines[6] + nl + lines[7] + nl + shown);
    assert(lines.take(9) =~= lines);
    lemma_head_joined(
        three,
        markup_escaped(track.title),
        albums,
        artists,
        duration,
        markup_escaped(liked_at),
    );
    let title = markup_escaped(track.title);
    let time = markup_escaped(liked_at);
    assert(lines[3] == "<div><b>Track:</b> "@ + title + "</div>"@);
    assert(lines[4] == "<div><b>Album:</b> "@ + albums + "</div>"@);
    assert(lines[5] == "<div><b>Artist:</b> "@ + artists + "</div>"@);
    assert(lines[7] == "<div><b>Liked at:</b> "@ + time + "</div>"@);
    assert(content_head(track, liked_at)
        == "<?xml version=\"1.0\" encoding=\"UTF-8\"?>\n<!DOCTYPE en-note SYSTEM \"http://xml.evernote.com/pub/enml2.dtd\">\n<en-note>\n<div><b>Track:</b> "@
        + title + "</div>\n<div><b>Album:</b> "@ + albums + "</div>\n<div><b>Artist:</b> "@
        + artists + "</div>\n"@ + duration + "\n<div><b>Liked at:</b> "@ + time + "</div>\n"@);
}

proof fn lemma_head_joined(
    three: Seq<char>,
    title: Seq<char>,
    albums: Seq<char>,
    artists: Seq<char>,
    duration: Seq<char>,
    time: Seq<char>,
)
    requires
        three == "<?xml version=\"1.0\" encoding=\"UTF-8\"?>"@ + "\n"@
            + "<!DOCTYPE en-note SYSTEM \"http://xml.evernote.com/pub/enml2.dtd\">"@ + "\n"@
            + "<en-note>"@,
    ensures
        "<?xml version=\"1.0\" encoding=\"UTF-8\"?>\n<!DOCTYPE en-note SYSTEM \"http://xml.evernote.com/pub/enml2.dtd\">\n<en-note>\n<div><b>Track:</b> "@
            + title + "</div>\n<div><b>Album:</b> "@ + albums + "</div>\n<div><b>Artist:</b> "@
            + artists + "</div>\n"@ + duration + "\n<div><b>Liked at:</b> "@ + time + "</div>\n"@
            == three + "\n"@ + ("<div><b>Track:</b> "@ + title + "</div>"@) + "\n"@ + (
        "<div><b>Album:</b> "@ + albums + "</div>"@) + "\n"@ + ("<div><b>Artist:</b> "@ + artists
            + "</div>"@) + "\n"@ + duration + "\n"@ + ("<div><b>Liked at:</b> "@ + time
            + "</div>"@) + "\n"@,
{
    lemma_start();
    let nl = "\n"@;
    let a = "<div><b>Track:</b> "@;
    let b = "<div><b>Album:</b> "@;
    let c = "<div><b>Artist:</b> "@;
    let d = "<div><b>Liked at:</b> "@;
    let e = "</div>"@;
    assert(three + nl + a + title + (e + nl + b) + albums + (e + nl + c) + artists + (e + nl)
        + duration + (nl + d) + time + (e + nl) =~= three + nl + (a + title + e) + nl + (b + albums
        + e) + nl + (c + artists + e) + nl + duration + nl + (d + time + e) + nl);
}

proof fn lemma_sound_lines(audio: Option<AudioAttachment>, duration_ms: Option<u128>)
    ensures
        joined(sound_lines(audio, duration_ms), "\n"@) == match audio {
            Some(audio) => audio_markup(audio, duration_ms),
            None => Seq::empty(),
        },
        sound_lines(audio, duration_ms).len() > 0,
{
    assert(""@ =~= Seq::<char>::empty()) by {
        reveal_strlit("");
    }
    reveal_strlit("~");
    reveal_strlit(", ");
    reveal_strlit(", ~");
    reveal_strlit("\n");
    reveal_strlit("</div>");
    reveal_strlit("</div>\n");
    if let Some(audio) = audio {
        let bitrate = shown_bitrate(audio.bitrate_kbps, audio.body@.len(), duration_ms);
        let shown = match bitrate {
            Some((kbps, false)) => ", "@ + decimal(kbps as nat) + " kbps"@,
            Some((kbps, true)) => ", ~"@ + decimal(kbps as nat) + " kbps"@,
            None => ""@,
        };
        let first = "<div><b>Audio:</b> "@ + markup_escaped(audio.quality@) + shown + "</div>"@;
        let second = media_part(audio.mime@, audio.md5@);
        assert(sound_lines(Some(audio), duration_ms) =~= seq![first, second]);
        assert(seq![first, second] =~= seq![first].push(second));
        lemma_joined_push(seq![first], second, "\n"@);
        assert(audio_details(audio.quality@, bitrate) =~= markup_escaped(audio.quality@) + shown);
        assert("</div>\n"@ =~= "</div>"@ + "\n"@);
        assert(joined(seq![first], "\n"@) == first);
        assert(joined(seq![first, second], "\n"@) == first + "\n"@ + second);
        assert(second == media_tag(audio.mime@, audio.md5@));
        assert(first + "\n"@ + second =~= audio_markup(audio, duration_ms));
    } else {
        assert(sound_lines(audio, duration_ms) =~= seq![""@]);
        assert(joined(seq![""@], "\n"@) == ""@);
    }
}

proof fn lemma_link_lines(links: Seq<Link>)
    ensures
        joined(link_lines(links), "\n"@) == links_markup(links),
        link_lines(links).len() > 0,
{
    assert(""@ =~= Seq::<char>::empty()) by {
        reveal_strlit("");
    }
    reveal_strlit("\n");
    reveal_strlit("<div>");
    reveal_strlit("</div>");
    reveal_strlit("<a href=\"");
    reveal_strlit("</a>");
    reveal_strlit("<div><a href=\"");
    reveal_strlit("</a></div>");
    reveal_strlit("<div><br/></div>");
    reveal_strlit("<div><br/></div>\n");
    if links.len() > 0 {
        let parts = links.map_values(|link: Link| link_part(link));
        let rows = links.map_values(|link: Link| link_row(link));
        assert forall|i: int| 0 <= i < links.len() implies #[trigger] rows[i] == parts[i] by {
            assert("<div>"@ + "<a href=\""@ =~= "<div><a href=\""@);
            assert("</a>"@ + "</div>"@ =~= "</a></div>"@);
            assert(rows[i] =~= parts[i]);
        }
        assert(rows =~= parts);
        lemma_joined_add(seq!["<div><br/></div>"@], parts, "\n"@);
        assert("<div><br/></div>\n"@ =~= "<div><br/></div>"@ + "\n"@);
    }
}

} // verus!
