//! What becomes of audio, of covers, and of the names of their files.
use vstd::prelude::*;

use crate::audio::{
    cleaned_name, cover_file_name, extension_of, file_name_char, file_stem, mime_of,
    safe_in_file_name, shown_bitrate, size_text, undotted, undotted_end, undotted_start,
};
use crate::double::laws::{lemma_half_even, lemma_nearest_double};
use crate::double::{half_even_quotient, nearest_double};
use crate::text::laws::lemma_words_joined;
use crate::text::{decimal, joined, lemma_trimmed_fixed, trimmed, white_space, words};

verus! {

// ---------------------------------------------------------------------------
// Codecs
// ---------------------------------------------------------------------------
/// The container of each codec that is known, by its file extension and its MIME type;
/// any other codec has those of unknown bytes.
pub proof fn lemma_codecs(codec: Seq<char>)
    ensures
        codec == "flac"@ ==> extension_of(codec) == "flac"@ && mime_of(codec) == "audio/flac"@,
        codec == "flac-mp4"@ ==> extension_of(codec) == "mp4"@ && mime_of(codec) == "audio/mp4"@,
        codec == "mp3"@ ==> extension_of(codec) == "mp3"@ && mime_of(codec) == "audio/mpeg"@,
        codec == "aac"@ || codec == "aac-mp4"@ || codec == "he-aac"@ || codec == "he-aac-mp4"@
            ==> extension_of(codec) == "m4a"@ && mime_of(codec) == "audio/mp4"@,
        codec != "flac"@ && codec != "flac-mp4"@ && codec != "mp3"@ && codec != "aac"@ && codec
            != "aac-mp4"@ && codec != "he-aac"@ && codec != "he-aac-mp4"@ ==> extension_of(codec)
            == "bin"@ && mime_of(codec) == "application/octet-stream"@,
{
    reveal_strlit("flac");
    reveal_strlit("flac-mp4");
    reveal_strlit("mp3");
    reveal_strlit("aac");
    reveal_strlit("aac-mp4");
    reveal_strlit("he-aac");
    reveal_strlit("he-aac-mp4");
    assert("mp3"@[0] == 'm' && "aac"@[0] == 'a');
    assert("flac"@.len() == 4);
    assert("flac-mp4"@.len() == 8);
}

/// Notes can show covers in JPEG and PNG, and no others, and their files are named after
/// the type.
pub proof fn lemma_cover_types(mime: Seq<char>)
    ensures
        mime == "image/jpeg"@ ==> cover_file_name(mime) == Some("cover.jpg"@),
        mime == "image/png"@ ==> cover_file_name(mime) == Some("cover.png"@),
        mime != "image/jpeg"@ && mime != "image/png"@ ==> cover_file_name(mime) is None,
{
    reveal_strlit("image/jpeg");
    reveal_strlit("image/png");
    assert("image/jpeg"@.len() == 10);
    assert("image/png"@.len() == 9);
}

// ---------------------------------------------------------------------------
// Numbers for people
// ---------------------------------------------------------------------------
/// A bitrate that was reported is shown as it is. Else the one that is shown is an
/// estimate: the largest whole number of bits per millisecond at which the audio would not
/// have more bits than it has, if that is more than none and a `u32` has it; and if the
/// duration is not known, or no time at all, none is shown.
pub proof fn lemma_bitrate(bitrate_kbps: u32, size: nat, duration_ms: Option<u128>)
    ensures
        ({
            let shown = shown_bitrate(bitrate_kbps, size, duration_ms);
            &&& bitrate_kbps > 0 ==> shown == Some((bitrate_kbps, false))
            &&& bitrate_kbps == 0 && (duration_ms is None || duration_ms->0 == 0) ==> shown
                is None
            &&& bitrate_kbps == 0 && duration_ms is Some && duration_ms->0 > 0 ==> match shown {
                Some((kbps, estimated)) => {
                    &&& estimated
                    &&& kbps > 0
                    &&& kbps * duration_ms->0 <= 8 * size < (kbps + 1) * duration_ms->0
                },
                None => 8 * size < duration_ms->0 || 8 * size >= 0x1_0000_0000 * duration_ms->0,
            }
        }),
{
    if bitrate_kbps == 0 && duration_ms is Some && duration_ms->0 > 0 {
        let ms = duration_ms->0 as int;
        let bits = 8 * size as int;
        let q = (size * 8 / (duration_ms->0 as nat)) as int;
        assert(q * ms <= bits < (q + 1) * ms) by (nonlinear_arith)
            requires
                q == bits / ms,
                ms > 0,
        ;
        if q == 0 {
            assert(bits < ms) by (nonlinear_arith)
                requires
                    bits < (q + 1) * ms,
                    q == 0,
            ;
        }
        if q > u32::MAX {
            assert(bits >= 0x1_0000_0000 * ms) by (nonlinear_arith)
                requires
                    q * ms <= bits,
                    q >= 0x1_0000_0000,
                    ms > 0,
            ;
        }
    }
}

/// A number of bytes below 1024 is shown as it is. From there on it is shown in KiB, and
/// from 1024 KiB on in MiB, in tenths: the tenths that are shown are at most half a tenth
/// away from the number, and even if they are just half a tenth away.
pub proof fn lemma_size(bytes: nat) -> (tenths: nat)
    requires
        bytes < 0x20_0000_0000_0000,
    ensures
        bytes < 1024 ==> size_text(bytes) == decimal(bytes) + " B"@,
        1024 <= bytes < 1048576 ==> {
            &&& size_text(bytes) == decimal(tenths / 10) + "."@ + decimal(tenths % 10) + " KiB"@
            &&& (2 * tenths - 1) * 1024 <= 20 * bytes <= (2 * tenths + 1) * 1024
            &&& 20 * bytes == (2 * tenths - 1) * 1024 || 20 * bytes == (2 * tenths + 1) * 1024
                ==> tenths % 2 == 0
        },
        1048576 <= bytes ==> {
            &&& size_text(bytes) == decimal(tenths / 10) + "."@ + decimal(tenths % 10) + " MiB"@
            &&& (2 * tenths - 1) * 1048576 <= 20 * bytes <= (2 * tenths + 1) * 1048576
            &&& 20 * bytes == (2 * tenths - 1) * 1048576 || 20 * bytes == (2 * tenths + 1)
                * 1048576 ==> tenths % 2 == 0
        },
{
    lemma_nearest_double(bytes);
    assert(nearest_double(bytes) == bytes);
    if bytes >= 1048576 {
        lemma_half_even(10 * bytes, 1048576);
        half_even_quotient(10 * bytes, 1048576)
    } else {
        lemma_half_even(10 * bytes, 1024);
        half_even_quotient(10 * bytes, 1024)
    }
}

/// A number of bytes that no double has is shown as the double nearest to it would be.
pub proof fn lemma_large_size(bytes: nat) -> (tenths: nat)
    requires
        bytes >= 0x20_0000_0000_0000,
    ensures
        size_text(bytes) == decimal(tenths / 10) + "."@ + decimal(tenths % 10) + " MiB"@,
        (2 * tenths - 1) * 1048576 <= 20 * nearest_double(bytes) <= (2 * tenths + 1) * 1048576,
{
    lemma_nearest_double(bytes);
    lemma_half_even(10 * nearest_double(bytes), 1048576);
    half_even_quotient(10 * nearest_double(bytes), 1048576)
}

// ---------------------------------------------------------------------------
// File names
// ---------------------------------------------------------------------------
/// A name that can be the name of a file as it stands: nothing in it that file systems do
/// not take, no white space but single spaces between its words, and no dots around it.
pub open spec fn plain_name(name: Seq<char>) -> bool {
    &&& name.len() > 0
    &&& safe_in_file_name(name)
    &&& !white_space(name[0])
    &&& !white_space(name.last())
    &&& name[0] != '.'
    &&& name.last() != '.'
}

/// A plain name of at most 120 characters is the name of its file, and of a longer one the
/// file has the first 120 characters, without the space that these may end with.
pub proof fn lemma_plain_name_kept(name: Seq<char>)
    requires
        plain_name(name),
    ensures
        name.len() <= 120 ==> file_stem(name) == name,
        name.len() > 120 && !white_space(name[119]) ==> file_stem(name) == name.take(120),
        name.len() > 120 && white_space(name[119]) ==> file_stem(name) == name.take(119),
{
    let f = |c: char| file_name_char(c);
    let mapped = name.map_values(f);
    assert forall|i: int| 0 <= i < name.len() implies #[trigger] mapped[i] == name[i] by {}
    assert(mapped =~= name);
    assert forall|i: int, j: int| 0 <= i && j == i + 1 && j < name.len() implies !(white_space(
        #[trigger] name[i],
    ) && white_space(#[trigger] name[j])) by {}
    lemma_words_joined(name);
    assert(undotted(name) == name);
    lemma_trimmed_fixed(name);
    assert(cleaned_name(name) == name);
    if name.len() > 120 {
        let cut = name.take(120);
        if white_space(name[119]) {
            let shorter = name.take(119);
            assert(cut.drop_last() =~= shorter);
            assert(!white_space(name[118]));
            assert(shorter.last() == name[118]);
            assert(cut[0] == name[0]);
            lemma_trimmed_fixed(shorter);
            assert(crate::text::trimmed_start(cut) == cut);
            assert(crate::text::trimmed_end(cut) == crate::text::trimmed_end(shorter));
            assert(crate::text::trimmed_end(shorter) == shorter);
        } else {
            assert(cut[0] == name[0]);
            assert(cut.last() == name[119]);
            lemma_trimmed_fixed(cut);
        }
    }
}

/// The name with a low line for each character that file systems do not take and a space
/// for each control character names the same file.
pub proof fn lemma_characters_replaced(name: Seq<char>)
    ensures
        file_stem(name) == file_stem(
            name.map_values(
                |c: char|
                    if c == '/' || c == '\\' || c == ':' || c == '*' || c == '?' || c == '"' || c
                        == '<' || c == '>' || c == '|' {
                        '_'
                    } else if (c as int) < 0x20 || 0x7f <= c as int <= 0x9f {
                        ' '
                    } else {
                        c
                    },
            ),
        ),
{
    let f = |c: char| file_name_char(c);
    let g = |c: char|
        if c == '/' || c == '\\' || c == ':' || c == '*' || c == '?' || c == '"' || c == '<' || c
            == '>' || c == '|' {
            '_'
        } else if (c as int) < 0x20 || 0x7f <= c as int <= 0x9f {
            ' '
        } else {
            c
        };
    assert(name.map_values(g).map_values(f) =~= name.map_values(f));
}

/// If nothing in a name has to be replaced, only its words count: with single spaces
/// between them they name the same file.
pub proof fn lemma_spaces_collapsed(name: Seq<char>)
    requires
        forall|i: int| 0 <= i < name.len() ==> file_name_char(#[trigger] name[i]) == name[i],
    ensures
        file_stem(name) == file_stem(joined(words(name), seq![' '])),
        words(name).len() == 0 ==> file_stem(name) == "track"@,
{
    let f = |c: char| file_name_char(c);
    let line = joined(words(name), seq![' ']);
    assert(name.map_values(f) =~= name);
    assert forall|i: int| 0 <= i < words(name).len() implies (#[trigger] words(name)[i]).len()
        > 0 by {
        crate::text::lemma_word(name, i);
    }
    assert forall|i: int, j: int|
        0 <= i < words(name).len() && 0 <= j < words(name)[i].len() implies !white_space(
        #[trigger] words(name)[i][j],
    ) && file_name_char(words(name)[i][j]) == words(name)[i][j] by {
        crate::text::lemma_word(name, i);
        let c = words(name)[i][j];
        let k = choose|k: int| 0 <= k < name.len() && name[k] == c;
        assert(file_name_char(name[k]) == name[k]);
    }
    lemma_line_of_words(words(name));
    assert(line.map_values(f) =~= line);
    lemma_words_joined(line);
    if words(name).len() == 0 {
        assert(line.len() == 0);
        assert(undotted(line).len() == 0);
        assert(trimmed(undotted(line)).len() == 0);
    }
}

proof fn lemma_line_of_words(parts: Seq<Seq<char>>)
    requires
        forall|i: int| 0 <= i < parts.len() ==> (#[trigger] parts[i]).len() > 0,
        forall|i: int, j: int|
            0 <= i < parts.len() && 0 <= j < parts[i].len() ==> !white_space(
                #[trigger] parts[i][j],
            ) && file_name_char(parts[i][j]) == parts[i][j],
    ensures
        ({
            let line = joined(parts, seq![' ']);
            &&& parts.len() > 0 <==> line.len() > 0
            &&& line.len() > 0 ==> !white_space(line[0]) && !white_space(line.last())
            &&& forall|i: int| 0 <= i < line.len() && white_space(#[trigger] line[i]) ==> line[i]
                == ' '
            &&& forall|i: int| 0 <= i < line.len() ==> file_name_char(#[trigger] line[i])
                == line[i]
            &&& forall|i: int, j: int|
                0 <= i && j == i + 1 && j < line.len() ==> !(white_space(#[trigger] line[i])
                    && white_space(#[trigger] line[j]))
        }),
    decreases parts.len(),
{
    let line = joined(parts, seq![' ']);
    if parts.len() == 1 {
        assert(line == parts[0]);
        assert forall|i: int| 0 <= i < line.len() implies !white_space(#[trigger] line[i])
            && file_name_char(line[i]) == line[i] by {
            assert(parts[0][i] == line[i]);
        }
    } else if parts.len() > 1 {
        let front = parts.drop_last();
        let n = parts.len() - 1;
        let last = parts[n];
        assert forall|i: int, j: int|
            0 <= i < front.len() && 0 <= j < front[i].len() implies !white_space(
            #[trigger] front[i][j],
        ) && file_name_char(front[i][j]) == front[i][j] by {
            assert(parts[i][j] == front[i][j]);
        }
        lemma_line_of_words(front);
        let head = joined(front, seq![' ']);
        assert(line =~= head + seq![' '] + last);
        assert forall|i: int| 0 <= i < line.len() implies {
            &&& white_space(#[trigger] line[i]) ==> line[i] == ' '
            &&& file_name_char(line[i]) == line[i]
        } by {
            if i < head.len() {
                assert(line[i] == head[i]);
            } else if i > head.len() {
                assert(line[i] == parts[n][i - head.len() - 1]);
            }
        }
        assert forall|i: int, j: int| 0 <= i && j == i + 1 && j < line.len() implies !(
        white_space(#[trigger] line[i]) && white_space(#[trigger] line[j])) by {
            if j < head.len() {
                assert(line[i] == head[i]);
                assert(line[j] == head[j]);
            } else if j == head.len() {
                assert(line[i] == head.last());
            } else {
                assert(line[j] == parts[n][j - head.len() - 1]);
            }
        }
        assert(line[0] == head[0]);
        assert(line.last() == parts[n][last.len() - 1]);
    }
}

/// Dots around a name are left out: the words of a name with dots before and after them
/// name the same file as without.
pub proof fn lemma_dots_left_out(name: Seq<char>, before: nat, after: nat)
    requires
        plain_name(name),
    ensures
        file_stem(
            Seq::new(before, |i: int| '.') + name + Seq::new(after, |i: int| '.'),
        ) == file_stem(name),
{
    let f = |c: char| file_name_char(c);
    let front = Seq::new(before, |i: int| '.');
    let back = Seq::new(after, |i: int| '.');
    let all = front + name + back;
    assert forall|i: int| 0 <= i < all.len() implies file_name_char(#[trigger] all[i])
        == all[i] by {
        if before <= i < before + name.len() {
            assert(all[i] == name[i - before]);
        }
    }
    assert(all.map_values(f) =~= all);
    assert(name.map_values(f) =~= name);
    assert forall|i: int| 0 <= i < all.len() && white_space(#[trigger] all[i]) implies all[i]
        == ' ' by {
        if before <= i < before + name.len() {
            assert(all[i] == name[i - before]);
        }
    }
    assert forall|i: int, j: int| 0 <= i && j == i + 1 && j < all.len() implies !(white_space(
        #[trigger] all[i],
    ) && white_space(#[trigger] all[j])) by {
        if before <= i && j < before + name.len() {
            assert(all[i] == name[i - before]);
            assert(all[j] == name[i - before + 1]);
        }
    }
    assert(!white_space(all[0])) by {
        if before == 0 {
            assert(all[0] == name[0]);
        }
    }
    assert(!white_space(all.last())) by {
        if after == 0 {
            assert(all.last() == name.last());
        }
    }
    lemma_words_joined(all);
    assert forall|i: int, j: int| 0 <= i && j == i + 1 && j < name.len() implies !(white_space(
        #[trigger] name[i],
    ) && white_space(#[trigger] name[j])) by {}
    lemma_words_joined(name);
    lemma_front_dots(before, name + back);
    assert(front + (name + back) =~= all);
    lemma_back_dots(name, after);
    assert(undotted(name) == name);
    assert(undotted(all) == name);
}

proof fn lemma_front_dots(count: nat, rest: Seq<char>)
    requires
        rest.len() > 0,
        rest[0] != '.',
    ensures
        undotted_start(Seq::new(count, |i: int| '.') + rest) == rest,
    decreases count,
{
    let all = Seq::new(count, |i: int| '.') + rest;
    if count > 0 {
        lemma_front_dots((count - 1) as nat, rest);
        assert(all.drop_first() =~= Seq::new((count - 1) as nat, |i: int| '.') + rest);
    } else {
        assert(all =~= rest);
    }
}

proof fn lemma_back_dots(start: Seq<char>, count: nat)
    requires
        start.len() > 0,
        start.last() != '.',
    ensures
        undotted_end(start + Seq::new(count, |i: int| '.')) == start,
    decreases count,
{
    let all = start + Seq::new(count, |i: int| '.');
    if count > 0 {
        lemma_back_dots(start, (count - 1) as nat);
        assert(all.drop_last() =~= start + Seq::new((count - 1) as nat, |i: int| '.'));
    } else {
        assert(all =~= start);
    }
}

} // verus!
