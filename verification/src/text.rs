//! Text as sequences of characters: character classes, trimming, splitting,
//! joining, and the decimal notation of integers.
use vstd::prelude::*;

pub mod laws;

verus! {

/// `String::push` appends the given character to the end of the string.
pub assume_specification[ String::push ](s: &mut String, c: char)
    ensures
        final(s)@ == old(s)@.push(c),
;

/// Two string slices compare equal exactly when they hold the same characters.
pub assume_specification[ <str as PartialEq<str>>::eq ](a: &str, b: &str) -> (res: bool)
    ensures
        res == (a@ == b@),
;

/// The texts of a sequence of strings.
pub open spec fn texts(strings: Seq<String>) -> Seq<Seq<char>> {
    strings.map_values(|s: String| s@)
}

/// The text of an optional string.
pub open spec fn opt_text(s: Option<String>) -> Option<Seq<char>> {
    match s {
        Some(text) => Some(text@),
        None => None,
    }
}

/// What the fields of a form say.
pub open spec fn form_view(form: Seq<(String, String)>) -> Seq<(Seq<char>, Seq<char>)> {
    form.map_values(|field: (String, String)| (field.0@, field.1@))
}

/// Appending a string appends its text.
pub broadcast proof fn lemma_texts_push(strings: Seq<String>, s: String)
    ensures
        #[trigger] texts(strings.push(s)) == texts(strings).push(s@),
{
    assert(texts(strings.push(s)) =~= texts(strings).push(s@));
}

/// The characters of a string, in order.
pub fn chars_of(s: &str) -> (res: Vec<char>)
    ensures
        res@ == s@,
{
    let mut res: Vec<char> = Vec::new();
    for c in it: s.chars()
        invariant
            res@ == it.seq().take(it.index()),
            it.seq() == s@,
    {
        res.push(c);
    }
    res
}

/// A copy of a list of strings.
pub fn copy_strings(strings: &Vec<String>) -> (res: Vec<String>)
    ensures
        texts(res@) == texts(strings@),
{
    let mut res: Vec<String> = Vec::new();
    for i in 0..strings.len()
        invariant
            texts(res@) == texts(strings@).take(i as int),
    {
        broadcast use lemma_texts_push;
        res.push(strings[i].clone());
        assert(texts(strings@).take(i + 1) =~= texts(strings@).take(i as int).push(
            strings[i as int]@,
        ));
    }
    assert(texts(strings@).take(strings.len() as int) =~= texts(strings@));
    res
}

/// Where the given string stands first in the list, if it does.
pub fn position_of(strings: &Vec<String>, s: &str) -> (res: Option<usize>)
    ensures
        match res {
            Some(i) => i < strings@.len() && strings@[i as int]@ == s@ && forall|j: int|
                0 <= j < i ==> (#[trigger] strings@[j])@ != s@,
            None => !texts(strings@).contains(s@),
        },
{
    for i in 0..strings.len()
        invariant
            forall|j: int| 0 <= j < i ==> (#[trigger] strings@[j])@ != s@,
    {
        if *strings[i].as_str() == *s {
            return Some(i);
        }
    }
    assert forall|j: int| 0 <= j < strings@.len() implies #[trigger] texts(strings@)[j] != s@ by {
        assert(strings@[j]@ != s@);
    }
    None
}

// ---------------------------------------------------------------------------
// Character classes
// ---------------------------------------------------------------------------
/// The characters with the Unicode property `White_Space`.
pub open spec fn white_space(c: char) -> bool {
    ||| '\u{9}' <= c <= '\u{d}'
    ||| c == ' '
    ||| c == '\u{85}'
    ||| c == '\u{a0}'
    ||| c == '\u{1680}'
    ||| '\u{2000}' <= c <= '\u{200a}'
    ||| c == '\u{2028}'
    ||| c == '\u{2029}'
    ||| c == '\u{202f}'
    ||| c == '\u{205f}'
    ||| c == '\u{3000}'
}

/// Whether `c` has the Unicode property `White_Space`.
pub fn is_white_space(c: char) -> (res: bool)
    ensures
        res == white_space(c),
{
    ('\u{9}' <= c && c <= '\u{d}') || c == ' ' || c == '\u{85}' || c == '\u{a0}' || c == '\u{1680}'
        || ('\u{2000}' <= c && c <= '\u{200a}') || c == '\u{2028}' || c == '\u{2029}' || c
        == '\u{202f}' || c == '\u{205f}' || c == '\u{3000}'
}

/// The characters of the Unicode category `Cc`.
pub open spec fn control(c: char) -> bool {
    c <= '\u{1f}' || '\u{7f}' <= c <= '\u{9f}'
}

/// Whether `c` is a control character (Unicode category `Cc`).
pub fn is_control(c: char) -> (res: bool)
    ensures
        res == control(c),
{
    c <= '\u{1f}' || ('\u{7f}' <= c && c <= '\u{9f}')
}

/// The ASCII letters and digits.
pub open spec fn ascii_alphanumeric(c: char) -> bool {
    ('0' <= c <= '9') || ('a' <= c <= 'z') || ('A' <= c <= 'Z')
}

/// Whether `c` is an ASCII letter or digit.
pub fn is_ascii_alphanumeric(c: char) -> (res: bool)
    ensures
        res == ascii_alphanumeric(c),
{
    ('0' <= c && c <= '9') || ('a' <= c && c <= 'z') || ('A' <= c && c <= 'Z')
}

/// `c` with an ASCII capital letter made small.
pub open spec fn ascii_lower(c: char) -> char {
    if 'A' <= c <= 'Z' {
        (c as u32 + 32) as char
    } else {
        c
    }
}

/// `c` with an ASCII small letter made capital.
pub open spec fn ascii_upper(c: char) -> char {
    if 'a' <= c <= 'z' {
        (c as u32 - 32) as char
    } else {
        c
    }
}

/// `c` with an ASCII capital letter made small.
pub fn to_ascii_lower(c: char) -> (res: char)
    ensures
        res == ascii_lower(c),
{
    if 'A' <= c && c <= 'Z' {
        (c as u8 + 32) as char
    } else {
        c
    }
}

/// A text with its ASCII capital letters made small.
pub open spec fn ascii_lowered(s: Seq<char>) -> Seq<char> {
    s.map_values(|c: char| ascii_lower(c))
}

/// A text with its ASCII small letters made capital.
pub open spec fn ascii_uppered(s: Seq<char>) -> Seq<char> {
    s.map_values(|c: char| ascii_upper(c))
}

/// `s` with its ASCII capital letters made small.
pub fn ascii_lowercase(s: &str) -> (res: String)
    ensures
        res@ == ascii_lowered(s@),
{
    let mut res = String::new();
    for c in it: s.chars()
        invariant
            res@ == ascii_lowered(it.seq().take(it.index())),
            it.seq() == s@,
    {
        res.push(to_ascii_lower(c));
        assert(ascii_lowered(s@.take(it.index() + 1)) =~= ascii_lowered(
            s@.take(it.index()),
        ).push(ascii_lower(c)));
    }
    assert(s@.take(s@.len() as int) =~= s@);
    res
}

// ---------------------------------------------------------------------------
// Trimming
// ---------------------------------------------------------------------------
/// A text without the white space at its start.
pub open spec fn trimmed_start(s: Seq<char>) -> Seq<char>
    decreases s.len(),
{
    if s.len() > 0 && white_space(s[0]) {
        trimmed_start(s.drop_first())
    } else {
        s
    }
}

/// A text without the white space at its end.
pub open spec fn trimmed_end(s: Seq<char>) -> Seq<char>
    decreases s.len(),
{
    if s.len() > 0 && white_space(s.last()) {
        trimmed_end(s.drop_last())
    } else {
        s
    }
}

/// A text without the white space at its start and at its end.
pub open spec fn trimmed(s: Seq<char>) -> Seq<char> {
    trimmed_end(trimmed_start(s))
}

/// A text of nothing but white space.
pub open spec fn blank(s: Seq<char>) -> bool {
    forall|i: int| 0 <= i < s.len() ==> white_space(#[trigger] s[i])
}

/// A text is blank exactly when trimming leaves nothing of it.
pub proof fn lemma_blank_trimmed(s: Seq<char>)
    ensures
        blank(s) <==> trimmed(s).len() == 0,
{
    lemma_trimmed_start_blank(s);
    lemma_trimmed_end_blank(trimmed_start(s));
}

proof fn lemma_trimmed_start_blank(s: Seq<char>)
    ensures
        blank(s) <==> trimmed_start(s).len() == 0,
        blank(s) <==> blank(trimmed_start(s)),
        trimmed_start(s).len() > 0 ==> !white_space(trimmed_start(s)[0]),
    decreases s.len(),
{
    if s.len() > 0 && white_space(s[0]) {
        let rest = s.drop_first();
        lemma_trimmed_start_blank(rest);
        if blank(rest) {
            assert forall|i: int| 0 <= i < s.len() implies white_space(#[trigger] s[i]) by {
                if i > 0 {
                    assert(rest[i - 1] == s[i]);
                }
            }
        }
        if blank(s) {
            assert forall|i: int| 0 <= i < rest.len() implies white_space(#[trigger] rest[i]) by {
                assert(rest[i] == s[i + 1]);
            }
        }
    }
}

proof fn lemma_trimmed_end_blank(s: Seq<char>)
    ensures
        blank(s) <==> trimmed_end(s).len() == 0,
        trimmed_end(s).len() > 0 ==> !white_space(trimmed_end(s).last()),
        trimmed_end(s).is_prefix_of(s),
    decreases s.len(),
{
    if s.len() > 0 && white_space(s.last()) {
        let rest = s.drop_last();
        lemma_trimmed_end_blank(rest);
        if blank(rest) {
            assert forall|i: int| 0 <= i < s.len() implies white_space(#[trigger] s[i]) by {
                if i < rest.len() {
                    assert(rest[i] == s[i]);
                }
            }
        }
    }
}

/// A trimmed text neither starts nor ends with white space.
pub proof fn lemma_trimmed_ends(s: Seq<char>)
    ensures
        trimmed(s).len() > 0 ==> !white_space(trimmed(s)[0]) && !white_space(trimmed(s).last()),
{
    lemma_trimmed_start_blank(s);
    lemma_trimmed_end_blank(trimmed_start(s));
}

/// A text that neither starts nor ends with white space is left as it is.
pub proof fn lemma_trimmed_fixed(s: Seq<char>)
    requires
        s.len() > 0 ==> !white_space(s[0]) && !white_space(s.last()),
    ensures
        trimmed(s) == s,
{
}

/// Trimming a text twice is the same as trimming it once.
pub proof fn lemma_trimmed_idempotent(s: Seq<char>)
    ensures
        trimmed(trimmed(s)) == trimmed(s),
{
    lemma_trimmed_ends(s);
    lemma_trimmed_fixed(trimmed(s));
}

/// Every character of a trimmed text is one of the text.
pub proof fn lemma_trimmed_contains(s: Seq<char>, c: char)
    requires
        trimmed(s).contains(c),
    ensures
        s.contains(c),
{
    let range = lemma_trimmed_range(s);
    let i = choose|i: int| 0 <= i < trimmed(s).len() && trimmed(s)[i] == c;
    assert(s[range.0 + i] == c);
}

/// Where the trimmed text stands in a text.
pub proof fn lemma_trimmed_range(s: Seq<char>) -> (range: (int, int))
    ensures
        0 <= range.0 <= range.1 <= s.len(),
        trimmed(s) == s.subrange(range.0, range.1),
{
    lemma_trimmed_end_blank(trimmed_start(s));
    let start = lemma_trimmed_start_range(s);
    let end = start + trimmed(s).len();
    assert(trimmed(s) =~= s.subrange(start, end));
    (start, end)
}

proof fn lemma_trimmed_start_range(s: Seq<char>) -> (start: int)
    ensures
        0 <= start <= s.len(),
        trimmed_start(s) == s.skip(start),
    decreases s.len(),
{
    if s.len() > 0 && white_space(s[0]) {
        let start = lemma_trimmed_start_range(s.drop_first());
        assert(s.drop_first().skip(start) =~= s.skip(start + 1));
        start + 1
    } else {
        assert(s.skip(0) =~= s);
        0
    }
}

/// `s` without the white space at its start and at its end.
pub fn trim(s: &str) -> (res: &str)
    ensures
        res@ == trimmed(s@),
{
    let chars = chars_of(s);
    let mut start: usize = 0;
    assert(s@.skip(0) =~= s@);
    while start < chars.len() && is_white_space(chars[start])
        invariant
            start <= chars@.len(),
            chars@ == s@,
            trimmed_start(s@) == trimmed_start(s@.skip(start as int)),
        decreases chars.len() - start,
    {
        assert(s@.skip(start as int).drop_first() =~= s@.skip(start + 1));
        start += 1;
    }
    let mut end: usize = chars.len();
    while start < end && is_white_space(chars[end - 1])
        invariant
            start <= end <= chars@.len(),
            chars@ == s@,
            trimmed_end(s@.skip(start as int)) == trimmed_end(
                s@.subrange(start as int, end as int),
            ),
        decreases end - start,
    {
        assert(s@.subrange(start as int, end as int).drop_last() =~= s@.subrange(
            start as int,
            end - 1,
        ));
        end -= 1;
    }
    s.substring_char(start, end)
}

/// Whether `s` is empty or nothing but white space.
pub fn is_blank(s: &str) -> (res: bool)
    ensures
        res == blank(s@),
{
    proof {
        lemma_blank_trimmed(s@);
    }
    trim(s).is_empty()
}

/// An optional text without the white space around it; missing if nothing is
/// left of it.
pub open spec fn trimmed_option(value: Option<Seq<char>>) -> Option<Seq<char>> {
    match value {
        Some(text) => if blank(text) {
            None
        } else {
            Some(trimmed(text))
        },
        None => None,
    }
}

/// An optional string without the white space around it; missing if nothing is
/// left of it.
pub fn trim_option(value: &Option<String>) -> (res: Option<String>)
    ensures
        opt_text(res) == trimmed_option(opt_text(*value)),
{
    match value {
        Some(text) => {
            proof {
                lemma_blank_trimmed(text@);
            }
            let kept = trim(text.as_str());
            if kept.is_empty() {
                None
            } else {
                Some(kept.to_owned())
            }
        },
        None => None,
    }
}

// ---------------------------------------------------------------------------
// Splitting and joining
// ---------------------------------------------------------------------------
/// The pieces of a text between the characters that `is_sep` picks: one piece
/// more than there are such characters.
pub open spec fn pieces(s: Seq<char>, is_sep: spec_fn(char) -> bool) -> Seq<Seq<char>>
    decreases s.len(),
{
    if s.len() == 0 {
        seq![Seq::<char>::empty()]
    } else {
        let before = pieces(s.drop_last(), is_sep);
        if is_sep(s.last()) {
            before.push(Seq::<char>::empty())
        } else {
            before.drop_last().push(before.last().push(s.last()))
        }
    }
}

/// A text always has at least one piece.
pub proof fn lemma_pieces_nonempty(s: Seq<char>, is_sep: spec_fn(char) -> bool)
    ensures
        pieces(s, is_sep).len() >= 1,
    decreases s.len(),
{
    if s.len() > 0 {
        lemma_pieces_nonempty(s.drop_last(), is_sep);
    }
}

/// The texts in order, with the separator between each two of them.
pub open spec fn joined(parts: Seq<Seq<char>>, sep: Seq<char>) -> Seq<char>
    decreases parts.len(),
{
    if parts.len() == 0 {
        Seq::empty()
    } else if parts.len() == 1 {
        parts[0]
    } else {
        joined(parts.drop_last(), sep) + sep + parts.last()
    }
}

/// The strings in order, with the separator between each two of them.
pub fn join(parts: &Vec<String>, sep: &str) -> (res: String)
    ensures
        res@ == joined(texts(parts@), sep@),
{
    let mut res = String::new();
    for i in 0..parts.len()
        invariant
            res@ == joined(texts(parts@).take(i as int), sep@),
    {
        if i > 0 {
            res.append(sep);
        }
        res.append(parts[i].as_str());
        proof {
            let next = texts(parts@).take(i + 1);
            assert(next.drop_last() =~= texts(parts@).take(i as int));
            assert(next.last() == parts[i as int]@);
            if i == 0 {
                assert(Seq::<char>::empty() + parts[0]@ =~= parts[0]@);
            }
        }
    }
    assert(texts(parts@).take(parts.len() as int) =~= texts(parts@));
    res
}

/// The pieces of a text between its commas.
pub open spec fn comma_pieces(s: Seq<char>) -> Seq<Seq<char>> {
    pieces(s, |c: char| c == ',')
}

/// The words of a text: its longest runs of characters that are not white
/// space.
pub open spec fn words(s: Seq<char>) -> Seq<Seq<char>> {
    pieces(s, |c: char| white_space(c)).filter(|w: Seq<char>| w.len() > 0)
}

/// The pieces of `s` between its commas.
pub fn split_commas(s: &str) -> (res: Vec<String>)
    ensures
        texts(res@) == comma_pieces(s@),
{
    let ghost is_sep = |c: char| c == ',';
    let mut done: Vec<String> = Vec::new();
    let mut current = String::new();
    assert(texts(done@).push(current@) =~= seq![Seq::<char>::empty()]);
    for c in it: s.chars()
        invariant
            it.seq() == s@,
            is_sep == (|c: char| c == ','),
            texts(done@).push(current@) == pieces(it.seq().take(it.index()), is_sep),
    {
        broadcast use lemma_texts_push;

        let ghost before = texts(done@).push(current@);
        assert(s@.take(it.index() + 1).drop_last() =~= s@.take(it.index()));
        assert(before.drop_last() =~= texts(done@));
        if c == ',' {
            done.push(current);
            current = String::new();
        } else {
            current.push(c);
        }
    }
    assert(s@.take(s@.len() as int) =~= s@);
    done.push(current);
    proof {
        broadcast use lemma_texts_push;

    }
    done
}

/// The words of `s`.
pub fn split_words(s: &str) -> (res: Vec<String>)
    ensures
        texts(res@) == words(s@),
{
    let ghost is_sep = |c: char| white_space(c);
    let ghost is_word = |w: Seq<char>| w.len() > 0;
    let mut done: Vec<String> = Vec::new();
    let mut current = String::new();
    let ghost mut seen: Seq<Seq<char>> = Seq::empty();
    proof {
        reveal(Seq::filter);
        assert(seen.push(current@) =~= seq![Seq::<char>::empty()]);
        assert(texts(done@) =~= seen.filter(is_word));
    }
    for c in it: s.chars()
        invariant
            it.seq() == s@,
            is_sep == (|c: char| white_space(c)),
            is_word == (|w: Seq<char>| w.len() > 0),
            texts(done@) == seen.filter(is_word),
            seen.push(current@) == pieces(it.seq().take(it.index()), is_sep),
    {
        broadcast use lemma_texts_push;
        broadcast use Seq::lemma_filter_push;

        assert(s@.take(it.index() + 1).drop_last() =~= s@.take(it.index()));
        assert(seen.push(current@).drop_last() =~= seen);
        if is_white_space(c) {
            proof {
                seen = seen.push(current@);
            }
            if !current.as_str().is_empty() {
                done.push(current);
            }
            current = String::new();
        } else {
            current.push(c);
        }
    }
    assert(s@.take(s@.len() as int) =~= s@);
    proof {
        broadcast use lemma_texts_push;
        broadcast use Seq::lemma_filter_push;

        assert(seen.push(current@).filter(is_word) == words(s@));
    }
    if !current.as_str().is_empty() {
        done.push(current);
    }
    done
}

/// `s` starts with `prefix`.
pub fn has_prefix(s: &str, prefix: &str) -> (res: bool)
    ensures
        res == prefix@.is_prefix_of(s@),
{
    let chars = chars_of(s);
    let wanted = chars_of(prefix);
    if wanted.len() > chars.len() {
        return false;
    }
    for i in 0..wanted.len()
        invariant
            wanted@ == prefix@,
            chars@ == s@,
            wanted@.len() <= chars@.len(),
            forall|j: int| 0 <= j < i ==> wanted@[j] == chars@[j],
    {
        if wanted[i] != chars[i] {
            assert(s@.subrange(0, prefix@.len() as int)[i as int] == s@[i as int]);
            return false;
        }
    }
    assert(prefix@ =~= s@.subrange(0, prefix@.len() as int));
    true
}

/// Splitting a joined list at its separators gives the list back, if no text of it
/// holds one and there is at least one text.
pub proof fn lemma_pieces_joined(parts: Seq<Seq<char>>, mark: char)
    requires
        parts.len() > 0,
        forall|i: int| 0 <= i < parts.len() ==> !(#[trigger] parts[i]).contains(mark),
    ensures
        pieces(joined(parts, seq![mark]), |c: char| c == mark) == parts,
    decreases parts.len(),
{
    let sep = seq![mark];
    let is_sep = |c: char| c == mark;
    if parts.len() == 1 {
        lemma_pieces_append(Seq::empty(), parts[0], is_sep);
        assert(Seq::<char>::empty() + parts[0] =~= parts[0]);
        assert(pieces(Seq::<char>::empty(), is_sep) =~= seq![Seq::<char>::empty()]);
        assert(pieces(parts[0], is_sep) =~= parts);
    } else {
        let front = parts.drop_last();
        lemma_pieces_joined(front, mark);
        let head = joined(front, sep);
        assert((head + sep).drop_last() =~= head);
        assert(pieces(head + sep, is_sep) == front.push(Seq::<char>::empty()));
        lemma_pieces_append(head + sep, parts.last(), is_sep);
        assert(Seq::<char>::empty() + parts.last() =~= parts.last());
        assert(pieces(head + sep + parts.last(), is_sep) =~= parts);
    }
}

/// Joining the pieces of a text gives the text back.
pub proof fn lemma_joined_pieces(s: Seq<char>, mark: char)
    ensures
        joined(pieces(s, |c: char| c == mark), seq![mark]) == s,
    decreases s.len(),
{
    let is_sep = |c: char| c == mark;
    let sep = seq![mark];
    let all = pieces(s, is_sep);
    if s.len() == 0 {
        assert(joined(all, sep) =~= s);
    } else {
        let init = s.drop_last();
        lemma_joined_pieces(init, mark);
        lemma_pieces_nonempty(init, is_sep);
        let before = pieces(init, is_sep);
        assert(init.push(s.last()) =~= s);
        if s.last() == mark {
            assert(all.drop_last() =~= before);
            assert(joined(all, sep) =~= s);
        } else {
            assert(all.drop_last() =~= before.drop_last());
            if before.len() == 1 {
                assert(joined(before, sep) == before[0]);
                assert(all.len() == 1);
                assert(joined(all, sep) =~= s);
            } else {
                assert(joined(before, sep) == joined(before.drop_last(), sep) + sep
                    + before.last());
                assert(joined(all, sep) =~= s);
            }
        }
    }
}

/// Splitting a joined list at the commas gives the list back, if no text of it
/// holds a comma and there is at least one.
pub proof fn lemma_comma_pieces_joined(parts: Seq<Seq<char>>)
    requires
        parts.len() > 0,
        forall|i: int| 0 <= i < parts.len() ==> !(#[trigger] parts[i]).contains(','),
    ensures
        comma_pieces(joined(parts, seq![','])) == parts,
{
    lemma_pieces_joined(parts, ',');
}

/// Appending a text without separators extends the last piece by it.
proof fn lemma_pieces_append(s: Seq<char>, more: Seq<char>, is_sep: spec_fn(char) -> bool)
    requires
        forall|i: int| 0 <= i < more.len() ==> !is_sep(#[trigger] more[i]),
    ensures
        pieces(s + more, is_sep) == pieces(s, is_sep).drop_last().push(
            pieces(s, is_sep).last() + more,
        ),
    decreases more.len(),
{
    lemma_pieces_nonempty(s, is_sep);
    if more.len() == 0 {
        assert(s + more =~= s);
        assert(pieces(s, is_sep).last() + more =~= pieces(s, is_sep).last());
        assert(pieces(s, is_sep).drop_last().push(pieces(s, is_sep).last()) =~= pieces(s, is_sep));
    } else {
        let rest = more.drop_last();
        assert forall|i: int| 0 <= i < rest.len() implies !is_sep(#[trigger] rest[i]) by {
            assert(rest[i] == more[i]);
        }
        lemma_pieces_append(s, rest, is_sep);
        assert((s + more).drop_last() =~= s + rest);
        assert((s + more).last() == more.last());
        let last = pieces(s, is_sep).last();
        assert((last + rest).push(more.last()) =~= last + more);
        let before = pieces(s + rest, is_sep);
        assert(before.drop_last() =~= pieces(s, is_sep).drop_last());
    }
}

/// No piece of a text holds a separator, and each is made of its characters.
pub proof fn lemma_pieces_free(s: Seq<char>, is_sep: spec_fn(char) -> bool, i: int, c: char)
    requires
        0 <= i < pieces(s, is_sep).len(),
        pieces(s, is_sep)[i].contains(c),
    ensures
        !is_sep(c),
        s.contains(c),
    decreases s.len(),
{
    if s.len() > 0 {
        let init = s.drop_last();
        lemma_pieces_nonempty(init, is_sep);
        let before = pieces(init, is_sep);
        let piece = pieces(s, is_sep)[i];
        let k = choose|k: int| 0 <= k < piece.len() && piece[k] == c;
        if is_sep(s.last()) {
            if i < before.len() {
                assert(before[i][k] == c);
                lemma_pieces_free(init, is_sep, i, c);
                let j = choose|j: int| 0 <= j < init.len() && init[j] == c;
                assert(s[j] == c);
            }
        } else {
            if i == before.len() - 1 && k == before.last().len() {
                assert(s[s.len() - 1] == c);
            } else {
                assert(before[i][k] == c);
                lemma_pieces_free(init, is_sep, i, c);
                let j = choose|j: int| 0 <= j < init.len() && init[j] == c;
                assert(s[j] == c);
            }
        }
    }
}

/// A word is not empty, holds no white space, and is made of the characters of
/// the text.
pub proof fn lemma_word(s: Seq<char>, i: int)
    requires
        0 <= i < words(s).len(),
    ensures
        words(s)[i].len() > 0,
        forall|j: int|
            0 <= j < words(s)[i].len() ==> !white_space(#[trigger] words(s)[i][j]) && s.contains(
                words(s)[i][j],
            ),
{
    let is_sep = |c: char| white_space(c);
    let is_word = |w: Seq<char>| w.len() > 0;
    let all = pieces(s, is_sep);
    all.lemma_filter_pred(is_word, i);
    let word = words(s)[i];
    assert(all.filter(is_word).contains(word));
    all.lemma_filter_contains_rev(is_word, word);
    let k = choose|k: int| 0 <= k < all.len() && all[k] == word;
    assert forall|j: int| 0 <= j < word.len() implies !white_space(#[trigger] word[j])
        && s.contains(word[j]) by {
        assert(all[k].contains(word[j]));
        lemma_pieces_free(s, is_sep, k, word[j]);
    }
}

// ---------------------------------------------------------------------------
// Numbers
// ---------------------------------------------------------------------------
/// The character of a decimal digit.
pub open spec fn digit(d: nat) -> char {
    ('0' as u32 + d) as char
}

/// The decimal notation of a natural number, without leading zeros.
pub open spec fn decimal(n: nat) -> Seq<char>
    decreases n,
{
    if n < 10 {
        seq![digit(n)]
    } else {
        decimal(n / 10).push(digit(n % 10))
    }
}

/// The character of a decimal digit.
fn digit_char(d: u8) -> (res: char)
    requires
        d < 10,
    ensures
        res == digit(d as nat),
{
    (48 + d) as char
}

/// The decimal notation of `n`.
pub fn decimal_string(n: u128) -> (res: String)
    ensures
        res@ == decimal(n as nat),
    decreases n,
{
    let mut res = if n < 10 {
        String::new()
    } else {
        decimal_string(n / 10)
    };
    res.push(digit_char((n % 10) as u8));
    proof {
        if n < 10 {
            assert(Seq::<char>::empty().push(digit(n as nat)) =~= seq![digit(n as nat)]);
        }
    }
    res
}

/// A text of decimal digits and nothing else.
pub open spec fn all_digits(s: Seq<char>) -> bool {
    forall|i: int| 0 <= i < s.len() ==> '0' <= #[trigger] s[i] <= '9'
}

/// The number that a text of decimal digits denotes.
pub open spec fn digits_value(s: Seq<char>) -> nat
    decreases s.len(),
{
    if s.len() == 0 {
        0
    } else {
        (10 * digits_value(s.drop_last()) + (s.last() as u32 - '0' as u32)) as nat
    }
}

/// The digits of a number: what follows an optional plus sign.
pub open spec fn unsigned_digits(s: Seq<char>) -> Seq<char> {
    if s.len() > 0 && s[0] == '+' {
        s.drop_first()
    } else {
        s
    }
}

/// The number that a text denotes: one or more decimal digits after an
/// optional plus sign, with a value of at most `max`.
pub open spec fn parsed_unsigned(s: Seq<char>, max: nat) -> Option<nat> {
    let digits = unsigned_digits(s);
    if digits.len() > 0 && all_digits(digits) && digits_value(digits) <= max {
        Some(digits_value(digits))
    } else {
        None
    }
}

/// The integer that a text denotes: as for [`parsed_unsigned`], with a minus
/// sign allowed in place of the plus sign, and within the range of `i64`.
pub open spec fn parsed_i64(s: Seq<char>) -> Option<int> {
    if s.len() > 0 && s[0] == '-' {
        let digits = s.drop_first();
        if digits.len() > 0 && all_digits(digits) && -digits_value(digits) >= i64::MIN {
            Some(-(digits_value(digits) as int))
        } else {
            None
        }
    } else {
        match parsed_unsigned(s, i64::MAX as nat) {
            Some(n) => Some(n as int),
            None => None,
        }
    }
}

/// The digits at the start of a text denote a number above `max`.
pub open spec fn overflows(s: Seq<char>, max: nat) -> bool {
    exists|n: int|
        0 <= n <= s.len() && all_digits(#[trigger] s.take(n)) && digits_value(s.take(n)) > max
}

/// More digits never make a number smaller.
proof fn lemma_digits_value_monotone(s: Seq<char>, n: int)
    requires
        0 <= n <= s.len(),
        all_digits(s),
    ensures
        digits_value(s.take(n)) <= digits_value(s),
    decreases s.len() - n,
{
    if n < s.len() {
        assert(s.take(n + 1).drop_last() =~= s.take(n));
        assert(s.take(n + 1).last() == s[n]);
        lemma_digits_value_monotone(s, n + 1);
    } else {
        assert(s.take(n) =~= s);
    }
}

/// What a text of digits denotes.
pub enum Parsed {
    /// A number.
    Value(u128),
    /// Nothing: there are no digits, or something else stands among them.
    Invalid,
    /// A number above the largest one allowed.
    TooLarge,
}

/// `res` is what a text of digits denotes.
pub open spec fn parse_result(digits: Seq<char>, max: nat, res: Parsed) -> bool {
    match res {
        Parsed::Value(n) => digits.len() > 0 && all_digits(digits) && n == digits_value(digits)
            && n <= max,
        Parsed::Invalid => !overflows(digits, max) && !(digits.len() > 0 && all_digits(digits)),
        Parsed::TooLarge => overflows(digits, max),
    }
}

/// What the digits of `chars` from `start` on denote.
fn parse_digits(chars: &Vec<char>, start: usize, max: u128) -> (res: Parsed)
    requires
        start <= chars@.len(),
    ensures
        parse_result(chars@.skip(start as int), max as nat, res),
{
    let ghost digits = chars@.skip(start as int);
    let mut value: u128 = 0;
    let mut i: usize = start;
    assert(digits.take(0) =~= Seq::<char>::empty());
    while i < chars.len()
        invariant
            start <= i <= chars@.len(),
            digits == chars@.skip(start as int),
            all_digits(digits.take(i - start)),
            value == digits_value(digits.take(i - start)),
            value <= max,
        decreases chars.len() - i,
    {
        let c = chars[i];
        assert(digits[i - start] == c);
        if !('0' <= c && c <= '9') {
            proof {
                lemma_no_overflow(digits, max as nat, i - start);
            }
            return Parsed::Invalid;
        }
        let d: u128 = (c as u32 - '0' as u32) as u128;
        let ghost next = digits.take(i - start + 1);
        proof {
            assert(next.drop_last() =~= digits.take(i - start));
            assert(next.last() == c);
            assert(digits_value(next) == 10 * value + d);
            assert forall|j: int| 0 <= j < next.len() implies '0' <= #[trigger] next[j] <= '9' by {
                if j < i - start {
                    assert(digits.take(i - start)[j] == digits[j]);
                }
            }
        }
        if d > max || value > max / 10 || value * 10 > max - d {
            assert(digits_value(next) > max);
            return Parsed::TooLarge;
        }
        value = value * 10 + d;
        i += 1;
    }
    assert(digits.take(i - start) =~= digits);
    if start == chars.len() {
        proof {
            lemma_no_overflow(digits, max as nat, 0);
        }
        return Parsed::Invalid;
    }
    Parsed::Value(value)
}

/// Digits up to `end`, where something else or nothing follows, denote no number
/// above `max`, if the whole run of them does not.
proof fn lemma_no_overflow(s: Seq<char>, max: nat, end: int)
    requires
        0 <= end <= s.len(),
        all_digits(s.take(end)),
        digits_value(s.take(end)) <= max,
        end < s.len() ==> !('0' <= s[end] <= '9'),
    ensures
        !overflows(s, max),
{
    assert forall|n: int|
        0 <= n <= s.len() && all_digits(#[trigger] s.take(n)) implies digits_value(s.take(n))
        <= max by {
        if n > end {
            assert(s.take(n)[end] == s[end]);
        } else {
            lemma_digits_value_monotone(s.take(end), n);
            assert(s.take(end).take(n) =~= s.take(n));
        }
    }
}

/// A number above `max` is not one of at most `max`.
pub proof fn lemma_overflow(s: Seq<char>, max: nat)
    requires
        overflows(s, max),
        all_digits(s),
    ensures
        digits_value(s) > max,
{
    let n = choose|n: int|
        0 <= n <= s.len() && all_digits(#[trigger] s.take(n)) && digits_value(s.take(n)) > max;
    lemma_digits_value_monotone(s, n);
}

/// What `s` denotes as a number of at most `max`.
pub fn parse_number(s: &str, max: u128) -> (res: Parsed)
    ensures
        parse_result(unsigned_digits(s@), max as nat, res),
{
    let chars = chars_of(s);
    let start: usize = if chars.len() > 0 && chars[0] == '+' {
        1
    } else {
        0
    };
    assert(s@.skip(0) =~= s@);
    assert(s@.len() > 0 ==> s@.skip(1) =~= s@.drop_first());
    parse_digits(&chars, start, max)
}

/// The number that `s` denotes, if it denotes one of at most `max`.
pub fn parse_unsigned(s: &str, max: u128) -> (res: Option<u128>)
    ensures
        match res {
            Some(n) => parsed_unsigned(s@, max as nat) == Some(n as nat),
            None => parsed_unsigned(s@, max as nat) is None,
        },
{
    match parse_number(s, max) {
        Parsed::Value(n) => Some(n),
        Parsed::Invalid => None,
        Parsed::TooLarge => {
            proof {
                if all_digits(unsigned_digits(s@)) {
                    lemma_overflow(unsigned_digits(s@), max as nat);
                }
            }
            None
        },
    }
}

/// The integer that `s` denotes, if it denotes one in the range of `i64`.
pub fn parse_i64(s: &str) -> (res: Option<i64>)
    ensures
        match res {
            Some(n) => parsed_i64(s@) == Some(n as int),
            None => parsed_i64(s@) is None,
        },
{
    let chars = chars_of(s);
    if chars.len() > 0 && chars[0] == '-' {
        assert(s@.skip(1) =~= s@.drop_first());
        match parse_digits(&chars, 1, 0x8000_0000_0000_0000) {
            Parsed::Value(n) => Some((-(n as i128)) as i64),
            Parsed::Invalid => None,
            Parsed::TooLarge => {
                proof {
                    if all_digits(s@.drop_first()) {
                        lemma_overflow(s@.drop_first(), 0x8000_0000_0000_0000);
                    }
                }
                None
            },
        }
    } else {
        match parse_unsigned(s, 0x7fff_ffff_ffff_ffff) {
            Some(n) => Some(n as i64),
            None => None,
        }
    }
}

/// The small hexadecimal digit of a number below 16.
pub open spec fn hex_digit(d: nat) -> char {
    if d < 10 {
        digit(d)
    } else {
        ('a' as u32 + (d - 10)) as char
    }
}

/// The two small hexadecimal digits of a byte.
pub open spec fn hex_byte(b: u8) -> Seq<char> {
    seq![hex_digit((b / 16) as nat), hex_digit((b % 16) as nat)]
}

/// The small hexadecimal digits of a byte string, two for each byte.
pub open spec fn hex(bytes: Seq<u8>) -> Seq<char> {
    bytes.flat_map(|b: u8| hex_byte(b))
}

/// The small hexadecimal digit of a number below 16.
fn hex_char(d: u8) -> (res: char)
    requires
        d < 16,
    ensures
        res == hex_digit(d as nat),
{
    if d < 10 {
        digit_char(d)
    } else {
        (97 + (d - 10)) as char
    }
}

/// The small hexadecimal digits of `bytes`, two for each byte.
pub fn hex_string(bytes: &[u8]) -> (res: String)
    ensures
        res@ == hex(bytes@),
{
    let mut res = String::new();
    assert(res@ =~= hex(bytes@.take(0)));
    for i in 0..bytes.len()
        invariant
            res@ == hex(bytes@.take(i as int)),
    {
        let b = bytes[i];
        res.push(hex_char(b / 16));
        res.push(hex_char(b % 16));
        proof {
            bytes@.lemma_flat_map_take_append(|b: u8| hex_byte(b), i as int);
            assert(res@ =~= hex(bytes@.take(i as int)) + hex_byte(b));
        }
    }
    assert(bytes@.take(bytes@.len() as int) =~= bytes@);
    res
}

} // verus!
