//! What trimming, splitting, and writing and reading numbers come to.
use vstd::prelude::*;

use crate::text::{
    all_digits, ascii_alphanumeric, ascii_lowered, ascii_uppered, comma_pieces, control, decimal,
    digit, digits_value, hex, hex_byte, joined, lemma_blank_trimmed, lemma_joined_pieces,
    lemma_pieces_free, lemma_pieces_nonempty, lemma_trimmed_ends, parsed_i64, parsed_unsigned,
    pieces, trimmed, trimmed_end, trimmed_option, white_space, words,
};

verus! {

// ---------------------------------------------------------------------------
// Trimming
// ---------------------------------------------------------------------------
/// A trimmed text is a part of the text: only white space stands before it, only white
/// space after it, and it neither starts nor ends with any.
pub proof fn lemma_trimmed(s: Seq<char>) -> (range: (int, int))
    ensures
        0 <= range.0 <= range.1 <= s.len(),
        trimmed(s) == s.subrange(range.0, range.1),
        forall|i: int| 0 <= i < range.0 ==> white_space(#[trigger] s[i]),
        forall|i: int| range.1 <= i < s.len() ==> white_space(#[trigger] s[i]),
        range.0 < range.1 ==> !white_space(s[range.0]) && !white_space(s[range.1 - 1]),
    decreases s.len(),
{
    lemma_trimmed_ends(s);
    if s.len() > 0 && white_space(s[0]) {
        let rest = s.drop_first();
        let inner = lemma_trimmed(rest);
        assert forall|i: int| 0 <= i < inner.0 + 1 implies white_space(#[trigger] s[i]) by {
            if i > 0 {
                assert(rest[i - 1] == s[i]);
            }
        }
        assert forall|i: int| inner.1 + 1 <= i < s.len() implies white_space(#[trigger] s[i]) by {
            assert(rest[i - 1] == s[i]);
        }
        assert(s.subrange(inner.0 + 1, inner.1 + 1) =~= rest.subrange(inner.0, inner.1));
        assert(trimmed(s) == trimmed(rest));
        if inner.0 < inner.1 {
            assert(rest[inner.0] == s[inner.0 + 1]);
            assert(rest[inner.1 - 1] == s[inner.1]);
        }
        (inner.0 + 1, inner.1 + 1)
    } else {
        let end = lemma_trimmed_end(s);
        assert(s.take(end) =~= s.subrange(0, end));
        if end > 0 {
            assert(trimmed(s)[0] == s[0]);
            assert(trimmed(s).last() == s[end - 1]);
        }
        (0, end)
    }
}

proof fn lemma_trimmed_end(s: Seq<char>) -> (end: int)
    ensures
        0 <= end <= s.len(),
        trimmed_end(s) == s.take(end),
        forall|i: int| end <= i < s.len() ==> white_space(#[trigger] s[i]),
    decreases s.len(),
{
    if s.len() > 0 && white_space(s.last()) {
        let rest = s.drop_last();
        let end = lemma_trimmed_end(rest);
        assert(rest.take(end) =~= s.take(end));
        assert forall|i: int| end <= i < s.len() implies white_space(#[trigger] s[i]) by {
            if i < rest.len() {
                assert(rest[i] == s[i]);
            }
        }
        end
    } else {
        assert(s.take(s.len() as int) =~= s);
        s.len() as int
    }
}

/// An optional setting counts exactly if it is there and not all white space, and it
/// counts trimmed.
pub proof fn lemma_trimmed_option(value: Option<Seq<char>>)
    ensures
        trimmed_option(value) is Some <==> value is Some && exists|i: int|
            0 <= i < value->0.len() && !white_space(#[trigger] value->0[i]),
        trimmed_option(value) is Some ==> trimmed_option(value) == Some(trimmed(value->0)),
{
    if let Some(text) = value {
        lemma_blank_trimmed(text);
    }
}

/// There are twenty-five white space characters.
pub proof fn lemma_white_space(c: char)
    ensures
        white_space(c) <==> seq![
            0x9int,
            0xa,
            0xb,
            0xc,
            0xd,
            0x20,
            0x85,
            0xa0,
            0x1680,
            0x2000,
            0x2001,
            0x2002,
            0x2003,
            0x2004,
            0x2005,
            0x2006,
            0x2007,
            0x2008,
            0x2009,
            0x200a,
            0x2028,
            0x2029,
            0x202f,
            0x205f,
            0x3000,
        ].contains(c as int),
{
    let all = seq![
        0x9int,
        0xa,
        0xb,
        0xc,
        0xd,
        0x20,
        0x85,
        0xa0,
        0x1680,
        0x2000,
        0x2001,
        0x2002,
        0x2003,
        0x2004,
        0x2005,
        0x2006,
        0x2007,
        0x2008,
        0x2009,
        0x200a,
        0x2028,
        0x2029,
        0x202f,
        0x205f,
        0x3000,
    ];
    if white_space(c) {
        let n = c as int;
        let i: int = if n <= 0xd {
            n - 0x9
        } else if n == 0x20 {
            5
        } else if n == 0x85 {
            6
        } else if n == 0xa0 {
            7
        } else if n == 0x1680 {
            8
        } else if n <= 0x200a {
            9 + n - 0x2000
        } else if n == 0x2028 {
            20
        } else if n == 0x2029 {
            21
        } else if n == 0x202f {
            22
        } else if n == 0x205f {
            23
        } else {
            24
        };
        assert(all[i] == n);
    }
}

/// The control characters are those below the space, the delete character and the
/// thirty-two after it.
pub proof fn lemma_control(c: char)
    ensures
        control(c) <==> (c as int) < 0x20 || 0x7f <= c as int <= 0x9f,
{
}

// ---------------------------------------------------------------------------
// Letters
// ---------------------------------------------------------------------------
/// Making letters small, or capital, keeps the length and changes just the ASCII letters
/// of the other case, each by the distance of 32 that ASCII has between the two.
pub proof fn lemma_letter_case(s: Seq<char>)
    ensures
        ascii_lowered(s).len() == s.len(),
        ascii_uppered(s).len() == s.len(),
        forall|i: int|
            0 <= i < s.len() ==> #[trigger] ascii_lowered(s)[i] as int == if 'A' <= s[i] <= 'Z' {
                s[i] as int + 32
            } else {
                s[i] as int
            },
        forall|i: int|
            0 <= i < s.len() ==> #[trigger] ascii_uppered(s)[i] as int == if 'a' <= s[i] <= 'z' {
                s[i] as int - 32
            } else {
                s[i] as int
            },
{
}

/// The ASCII letters and digits are those from `a` to `z`, from `A` to `Z` and from `0`
/// to `9`.
pub proof fn lemma_alphanumeric(c: char)
    ensures
        ascii_alphanumeric(c) <==> 0x61 <= c as int <= 0x7a || 0x41 <= c as int <= 0x5a || 0x30
            <= c as int <= 0x39,
{
}

// ---------------------------------------------------------------------------
// Splitting
// ---------------------------------------------------------------------------
/// The pieces between the commas hold no comma, and joined with commas they are the text
/// again.
pub proof fn lemma_comma_pieces(s: Seq<char>)
    ensures
        joined(comma_pieces(s), seq![',']) == s,
        comma_pieces(s).len() >= 1,
        forall|i: int|
            0 <= i < comma_pieces(s).len() ==> !(#[trigger] comma_pieces(s)[i]).contains(','),
{
    let is_sep = |c: char| c == ',';
    lemma_joined_pieces(s, ',');
    lemma_pieces_nonempty(s, is_sep);
    assert forall|i: int| 0 <= i < comma_pieces(s).len() implies !(#[trigger] comma_pieces(
        s,
    )[i]).contains(',') by {
        if comma_pieces(s)[i].contains(',') {
            lemma_pieces_free(s, is_sep, i, ',');
        }
    }
}

/// White space parts words: the words of a text with white space somewhere in it are
/// those before it and then those after it.
pub proof fn lemma_words_apart(before: Seq<char>, space: char, after: Seq<char>)
    requires
        white_space(space),
    ensures
        words(before + seq![space] + after) == words(before) + words(after),
{
    let is_sep = |c: char| white_space(c);
    let is_word = |w: Seq<char>| w.len() > 0;
    lemma_pieces_apart(before, space, after, is_sep);
    Seq::filter_distributes_over_add(pieces(before, is_sep), pieces(after, is_sep), is_word);
}

/// A text without white space is one word, and nothing has no words.
pub proof fn lemma_one_word(s: Seq<char>)
    requires
        forall|i: int| 0 <= i < s.len() ==> !white_space(#[trigger] s[i]),
    ensures
        s.len() > 0 ==> words(s) == seq![s],
        s.len() == 0 ==> words(s).len() == 0,
{
    let is_sep = |c: char| white_space(c);
    let is_word = |w: Seq<char>| w.len() > 0;
    reveal(Seq::filter);
    lemma_one_piece(s, is_sep);
    assert(seq![s].drop_last() =~= Seq::<Seq<char>>::empty());
    assert(seq![s].last() == s);
    assert(Seq::<Seq<char>>::empty().filter(is_word) =~= Seq::empty());
    if s.len() > 0 {
        assert(seq![s].filter(is_word) =~= seq![s]);
    }
}

proof fn lemma_one_piece(s: Seq<char>, is_sep: spec_fn(char) -> bool)
    requires
        forall|i: int| 0 <= i < s.len() ==> !is_sep(#[trigger] s[i]),
    ensures
        pieces(s, is_sep) == seq![s],
    decreases s.len(),
{
    if s.len() > 0 {
        let front = s.drop_last();
        assert forall|i: int| 0 <= i < front.len() implies !is_sep(#[trigger] front[i]) by {
            assert(front[i] == s[i]);
        }
        lemma_one_piece(front, is_sep);
        assert(!is_sep(s[s.len() - 1]));
        assert(front.push(s.last()) =~= s);
        assert(pieces(s, is_sep) =~= seq![s]);
    } else {
        assert(s =~= Seq::empty());
    }
}

proof fn lemma_pieces_apart(
    before: Seq<char>,
    mark: char,
    after: Seq<char>,
    is_sep: spec_fn(char) -> bool,
)
    requires
        is_sep(mark),
    ensures
        pieces(before + seq![mark] + after, is_sep) == pieces(before, is_sep) + pieces(
            after,
            is_sep,
        ),
    decreases after.len(),
{
    let s = before + seq![mark] + after;
    lemma_pieces_nonempty(after, is_sep);
    if after.len() == 0 {
        assert(s.drop_last() =~= before);
        assert(s.last() == mark);
        assert(pieces(s, is_sep) =~= pieces(before, is_sep) + pieces(after, is_sep));
    } else {
        let front = after.drop_last();
        lemma_pieces_apart(before, mark, front, is_sep);
        lemma_pieces_nonempty(front, is_sep);
        assert(s.drop_last() =~= before + seq![mark] + front);
        assert(s.last() == after.last());
        let so_far = pieces(before, is_sep) + pieces(front, is_sep);
        assert(so_far.last() == pieces(front, is_sep).last());
        assert(pieces(s, is_sep) =~= pieces(before, is_sep) + pieces(after, is_sep));
    }
}

/// The words of a text whose words stand apart by single spaces, joined by single spaces,
/// are the text.
pub proof fn lemma_words_joined(s: Seq<char>)
    requires
        forall|i: int| 0 <= i < s.len() && white_space(#[trigger] s[i]) ==> s[i] == ' ',
        forall|i: int, j: int|
            0 <= i && j == i + 1 && j < s.len() ==> !(white_space(#[trigger] s[i]) && white_space(
                #[trigger] s[j],
            )),
        s.len() > 0 ==> !white_space(s[0]) && !white_space(s.last()),
    ensures
        joined(words(s), seq![' ']) == s,
        s.len() > 0 ==> words(s).len() > 0,
{
    let is_sep = |c: char| white_space(c);
    let is_word = |w: Seq<char>| w.len() > 0;
    let is_space = |c: char| c == ' ';
    lemma_same_pieces(s);
    lemma_joined_pieces(s, ' ');
    let all = pieces(s, is_sep);
    lemma_pieces_nonempty(s, is_sep);
    if s.len() > 0 {
        lemma_full_pieces(s);
        assert forall|i: int| 0 <= i < all.len() implies is_word(#[trigger] all[i]) by {}
        lemma_filter_full(all);
    } else {
        lemma_one_word(s);
        assert(words(s) =~= Seq::empty());
        assert(s =~= Seq::empty());
    }
}

proof fn lemma_filter_full(all: Seq<Seq<char>>)
    requires
        forall|i: int| 0 <= i < all.len() ==> (#[trigger] all[i]).len() > 0,
    ensures
        all.filter(|w: Seq<char>| w.len() > 0) == all,
    decreases all.len(),
{
    let is_word = |w: Seq<char>| w.len() > 0;
    reveal(Seq::filter);
    if all.len() > 0 {
        let front = all.drop_last();
        assert forall|i: int| 0 <= i < front.len() implies (#[trigger] front[i]).len() > 0 by {
            assert(front[i] == all[i]);
        }
        lemma_filter_full(front);
        assert(all[all.len() - 1].len() > 0);
        assert(front.push(all.last()) =~= all);
    } else {
        assert(all.filter(is_word) =~= all);
    }
}

proof fn lemma_same_pieces(s: Seq<char>)
    requires
        forall|i: int| 0 <= i < s.len() && white_space(#[trigger] s[i]) ==> s[i] == ' ',
    ensures
        pieces(s, |c: char| white_space(c)) == pieces(s, |c: char| c == ' '),
    decreases s.len(),
{
    if s.len() > 0 {
        let front = s.drop_last();
        assert forall|i: int| 0 <= i < front.len() && white_space(#[trigger] front[i]) implies
            front[i] == ' ' by {
            assert(front[i] == s[i]);
        }
        lemma_same_pieces(front);
        assert(white_space(s[s.len() - 1]) <==> s[s.len() - 1] == ' ');
    }
}

proof fn lemma_full_pieces(s: Seq<char>)
    requires
        s.len() > 0,
        !white_space(s[0]),
        forall|i: int, j: int|
            0 <= i && j == i + 1 && j < s.len() ==> !(white_space(#[trigger] s[i]) && white_space(
                #[trigger] s[j],
            )),
    ensures
        ({
            let all = pieces(s, |c: char| white_space(c));
            &&& forall|i: int| 0 <= i < all.len() - 1 ==> (#[trigger] all[i]).len() > 0
            &&& all.last().len() == 0 <==> white_space(s.last())
            &&& all.len() >= 1
        }),
    decreases s.len(),
{
    let is_sep = |c: char| white_space(c);
    let all = pieces(s, is_sep);
    let front = s.drop_last();
    let before = pieces(front, is_sep);
    lemma_pieces_nonempty(front, is_sep);
    if front.len() > 0 {
        assert forall|i: int, j: int| 0 <= i && j == i + 1 && j < front.len() implies !(
        white_space(#[trigger] front[i]) && white_space(#[trigger] front[j])) by {
            assert(front[i] == s[i]);
            assert(front[j] == s[j]);
        }
        lemma_full_pieces(front);
        assert(front.last() == s[s.len() - 2]);
        assert(s.last() == s[s.len() - 1]);
        assert forall|i: int| 0 <= i < all.len() - 1 implies (#[trigger] all[i]).len() > 0 by {
            assert(all[i] == before[i]);
        }
    } else {
        assert(s.last() == s[0]);
        assert(front =~= Seq::empty());
    }
}

// ---------------------------------------------------------------------------
// Numbers
// ---------------------------------------------------------------------------
/// A number in decimal notation is made of digits, without a zero in front unless it is
/// zero, and each digit counts ten times as much as the one after it: what the notation
/// denotes is the number.
pub proof fn lemma_decimal(n: nat)
    ensures
        decimal(n).len() >= 1,
        all_digits(decimal(n)),
        digits_value(decimal(n)) == n,
        n > 0 ==> decimal(n)[0] != '0',
    decreases n,
{
    if n < 10 {
        assert(decimal(n).last() == digit(n));
        assert(decimal(n).drop_last() =~= Seq::empty());
        assert(digits_value(Seq::<char>::empty()) == 0);
    } else {
        lemma_decimal(n / 10);
        let front = decimal(n / 10);
        assert(decimal(n).drop_last() =~= front);
        assert(decimal(n).last() == digit(n % 10));
        assert forall|i: int| 0 <= i < decimal(n).len() implies '0' <= #[trigger] decimal(n)[i]
            <= '9' by {
            if i < front.len() {
                assert(decimal(n)[i] == front[i]);
            }
        }
        assert(decimal(n)[0] == front[0]);
    }
}

/// One more digit makes a number ten times as large, and adds the digit; no digits are
/// worth nothing.
pub proof fn lemma_digits(s: Seq<char>, c: char)
    requires
        '0' <= c <= '9',
    ensures
        digits_value(Seq::<char>::empty()) == 0,
        digits_value(s.push(c)) == 10 * digits_value(s) + (c as int - 0x30),
{
    assert(s.push(c).drop_last() =~= s);
}

/// A number in decimal notation, with or without a plus sign, is read as the number, if
/// that is within the limit, and else not at all.
pub proof fn lemma_parse_unsigned(n: nat, max: nat)
    ensures
        parsed_unsigned(decimal(n), max) == if n <= max {
            Some(n)
        } else {
            None
        },
        parsed_unsigned(seq!['+'] + decimal(n), max) == if n <= max {
            Some(n)
        } else {
            None
        },
{
    lemma_decimal(n);
    assert('0' <= decimal(n)[0] <= '9');
    assert((seq!['+'] + decimal(n)).drop_first() =~= decimal(n));
}

/// A text is read as a number only if something stands in it after an optional sign, and
/// that is made of digits.
pub proof fn lemma_parse_digits_only(s: Seq<char>, max: nat, i: int)
    requires
        0 <= i < s.len(),
        !('0' <= s[i] <= '9'),
    ensures
        i > 0 || s[0] != '+' || s.len() == 1 ==> parsed_unsigned(s, max) is None,
        i > 0 || s[0] != '+' && s[0] != '-' || s.len() == 1 ==> parsed_i64(s) is None,
{
    if s[0] == '+' || s[0] == '-' {
        let rest = s.drop_first();
        if i > 0 {
            assert(rest[i - 1] == s[i]);
        }
    }
}

/// An integer in decimal notation, with a minus sign if it is negative, is read as the
/// integer, if that is within the range of `i64`, and else not at all.
pub proof fn lemma_parse_i64(n: nat)
    ensures
        parsed_i64(decimal(n)) == if n <= 0x7fff_ffff_ffff_ffff {
            Some(n as int)
        } else {
            None
        },
        parsed_i64(seq!['-'] + decimal(n)) == if n <= 0x8000_0000_0000_0000 {
            Some(-(n as int))
        } else {
            None
        },
{
    lemma_parse_unsigned(n, i64::MAX as nat);
    lemma_decimal(n);
    assert('0' <= decimal(n)[0] <= '9');
    assert((seq!['-'] + decimal(n)).drop_first() =~= decimal(n));
}

/// What a small hexadecimal digit is worth.
pub open spec fn hex_value(c: char) -> int {
    if '0' <= c <= '9' {
        c as int - 0x30
    } else {
        c as int - 0x61 + 10
    }
}

/// Each byte has two small hexadecimal digits, the first worth sixteen times the second,
/// in the order of the bytes.
pub proof fn lemma_hex(bytes: Seq<u8>)
    ensures
        hex(bytes).len() == 2 * bytes.len(),
        forall|i: int|
            0 <= i < hex(bytes).len() ==> '0' <= #[trigger] hex(bytes)[i] <= '9' || 'a' <= hex(
                bytes,
            )[i] <= 'f',
        forall|i: int|
            0 <= i < bytes.len() ==> #[trigger] bytes[i] == 16 * hex_value(hex(bytes)[2 * i])
                + hex_value(hex(bytes)[2 * i + 1]),
    decreases bytes.len(),
{
    let f = |b: u8| hex_byte(b);
    if bytes.len() > 0 {
        let front = bytes.drop_last();
        let b = bytes.last();
        lemma_hex(front);
        front.lemma_flat_map_push(f, b);
        assert(front.push(b) =~= bytes);
        assert(hex(bytes) == hex(front) + hex_byte(b));
        assert forall|i: int| 0 <= i < bytes.len() implies #[trigger] bytes[i] == 16 * hex_value(
            hex(bytes)[2 * i],
        ) + hex_value(hex(bytes)[2 * i + 1]) by {
            if i < front.len() {
                assert(front[i] == bytes[i]);
                assert(hex(bytes)[2 * i] == hex(front)[2 * i]);
                assert(hex(bytes)[2 * i + 1] == hex(front)[2 * i + 1]);
            } else {
                assert(hex(bytes)[2 * i] == hex_byte(b)[0]);
                assert(hex(bytes)[2 * i + 1] == hex_byte(b)[1]);
            }
        }
        assert forall|i: int| 0 <= i < hex(bytes).len() implies '0' <= #[trigger] hex(bytes)[i]
            <= '9' || 'a' <= hex(bytes)[i] <= 'f' by {
            if i < hex(front).len() {
                assert(hex(bytes)[i] == hex(front)[i]);
            } else {
                assert(hex(bytes)[i] == hex_byte(b)[i - hex(front).len()]);
            }
        }
    } else {
        assert(hex(bytes) =~= Seq::empty());
    }
}

} // verus!
