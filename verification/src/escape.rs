//! Encodings that let any text stand inside a URL, a markup document or a
//! quoted search phrase.
use vstd::prelude::*;
use vstd::utf8::{decode_utf8, encode_utf8, encode_utf8_decode_utf8};

verus! {

// ---------------------------------------------------------------------------
// application/x-www-form-urlencoded
// ---------------------------------------------------------------------------
/// The capital hexadecimal digit of a number below 16.
pub open spec fn upper_hex_digit(d: nat) -> char {
    if d < 10 {
        ('0' as u32 + d) as char
    } else {
        ('A' as u32 + (d - 10)) as char
    }
}

/// The bytes that stand for themselves in the form encoding.
pub open spec fn form_unchanged(b: u8) -> bool {
    ||| 0x30 <= b <= 0x39
    ||| 0x41 <= b <= 0x5a
    ||| 0x61 <= b <= 0x7a
    ||| b == 0x2a
    ||| b == 0x2d
    ||| b == 0x2e
    ||| b == 0x5f
}

/// A byte in the form encoding: letters, digits and `*-._` as they are, a
/// space as a plus sign, any other byte as a percent sign and two digits.
pub open spec fn form_byte(b: u8) -> Seq<char> {
    if form_unchanged(b) {
        seq![b as char]
    } else if b == 0x20 {
        seq!['+']
    } else {
        seq!['%', upper_hex_digit((b / 16) as nat), upper_hex_digit((b % 16) as nat)]
    }
}

/// A byte string in the form encoding.
pub open spec fn form_encoded_bytes(bytes: Seq<u8>) -> Seq<char> {
    bytes.flat_map(|b: u8| form_byte(b))
}

/// A text in the form encoding, which works on its UTF-8 bytes.
pub open spec fn form_encoded(s: Seq<char>) -> Seq<char> {
    form_encoded_bytes(encode_utf8(s))
}

/// `url::form_urlencoded::byte_serialize`, with its slices put together: each
/// byte in the form encoding.
#[verifier::external_body]
pub(crate) fn byte_serialize(bytes: &[u8]) -> (res: String)
    ensures
        res@ == form_encoded_bytes(bytes@),
{
    url::form_urlencoded::byte_serialize(bytes).collect()
}

/// `url::form_urlencoded::Serializer::append_pair` on a serializer that was
/// made for the given string: an ampersand if the string is not empty, then the
/// name and the value in the form encoding with an equals sign between them.
#[verifier::external_body]
pub(crate) fn append_pair(query: String, name: &str, value: &str) -> (res: String)
    ensures
        res@ == query@ + (if query@.len() > 0 {
            seq!['&']
        } else {
            Seq::<char>::empty()
        }) + form_encoded(name@) + seq!['='] + form_encoded(value@),
{
    url::form_urlencoded::Serializer::new(query).append_pair(name, value).finish()
}

// ---------------------------------------------------------------------------
// Markup
// ---------------------------------------------------------------------------
/// A character in text or in a quoted attribute value of a markup document.
pub open spec fn markup_char(c: char) -> Seq<char> {
    if c == '&' {
        "&amp;"@
    } else if c == '<' {
        "&lt;"@
    } else if c == '>' {
        "&gt;"@
    } else if c == '"' {
        "&quot;"@
    } else if c == '\'' {
        "&#x27;"@
    } else if c == '/' {
        "&#x2F;"@
    } else {
        seq![c]
    }
}

/// A text in which the six characters that markup gives a meaning are replaced
/// by entities.
pub open spec fn markup_escaped(s: Seq<char>) -> Seq<char> {
    s.flat_map(|c: char| markup_char(c))
}

/// `html_escape::encode_safe`: the text with `&`, `<`, `>`, `"`, `'` and `/`
/// each replaced by its entity and every other character kept.
#[verifier::external_body]
pub(crate) fn encode_safe(s: &str) -> (res: String)
    ensures
        res@ == markup_escaped(s@),
{
    html_escape::encode_safe(s).into_owned()
}

// ---------------------------------------------------------------------------
// Quoted phrases
// ---------------------------------------------------------------------------
/// A character inside a double-quoted search phrase.
pub open spec fn quoted_char(c: char) -> Seq<char> {
    if c == '\\' || c == '"' {
        seq!['\\', c]
    } else {
        seq![c]
    }
}

/// A text with a backslash before each of its backslashes and double quotes.
pub open spec fn quote_escaped(s: Seq<char>) -> Seq<char> {
    s.flat_map(|c: char| quoted_char(c))
}

/// `value` with a backslash before each of its backslashes and double quotes.
pub fn escape_quotes(value: &str) -> (res: String)
    ensures
        res@ == quote_escaped(value@),
{
    let mut res = String::new();
    assert(res@ =~= quote_escaped(value@.take(0)));
    for c in it: value.chars()
        invariant
            it.seq() == value@,
            res@ == quote_escaped(it.seq().take(it.index())),
    {
        if c == '\\' || c == '"' {
            res.push('\\');
        }
        res.push(c);
        proof {
            value@.lemma_flat_map_take_append(|c: char| quoted_char(c), it.index());
            assert(res@ =~= quote_escaped(value@.take(it.index())) + quoted_char(c));
        }
    }
    assert(value@.take(value@.len() as int) =~= value@);
    res
}

/// A text with each plus sign replaced by `%20`.
pub open spec fn plus_as_space(s: Seq<char>) -> Seq<char> {
    s.flat_map(|c: char| if c == '+' { "%20"@ } else { seq![c] })
}

/// `s` with each plus sign replaced by `%20`.
pub fn replace_plus(s: &str) -> (res: String)
    ensures
        res@ == plus_as_space(s@),
{
    let ghost f = |c: char| if c == '+' { "%20"@ } else { seq![c] };
    let mut res = String::new();
    assert(res@ =~= s@.take(0).flat_map(f));
    for c in it: s.chars()
        invariant
            it.seq() == s@,
            f == (|c: char| if c == '+' { "%20"@ } else { seq![c] }),
            res@ == it.seq().take(it.index()).flat_map(f),
    {
        let ghost before = res@;
        if c == '+' {
            res.append("%20");
        } else {
            res.push(c);
        }
        proof {
            s@.lemma_flat_map_take_append(f, it.index());
            assert(res@ =~= before + f(c));
        }
    }
    assert(s@.take(s@.len() as int) =~= s@);
    res
}

// ---------------------------------------------------------------------------
// Laws
// ---------------------------------------------------------------------------
/// A sequence that is made piece by piece starts with its first piece.
proof fn lemma_flat_map_first<A, B>(s: Seq<A>, f: spec_fn(A) -> Seq<B>)
    requires
        s.len() > 0,
    ensures
        s.flat_map(f) == f(s[0]) + s.drop_first().flat_map(f),
{
    assert(s.map_values(f).drop_first() =~= s.drop_first().map_values(f));
}

/// What holds of every piece holds of the sequence that is made of them.
proof fn lemma_flat_map_all<A, B>(s: Seq<A>, f: spec_fn(A) -> Seq<B>, p: spec_fn(B) -> bool)
    requires
        forall|k: int, i: int|
            0 <= k < s.len() && 0 <= i < f(s[k]).len() ==> p(#[trigger] f(s[k])[i]),
    ensures
        forall|i: int| 0 <= i < s.flat_map(f).len() ==> p(#[trigger] s.flat_map(f)[i]),
    decreases s.len(),
{
    if s.len() > 0 {
        lemma_flat_map_first(s, f);
        let tail = s.drop_first();
        assert forall|k: int, i: int| 0 <= k < tail.len() && 0 <= i < f(tail[k]).len() implies p(
            #[trigger] f(tail[k])[i],
        ) by {
            assert(tail[k] == s[k + 1]);
            assert(p(f(s[k + 1])[i]));
        }
        lemma_flat_map_all(tail, f, p);
        let first = f(s[0]);
        let rest = tail.flat_map(f);
        assert forall|i: int| 0 <= i < s.flat_map(f).len() implies p(
            #[trigger] s.flat_map(f)[i],
        ) by {
            if i < first.len() {
                assert((first + rest)[i] == f(s[0])[i]);
            } else {
                assert((first + rest)[i] == rest[i - first.len()]);
            }
        }
    }
}

/// The characters that have a meaning in markup, but for the ampersand, which
/// starts the entities.
pub open spec fn markup_meaning(c: char) -> bool {
    c == '<' || c == '>' || c == '"' || c == '\'' || c == '/'
}

/// Escaped text holds no character that could end the text or the attribute value
/// that it stands in.
pub proof fn lemma_markup_inert(s: Seq<char>, i: int)
    requires
        0 <= i < markup_escaped(s).len(),
    ensures
        !markup_meaning(markup_escaped(s)[i]),
{
    let f = |c: char| markup_char(c);
    let p = |c: char| !markup_meaning(c);
    lemma_entities();
    lemma_flat_map_all(s, f, p);
}

proof fn lemma_entities()
    ensures
        "&amp;"@ == seq!['&', 'a', 'm', 'p', ';'],
        "&lt;"@ == seq!['&', 'l', 't', ';'],
        "&gt;"@ == seq!['&', 'g', 't', ';'],
        "&quot;"@ == seq!['&', 'q', 'u', 'o', 't', ';'],
        "&#x27;"@ == seq!['&', '#', 'x', '2', '7', ';'],
        "&#x2F;"@ == seq!['&', '#', 'x', '2', 'F', ';'],
{
    reveal_strlit("&amp;");
    reveal_strlit("&lt;");
    reveal_strlit("&gt;");
    reveal_strlit("&quot;");
    reveal_strlit("&#x27;");
    reveal_strlit("&#x2F;");
    assert("&amp;"@ =~= seq!['&', 'a', 'm', 'p', ';']);
    assert("&lt;"@ =~= seq!['&', 'l', 't', ';']);
    assert("&gt;"@ =~= seq!['&', 'g', 't', ';']);
    assert("&quot;"@ =~= seq!['&', 'q', 'u', 'o', 't', ';']);
    assert("&#x27;"@ =~= seq!['&', '#', 'x', '2', '7', ';']);
    assert("&#x2F;"@ =~= seq!['&', '#', 'x', '2', 'F', ';']);
}

/// Escaping loses nothing: different texts are escaped differently.
pub proof fn lemma_markup_injective(a: Seq<char>, b: Seq<char>)
    requires
        markup_escaped(a) == markup_escaped(b),
    ensures
        a == b,
    decreases a.len(),
{
    let f = |c: char| markup_char(c);
    lemma_entities();
    if a.len() > 0 {
        lemma_flat_map_first(a, f);
    } else {
        assert(markup_escaped(a) =~= Seq::empty());
    }
    if b.len() > 0 {
        lemma_flat_map_first(b, f);
    } else {
        assert(markup_escaped(b) =~= Seq::empty());
    }
    if a.len() > 0 && b.len() > 0 {
        let whole = markup_escaped(a);
        let rest_a = markup_escaped(a.drop_first());
        let rest_b = markup_escaped(b.drop_first());
        assert(whole == f(a[0]) + rest_a);
        assert(whole == f(b[0]) + rest_b);
        assert(whole[0] == f(a[0])[0]);
        assert(whole[0] == f(b[0])[0]);
        if whole[0] == '&' {
            assert(whole[1] == f(a[0])[1]);
            assert(whole[1] == f(b[0])[1]);
            if whole[1] == '#' {
                assert(whole[4] == f(a[0])[4]);
                assert(whole[4] == f(b[0])[4]);
            }
        }
        assert(a[0] == b[0]);
        assert(whole.skip(f(a[0]).len() as int) =~= rest_a);
        assert(whole.skip(f(a[0]).len() as int) =~= rest_b);
        lemma_markup_injective(a.drop_first(), b.drop_first());
        assert(a =~= seq![a[0]] + a.drop_first());
        assert(b =~= seq![b[0]] + b.drop_first());
    }
}

/// What a reader finds in a quoted phrase, from after the opening quote on: the
/// text up to the closing quote, and what follows it.
pub open spec fn read_quoted(s: Seq<char>) -> Option<(Seq<char>, Seq<char>)>
    decreases s.len(),
{
    if s.len() == 0 {
        None
    } else if s[0] == '"' {
        Some((Seq::empty(), s.skip(1)))
    } else if s[0] == '\\' {
        if s.len() < 2 {
            None
        } else {
            match read_quoted(s.skip(2)) {
                Some((text, rest)) => Some((seq![s[1]] + text, rest)),
                None => None,
            }
        }
    } else {
        match read_quoted(s.skip(1)) {
            Some((text, rest)) => Some((seq![s[0]] + text, rest)),
            None => None,
        }
    }
}

/// A quoted phrase ends where it is meant to end, and is read as it was written,
/// whatever it holds.
pub proof fn lemma_quoted_read_back(value: Seq<char>, rest: Seq<char>)
    ensures
        read_quoted(quote_escaped(value) + seq!['"'] + rest) == Some((value, rest)),
    decreases value.len(),
{
    let f = |c: char| quoted_char(c);
    let s = quote_escaped(value) + seq!['"'] + rest;
    if value.len() == 0 {
        assert(quote_escaped(value) =~= Seq::empty());
        assert(s.skip(1) =~= rest);
        assert(value =~= Seq::empty());
    } else {
        lemma_flat_map_first(value, f);
        let c = value[0];
        let tail = value.drop_first();
        lemma_quoted_read_back(tail, rest);
        assert(s.skip(quoted_char(c).len() as int) =~= quote_escaped(tail) + seq!['"'] + rest);
        assert(s[0] == quoted_char(c)[0]);
        if c == '\\' || c == '"' {
            assert(s[1] == quoted_char(c)[1]);
        }
        assert(seq![c] + tail =~= value);
    }
}

/// The characters of the form encoding.
pub open spec fn form_char(c: char) -> bool {
    ||| '0' <= c <= '9'
    ||| 'A' <= c <= 'Z'
    ||| 'a' <= c <= 'z'
    ||| c == '*'
    ||| c == '-'
    ||| c == '.'
    ||| c == '_'
    ||| c == '+'
    ||| c == '%'
}

/// Text in the form encoding holds no character that could end the name or the
/// value that it stands for.
pub proof fn lemma_form_inert(s: Seq<char>, i: int)
    requires
        0 <= i < form_encoded(s).len(),
    ensures
        form_char(form_encoded(s)[i]),
{
    let f = |b: u8| form_byte(b);
    let p = |c: char| form_char(c);
    lemma_flat_map_all(encode_utf8(s), f, p);
}

/// A search phrase in a path holds no character that could end its segment, nor a
/// plus sign.
pub proof fn lemma_path_inert(s: Seq<char>, i: int)
    requires
        0 <= i < plus_as_space(form_encoded(s)).len(),
    ensures
        form_char(plus_as_space(form_encoded(s))[i]),
        plus_as_space(form_encoded(s))[i] != '+',
{
    let f = |c: char|
        if c == '+' {
            "%20"@
        } else {
            seq![c]
        };
    let p = |c: char| form_char(c) && c != '+';
    let encoded = form_encoded(s);
    assert forall|k: int, j: int| 0 <= k < encoded.len() && 0 <= j < f(encoded[k]).len() implies p(
        #[trigger] f(encoded[k])[j],
    ) by {
        lemma_form_inert(s, k);
        reveal_strlit("%20");
    }
    lemma_flat_map_all(encoded, f, p);
}

/// The number that a capital hexadecimal digit denotes.
pub open spec fn upper_hex_value(c: char) -> int {
    if '0' <= c <= '9' {
        c as u32 - '0' as u32
    } else {
        c as u32 - 'A' as u32 + 10
    }
}

/// The bytes that a text in the form encoding stands for.
pub open spec fn form_decoded_bytes(s: Seq<char>) -> Seq<u8>
    decreases s.len(),
{
    if s.len() == 0 {
        Seq::empty()
    } else if s[0] == '%' && s.len() >= 3 {
        seq![(16 * upper_hex_value(s[1]) + upper_hex_value(s[2])) as u8] + form_decoded_bytes(
            s.skip(3),
        )
    } else if s[0] == '+' {
        seq![0x20u8] + form_decoded_bytes(s.skip(1))
    } else {
        seq![s[0] as u8] + form_decoded_bytes(s.skip(1))
    }
}

/// The form encoding loses nothing: the text can be read back from it.
pub proof fn lemma_form_read_back(s: Seq<char>)
    ensures
        decode_utf8(form_decoded_bytes(form_encoded(s))) == s,
{
    lemma_form_bytes_read_back(encode_utf8(s));
    encode_utf8_decode_utf8(s);
}

proof fn lemma_form_bytes_read_back(bytes: Seq<u8>)
    ensures
        form_decoded_bytes(form_encoded_bytes(bytes)) == bytes,
    decreases bytes.len(),
{
    let f = |b: u8| form_byte(b);
    let s = form_encoded_bytes(bytes);
    if bytes.len() == 0 {
        assert(s =~= Seq::empty());
        assert(bytes =~= Seq::empty());
    } else {
        lemma_flat_map_first(bytes, f);
        let b = bytes[0];
        let tail = bytes.drop_first();
        lemma_form_bytes_read_back(tail);
        assert(s.skip(form_byte(b).len() as int) =~= form_encoded_bytes(tail));
        assert(s[0] == form_byte(b)[0]);
        if !form_unchanged(b) && b != 0x20 {
            assert(s[1] == form_byte(b)[1]);
            assert(s[2] == form_byte(b)[2]);
            assert(upper_hex_value(upper_hex_digit((b / 16) as nat)) == b / 16);
            assert(upper_hex_value(upper_hex_digit((b % 16) as nat)) == b % 16);
        }
        assert(seq![b] + tail =~= bytes);
    }
}

/// A search phrase in a path can be read back from it.
pub proof fn lemma_path_read_back(s: Seq<char>)
    ensures
        decode_utf8(form_decoded_bytes(plus_as_space(form_encoded(s)))) == s,
{
    lemma_path_bytes_read_back(encode_utf8(s));
    encode_utf8_decode_utf8(s);
}

proof fn lemma_path_bytes_read_back(bytes: Seq<u8>)
    ensures
        form_decoded_bytes(plus_as_space(form_encoded_bytes(bytes))) == bytes,
    decreases bytes.len(),
{
    let f = |b: u8| form_byte(b);
    let g = |c: char|
        if c == '+' {
            "%20"@
        } else {
            seq![c]
        };
    let s = form_encoded_bytes(bytes);
    let t = plus_as_space(s);
    reveal_strlit("%20");
    if bytes.len() == 0 {
        assert(s =~= Seq::empty());
        assert(t =~= Seq::empty());
        assert(bytes =~= Seq::empty());
    } else {
        lemma_flat_map_first(bytes, f);
        let b = bytes[0];
        let tail = bytes.drop_first();
        let rest = form_encoded_bytes(tail);
        lemma_path_bytes_read_back(tail);
        assert(s == form_byte(b) + rest);
        lemma_flat_map_first(s, g);
        if form_unchanged(b) || b == 0x20 {
            assert(s.drop_first() =~= rest);
            if b == 0x20 {
                assert(t.skip(3) =~= plus_as_space(rest));
                assert(t[0] == '%' && t[1] == '2' && t[2] == '0');
            } else {
                assert(t.skip(1) =~= plus_as_space(rest));
                assert(t[0] == b as char);
            }
        } else {
            let s1 = s.drop_first();
            let s2 = s1.drop_first();
            lemma_flat_map_first(s1, g);
            lemma_flat_map_first(s2, g);
            assert(s2.drop_first() =~= rest);
            assert(s[0] == '%' && s1[0] == form_byte(b)[1] && s2[0] == form_byte(b)[2]);
            assert(t =~= seq![s[0]] + (seq![s1[0]] + (seq![s2[0]] + plus_as_space(rest))));
            assert(t.skip(3) =~= plus_as_space(rest));
            assert(t[1] == form_byte(b)[1] && t[2] == form_byte(b)[2]);
            assert(upper_hex_value(upper_hex_digit((b / 16) as nat)) == b / 16);
            assert(upper_hex_value(upper_hex_digit((b % 16) as nat)) == b % 16);
        }
        assert(seq![b] + tail =~= bytes);
    }
}

} // verus!
