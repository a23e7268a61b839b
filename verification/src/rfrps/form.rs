//! Form fields of the dashboard's login.

use vstd::prelude::*;
use vstd::utf8::*;

use super::basic::lemma_encode_concat;
use crate::text::{
    cut, decode_text, from_chars, law_ascii_splits_text, pieces, same, split, split_once, text_of,
    to_chars,
};

verus! {

/// The value of a hexadecimal digit.
pub open spec fn hex_value(b: u8) -> Option<u8> {
    if 0x30 <= b <= 0x39 {
        Some((b - 0x30) as u8)
    } else if 0x61 <= b <= 0x66 {
        Some((b - 0x61 + 10) as u8)
    } else if 0x41 <= b <= 0x46 {
        Some((b - 0x41 + 10) as u8)
    } else {
        None
    }
}

/// Executable form of [`hex_value`].
fn hex(b: u8) -> (r: Option<u8>)
    ensures
        r == hex_value(b),
        r matches Some(h) ==> h < 16,
{
    if 0x30 <= b && b <= 0x39 {
        Some(b - 0x30)
    } else if 0x61 <= b && b <= 0x66 {
        Some(b - 0x61 + 10)
    } else if 0x41 <= b && b <= 0x46 {
        Some(b - 0x41 + 10)
    } else {
        None
    }
}

/// Whether `b` begins with a percent sign and two hexadecimal digits.
pub open spec fn escape_leads(b: Seq<u8>) -> bool {
    b.len() > 2 && b[0] == 0x25 && hex_value(b[1]) is Some && hex_value(b[2]) is Some
}

/// Form bytes without their escapes: a plus sign is a space, `%XX` is a byte, and
/// anything else stands for itself.
pub open spec fn unescaped(b: Seq<u8>) -> Seq<u8>
    decreases b.len(),
{
    if b.len() == 0 {
        Seq::empty()
    } else if b[0] == 0x2b {
        seq![0x20u8] + unescaped(b.skip(1))
    } else if escape_leads(b) {
        seq![(hex_value(b[1])->0 * 16 + hex_value(b[2])->0) as u8] + unescaped(b.skip(3))
    } else {
        seq![b[0]] + unescaped(b.skip(1))
    }
}

/// The text that a form text stands for.
pub open spec fn form_text(s: Seq<char>) -> Seq<char> {
    text_of(unescaped(encode_utf8(s)))
}

/// Decodes a form text.
pub fn percent_decode(s: &str) -> (r: String)
    ensures
        r@ == form_text(s@),
{
    let bytes = s.as_bytes();
    let n: usize = bytes.len();
    let ghost all = bytes@;
    let mut out: Vec<u8> = Vec::new();
    let mut i: usize = 0;
    assert(all.skip(0) =~= all);
    assert(out@ + unescaped(all.skip(0)) =~= unescaped(all));
    while i < n
        invariant
            i <= n == all.len(),
            all == bytes@,
            out@ + unescaped(all.skip(i as int)) == unescaped(all),
        decreases n - i,
    {
        let ghost rest = all.skip(i as int);
        let ghost before = out@;
        let b: u8 = bytes[i];
        assert(rest[0] == b);
        let (byte, step): (u8, usize) = if b == 0x2b {
            (0x20, 1)
        } else if b == 0x25 && n - i > 2 {
            assert(rest[1] == all[i + 1] && rest[2] == all[i + 2]);
            match (hex(bytes[i + 1]), hex(bytes[i + 2])) {
                (Some(h), Some(l)) => (h * 16 + l, 3),
                _ => (0x25, 1),
            }
        } else {
            (b, 1)
        };
        out.push(byte);
        assert(rest.skip(step as int) =~= all.skip(i + step));
        assert(unescaped(rest) == seq![byte] + unescaped(all.skip(i + step)));
        assert(before + (seq![byte] + unescaped(all.skip(i + step))) =~= before.push(byte)
            + unescaped(all.skip(i + step)));
        i += step;
    }
    assert(all.skip(i as int) =~= Seq::<u8>::empty());
    assert(out@ =~= unescaped(all));
    decode_text(out.as_slice())
}

/// User name and password after one more field of the form; a field without an
/// equals sign, or with another name, changes nothing.
pub open spec fn with_field(
    fields: (Seq<char>, Seq<char>),
    field: Seq<char>,
) -> (Seq<char>, Seq<char>) {
    match cut(field, '=') {
        Some((k, v)) => {
            let key = form_text(k);
            if key == "user"@ || key == "username"@ {
                (form_text(v), fields.1)
            } else if key == "password"@ || key == "pass"@ {
                (fields.0, form_text(v))
            } else {
                fields
            }
        },
        None => fields,
    }
}

/// User name and password that the fields give, a later one before an earlier.
pub open spec fn login_fields(fields: Seq<Seq<char>>) -> (Seq<char>, Seq<char>)
    decreases fields.len(),
{
    if fields.len() == 0 {
        (Seq::empty(), Seq::empty())
    } else {
        with_field(login_fields(fields.drop_last()), fields.last())
    }
}

/// User name and password of a login form.
pub open spec fn login_form(body: Seq<u8>) -> (Seq<char>, Seq<char>) {
    login_fields(pieces(text_of(body), '&'))
}

/// Reads user name and password from a login form.
pub fn parse_login_form(body: &[u8]) -> (r: (String, String))
    ensures
        (r.0@, r.1@) == login_form(body@),
{
    let text = decode_text(body);
    let parts = split(&to_chars(text.as_str()), '&');
    let ghost view = |v: Vec<char>| v@;
    let ghost fields = parts@.map_values(view);
    let mut user = String::new();
    let mut pass = String::new();
    let mut i: usize = 0;
    while i < parts.len()
        invariant
            i <= parts@.len(),
            view == (|v: Vec<char>| v@),
            fields == parts@.map_values(view),
            (user@, pass@) == login_fields(fields.take(i as int)),
        decreases parts@.len() - i,
    {
        assert(fields.take(i + 1).drop_last() =~= fields.take(i as int));
        assert(fields.take(i + 1).last() == parts@[i as int]@);
        if let Some((k, v)) = split_once(&parts[i], '=') {
            let key = percent_decode(from_chars(&k).as_str());
            let value = from_chars(&v);
            if same(key.as_str(), "user") || same(key.as_str(), "username") {
                user = percent_decode(value.as_str());
            } else if same(key.as_str(), "password") || same(key.as_str(), "pass") {
                pass = percent_decode(value.as_str());
            }
        }
        i += 1;
    }
    assert(fields.take(i as int) =~= fields);
    (user, pass)
}

/// Bytes without plus and percent signs stand for themselves.
pub proof fn law_plain_bytes_stay(b: Seq<u8>)
    requires
        forall|i: int| 0 <= i < b.len() ==> #[trigger] b[i] != 0x2b && b[i] != 0x25,
    ensures
        unescaped(b) == b,
    decreases b.len(),
{
    if b.len() > 0 {
        law_plain_bytes_stay(b.skip(1));
        assert(seq![b[0]] + b.skip(1) =~= b);
    } else {
        assert(unescaped(b) =~= b);
    }
}

/// The two hexadecimal digits of a byte, behind a percent sign, stand for it.
pub proof fn law_escape_stands_for_byte(hi: u8, lo: u8, rest: Seq<u8>)
    requires
        hex_value(hi) is Some,
        hex_value(lo) is Some,
    ensures
        unescaped(seq![0x25u8, hi, lo] + rest) == seq![
            (hex_value(hi)->0 * 16 + hex_value(lo)->0) as u8,
        ] + unescaped(rest),
{
    let b = seq![0x25u8, hi, lo] + rest;
    assert(b.skip(3) =~= rest);
}

/// A plus sign between two runs of bytes stands for a space between what they stand
/// for.
pub proof fn law_plus_byte_is_space(a: Seq<u8>, b: Seq<u8>)
    ensures
        unescaped(a + seq![0x2bu8] + b) == unescaped(a) + seq![0x20u8] + unescaped(b),
    decreases a.len(),
{
    let s = a + seq![0x2bu8] + b;
    if a.len() == 0 {
        assert(s.skip(1) =~= b);
        assert(unescaped(s) =~= unescaped(a) + seq![0x20u8] + unescaped(b));
    } else {
        let step: int = if a[0] != 0x2b && escape_leads(a) {
            3
        } else {
            1
        };
        assert(escape_leads(s) == escape_leads(a));
        assert(s.skip(step) =~= a.skip(step) + seq![0x2bu8] + b);
        law_plus_byte_is_space(a.skip(step), b);
        assert(unescaped(s) =~= unescaped(a) + seq![0x20u8] + unescaped(b));
    }
}

/// A plus sign between two texts stands for a space between what they stand for.
pub proof fn law_plus_is_space(a: Seq<char>, b: Seq<char>)
    ensures
        form_text(a + seq!['+'] + b) == form_text(a) + seq![' '] + form_text(b),
{
    lemma_ascii_byte('+');
    lemma_encode_concat(a + seq!['+'], b);
    lemma_encode_concat(a, seq!['+']);
    law_plus_byte_is_space(encode_utf8(a), encode_utf8(b));
    law_ascii_splits_text(unescaped(encode_utf8(a)), 0x20, unescaped(encode_utf8(b)));
}

/// An ASCII character is one byte.
proof fn lemma_ascii_byte(c: char)
    requires
        (c as u32) < 0x80,
    ensures
        encode_utf8(seq![c]) == seq![c as u8],
{
    assert(is_ascii_chars(seq![c]));
    is_ascii_chars_encode_utf8(seq![c]);
    assert(encode_utf8(seq![c]) =~= seq![c as u8]);
}

/// The bytes of a character other than plus and percent signs are no such signs.
proof fn lemma_no_sign_in_bytes(c: char)
    requires
        c != '+' && c != '%',
    ensures
        forall|i: int|
            0 <= i < encode_scalar(c as u32).len() ==> #[trigger] encode_scalar(c as u32)[i] != 0x2b
                && encode_scalar(c as u32)[i] != 0x25,
{
    let u = c as u32;
    char_u32_cast(c, u);
    char_u32_cast('+', 0x2b);
    char_u32_cast('%', 0x25);
    assert(u != 0x2b && u != 0x25);
    if u < 0x80 {
        assert(u < 0x80 ==> (u & 0x7f) == u) by (bit_vector);
    } else {
        assert(forall|b: u8| #[trigger] (0xc0u8 | b) >= 0x80) by (bit_vector);
        assert(forall|b: u8| #[trigger] (0xe0u8 | b) >= 0x80) by (bit_vector);
        assert(forall|b: u8| #[trigger] (0xf0u8 | b) >= 0x80) by (bit_vector);
        assert(forall|b: u8| #[trigger] (0x80u8 | b) >= 0x80) by (bit_vector);
    }
}

/// The bytes of a text without plus and percent signs are no such signs.
proof fn lemma_no_sign_in_text(s: Seq<char>)
    requires
        !s.contains('+') && !s.contains('%'),
    ensures
        forall|i: int|
            0 <= i < encode_utf8(s).len() ==> #[trigger] encode_utf8(s)[i] != 0x2b && encode_utf8(
                s,
            )[i] != 0x25,
    decreases s.len(),
{
    if s.len() > 0 {
        let rest = s.drop_first();
        assert forall|c: char| rest.contains(c) implies s.contains(c) by {
            let j = choose|j: int| 0 <= j < rest.len() && rest[j] == c;
            assert(s[j + 1] == c);
        }
        assert(s.contains(s[0]));
        lemma_no_sign_in_bytes(s[0]);
        lemma_no_sign_in_text(rest);
        let first = encode_scalar(s[0] as u32);
        assert(encode_utf8(s) == first + encode_utf8(rest));
        assert forall|i: int| 0 <= i < encode_utf8(s).len() implies #[trigger] encode_utf8(s)[i]
            != 0x2b && encode_utf8(s)[i] != 0x25 by {
            if i < first.len() {
                assert(encode_utf8(s)[i] == first[i]);
            } else {
                assert(encode_utf8(s)[i] == encode_utf8(rest)[i - first.len()]);
            }
        }
    }
}

/// A text without plus and percent signs stands for itself.
pub proof fn law_plain_text_stays(s: Seq<char>)
    requires
        !s.contains('+') && !s.contains('%'),
    ensures
        form_text(s) == s,
{
    lemma_no_sign_in_text(s);
    law_plain_bytes_stay(encode_utf8(s));
    encode_utf8_valid_utf8(s);
    encode_utf8_decode_utf8(s);
}

/// Whether `e` is a way to write the bytes `b` in a form: each as itself, unless it is
/// a plus or a percent sign, a space also as a plus sign, and any as `%XX`.
pub open spec fn encodes(e: Seq<u8>, b: Seq<u8>) -> bool
    decreases b.len(),
{
    if b.len() == 0 {
        e.len() == 0
    } else {
        ||| e.len() > 0 && e[0] == b[0] && e[0] != 0x25 && e[0] != 0x2b && encodes(
            e.skip(1),
            b.skip(1),
        )
        ||| e.len() > 0 && e[0] == 0x2b && b[0] == 0x20 && encodes(e.skip(1), b.skip(1))
        ||| escape_leads(e) && b[0] == hex_value(e[1])->0 * 16 + hex_value(e[2])->0 && encodes(
            e.skip(3),
            b.skip(1),
        )
    }
}

/// Bytes are read from a form as they were written, in whichever way.
pub proof fn law_encoded_bytes_decode(e: Seq<u8>, b: Seq<u8>)
    requires
        encodes(e, b),
    ensures
        unescaped(e) == b,
    decreases b.len(),
{
    if b.len() == 0 {
        assert(unescaped(e) =~= b);
    } else {
        if e[0] == 0x25 {
            law_encoded_bytes_decode(e.skip(3), b.skip(1));
        } else {
            law_encoded_bytes_decode(e.skip(1), b.skip(1));
        }
        assert(unescaped(e) =~= seq![b[0]] + b.skip(1));
        assert(seq![b[0]] + b.skip(1) =~= b);
    }
}

/// A text is read from a form as it was written: where `s` is a way to write the
/// bytes of `t`, it stands for `t`.
pub proof fn law_encoded_text_decodes(s: Seq<char>, t: Seq<char>)
    requires
        encodes(encode_utf8(s), encode_utf8(t)),
    ensures
        form_text(s) == t,
{
    law_encoded_bytes_decode(encode_utf8(s), encode_utf8(t));
    encode_utf8_valid_utf8(t);
    encode_utf8_decode_utf8(t);
}

/// Whether a blank line begins at `i`: two line ends in a row.
pub open spec fn blank_line_at(b: Seq<u8>, i: int) -> bool {
    0 <= i && i + 4 <= b.len() && b[i] == 13 && b[i + 1] == 10 && b[i + 2] == 13 && b[i + 3] == 10
}

/// Where the body begins in the bytes of a request: behind the first blank line, or
/// at the end where there is none.
pub open spec fn is_body_start(b: Seq<u8>, start: int) -> bool {
    ||| 4 <= start && blank_line_at(b, start - 4) && forall|i: int|
        0 <= i < start - 4 ==> !#[trigger] blank_line_at(b, i)
    ||| start == b.len() && forall|i: int| !#[trigger] blank_line_at(b, i)
}

/// Executable form of [`is_body_start`].
pub fn body_start(head: &[u8]) -> (r: usize)
    ensures
        r <= head@.len(),
        is_body_start(head@, r as int),
{
    let n: usize = head.len();
    let mut i: usize = 0;
    while i < n && n - i >= 4
        invariant
            i <= n == head@.len(),
            forall|j: int| 0 <= j < i ==> !#[trigger] blank_line_at(head@, j),
        decreases n - i,
    {
        if head[i] == 13 && head[i + 1] == 10 && head[i + 2] == 13 && head[i + 3] == 10 {
            assert(blank_line_at(head@, i as int));
            return i + 4;
        }
        i += 1;
    }
    n
}

/// The bytes of all chunks in a row.
pub open spec fn joined(chunks: Seq<Seq<u8>>) -> Seq<u8>
    decreases chunks.len(),
{
    if chunks.len() == 0 {
        Seq::empty()
    } else {
        joined(chunks.drop_last()) + chunks.last()
    }
}

/// The first `n` bytes of `b`, or all where there are fewer.
pub open spec fn at_most(b: Seq<u8>, n: nat) -> Seq<u8> {
    if b.len() <= n {
        b
    } else {
        b.take(n as int)
    }
}

/// The body of a request: what came behind the head, then what was read after it,
/// up to the announced length.
pub fn read_body(head: &[u8], content_length: usize, chunks: &Vec<Vec<u8>>) -> (r: Vec<u8>)
    ensures
        exists|start: int| #[trigger]
            is_body_start(head@, start) && 0 <= start <= head@.len() && r@ == at_most(
                head@.skip(start) + joined(chunks.deep_view()),
                content_length as nat,
            ),
{
    let start: usize = body_start(head);
    let n: usize = head.len();
    let mut body: Vec<u8> = Vec::new();
    let mut i: usize = start;
    while i < n && body.len() < content_length
        invariant
            start <= i <= n == head@.len(),
            body@ == head@.subrange(start as int, i as int),
            body@.len() <= content_length,
        decreases n - i,
    {
        body.push(head[i]);
        i += 1;
        assert(body@ =~= head@.subrange(start as int, i as int));
    }
    let ghost rest = head@.skip(start as int);
    let ghost all = chunks.deep_view();
    assert(body@ =~= at_most(rest + joined(all.take(0)), content_length as nat));
    let mut k: usize = 0;
    while k < chunks.len()
        invariant
            k <= chunks@.len(),
            all == chunks.deep_view(),
            body@ == at_most(rest + joined(all.take(k as int)), content_length as nat),
        decreases chunks@.len() - k,
    {
        let ghost before = rest + joined(all.take(k as int));
        let chunk = &chunks[k];
        let mut j: usize = 0;
        assert(before + chunk@.take(0) =~= before);
        while j < chunk.len()
            invariant
                j <= chunk@.len(),
                body@ == at_most(before + chunk@.take(j as int), content_length as nat),
            decreases chunk@.len() - j,
        {
            let ghost b0 = body@;
            let ghost s0 = before + chunk@.take(j as int);
            let ghost s1 = before + chunk@.take(j + 1);
            assert(s1 =~= s0.push(chunk@[j as int]));
            if body.len() < content_length {
                body.push(chunk[j]);
                assert(b0 =~= s0);
            } else {
                assert(s1.take(content_length as int) =~= s0.take(content_length as int));
                assert(s0.len() == content_length ==> s0.take(content_length as int) =~= s0);
            }
            assert(body@ =~= at_most(s1, content_length as nat));
            j += 1;
        }
        assert(chunk@.take(j as int) =~= chunk@);
        assert(chunk.deep_view() =~= chunk@);
        assert(all.take(k + 1).drop_last() =~= all.take(k as int));
        assert(all.take(k + 1).last() == chunk.deep_view());
        assert(rest + joined(all.take(k + 1)) =~= before + chunk@);
        k += 1;
    }
    assert(all.take(k as int) =~= all);
    body
}

/// A field of a login form sets the user name or the password by its name, decoded; a
/// later one replaces an earlier, and a field of another name changes nothing.
pub proof fn law_form_field_is_read(fields: Seq<Seq<char>>, key: Seq<char>, value: Seq<char>)
    requires
        !key.contains('='),
        !key.contains('+') && !key.contains('%'),
    ensures
        ({
            let b = login_fields(fields);
            let r = login_fields(fields.push(key + seq!['='] + value));
            &&& key == "user"@ || key == "username"@ ==> r == (form_text(value), b.1)
            &&& key == "password"@ || key == "pass"@ ==> r == (b.0, form_text(value))
            &&& key != "user"@ && key != "username"@ && key != "password"@ && key != "pass"@ ==> r
                == b
        }),
{
    let field = key + seq!['='] + value;
    assert(fields.push(field).drop_last() =~= fields);
    crate::text::law_pieces_are_cut(key, '=', value);
    law_plain_text_stays(key);
    reveal_strlit("user");
    reveal_strlit("username");
    reveal_strlit("password");
    reveal_strlit("pass");
    assert("user"@.len() == 4 && "username"@.len() == 8 && "password"@.len() == 8 && "pass"@.len()
        == 4);
    assert("user"@[0] == 'u' && "username"@[0] == 'u' && "password"@[0] == 'p' && "pass"@[0]
        == 'p');
}

/// A body has its announced length, or what there is of it.
pub proof fn law_body_is_bounded(b: Seq<u8>, n: nat)
    ensures
        at_most(b, n).is_prefix_of(b),
        at_most(b, n).len() == (if b.len() <= n {
            b.len()
        } else {
            n
        }),
{
}

/// Chunks are put together in the order in which they came.
pub proof fn law_chunks_are_joined(a: Seq<Seq<u8>>, b: Seq<Seq<u8>>, c: Seq<u8>)
    ensures
        joined(a + b) == joined(a) + joined(b),
        joined(seq![c]) == c,
    decreases b.len(),
{
    let one = seq![c];
    assert(one.drop_last() =~= Seq::empty());
    assert(joined(one.drop_last()) =~= Seq::empty());
    assert(joined(one) =~= c);
    if b.len() == 0 {
        assert(a + b =~= a);
        assert(joined(a) + joined(b) =~= joined(a));
    } else {
        assert((a + b).drop_last() =~= a + b.drop_last());
        law_chunks_are_joined(a, b.drop_last(), c);
        assert(joined(a + b) =~= joined(a) + joined(b));
    }
}

/// The body of a request begins behind the first blank line.
pub proof fn law_body_is_behind_the_head(
    request: Seq<u8>,
    head: Seq<u8>,
    body: Seq<u8>,
    start: int,
)
    requires
        request == head + seq![13u8, 10, 13, 10] + body,
        forall|i: int| 0 <= i < head.len() ==> !#[trigger] blank_line_at(request, i),
        is_body_start(request, start),
    ensures
        start == head.len() + 4,
        request.skip(start) == body,
{
    assert(blank_line_at(request, head.len() as int));
    if start - 4 < head.len() {
        assert(!blank_line_at(request, start - 4));
    }
    assert(request.skip(start) =~= body);
}

} // verus!
