//! Text helpers over the character sequence of a string.
//!
//! Strings are taken apart into `Vec<char>`, worked on there, and put together
//! again, so every contract speaks of `Seq<char>`.

use vstd::prelude::*;
use vstd::utf8::*;

verus! {

/// `String::push`: the character goes behind what the string holds.
pub assume_specification[ String::push ](s: &mut String, c: char)
    ensures
        final(s)@ == old(s)@.push(c),
;

/// The characters of `s`.
pub fn to_chars(s: &str) -> (r: Vec<char>)
    ensures
        r@ == s@,
{
    let mut out: Vec<char> = Vec::new();
    for c in it: s.chars()
        invariant
            out@ == it.seq().take(it.index()),
            it.seq() == s@,
    {
        out.push(c);
        assert(out@ == it.seq().take(it.index() + 1));
    }
    assert(out@ == s@);
    out
}

/// The string made of `chars[from..to]`.
pub fn from_range(chars: &Vec<char>, from: usize, to: usize) -> (r: String)
    requires
        from <= to <= chars@.len(),
    ensures
        r@ == chars@.subrange(from as int, to as int),
{
    let mut out = String::new();
    let mut i: usize = from;
    while i < to
        invariant
            from <= i <= to <= chars@.len(),
            out@ == chars@.subrange(from as int, i as int),
        decreases to - i,
    {
        out.push(chars[i]);
        i += 1;
        assert(out@ =~= chars@.subrange(from as int, i as int));
    }
    out
}

/// The string made of all of `chars`.
pub fn from_chars(chars: &Vec<char>) -> (r: String)
    ensures
        r@ == chars@,
{
    let r = from_range(chars, 0, chars.len());
    assert(chars@.subrange(0, chars@.len() as int) =~= chars@);
    r
}

/// Two texts with the same bytes are the same text.
pub proof fn lemma_encode_injective(a: Seq<char>, b: Seq<char>)
    requires
        encode_utf8(a) == encode_utf8(b),
    ensures
        a == b,
{
    encode_utf8_decode_utf8(a);
    encode_utf8_decode_utf8(b);
}

/// Whether two texts are equal.
pub fn same(a: &str, b: &str) -> (r: bool)
    ensures
        r == (a@ == b@),
{
    let x = a.as_bytes();
    let y = b.as_bytes();
    if x.len() != y.len() {
        return false;
    }
    let mut i: usize = 0;
    while i < x.len()
        invariant
            x@ == encode_utf8(a@),
            y@ == encode_utf8(b@),
            x@.len() == y@.len(),
            i <= x@.len(),
            forall|j: int| 0 <= j < i ==> x@[j] == y@[j],
        decreases x@.len() - i,
    {
        if x[i] != y[i] {
            return false;
        }
        i += 1;
    }
    assert(x@ =~= y@);
    proof {
        lemma_encode_injective(a@, b@);
    }
    true
}

/// Whether `c` has Unicode's `White_Space` property.
pub open spec fn is_white_space(c: char) -> bool {
    let n = c as u32;
    ||| 0x09 <= n <= 0x0d
    ||| n == 0x20
    ||| n == 0x85
    ||| n == 0xa0
    ||| n == 0x1680
    ||| 0x2000 <= n <= 0x200a
    ||| 0x2028 <= n <= 0x2029
    ||| n == 0x202f
    ||| n == 0x205f
    ||| n == 0x3000
}

/// Executable form of [`is_white_space`].
pub fn white_space(c: char) -> (r: bool)
    ensures
        r == is_white_space(c),
{
    let n: u32 = c as u32;
    (0x09 <= n && n <= 0x0d) || n == 0x20 || n == 0x85 || n == 0xa0 || n == 0x1680 || (0x2000 <= n
        && n <= 0x200a) || (0x2028 <= n && n <= 0x2029) || n == 0x202f || n == 0x205f || n == 0x3000
}

/// Whether some character of `s` is white space.
pub open spec fn has_white_space(s: Seq<char>) -> bool {
    exists|i: int| 0 <= i < s.len() && is_white_space(#[trigger] s[i])
}

/// `s` without leading white space.
pub open spec fn trimmed_start(s: Seq<char>) -> Seq<char>
    decreases s.len(),
{
    if s.len() > 0 && is_white_space(s[0]) {
        trimmed_start(s.skip(1))
    } else {
        s
    }
}

/// `s` without trailing white space.
pub open spec fn trimmed_end(s: Seq<char>) -> Seq<char>
    decreases s.len(),
{
    if s.len() > 0 && is_white_space(s.last()) {
        trimmed_end(s.drop_last())
    } else {
        s
    }
}

/// `s` without leading and trailing white space.
pub open spec fn trimmed(s: Seq<char>) -> Seq<char> {
    trimmed_end(trimmed_start(s))
}

/// Executable form of [`trimmed`].
pub fn trim(chars: &Vec<char>) -> (r: Vec<char>)
    ensures
        r@ == trimmed(chars@),
{
    let n: usize = chars.len();
    let mut i: usize = 0;
    assert(chars@.skip(0) =~= chars@);
    while i < n && white_space(chars[i])
        invariant
            i <= n == chars@.len(),
            trimmed_start(chars@) == trimmed_start(chars@.skip(i as int)),
        decreases n - i,
    {
        assert(chars@.skip(i as int).skip(1) =~= chars@.skip(i as int + 1));
        i += 1;
    }
    let ghost lead = chars@.skip(i as int);
    assert(trimmed_start(chars@) == lead);
    let mut j: usize = n;
    assert(chars@.subrange(i as int, n as int) =~= lead);
    while i < j && white_space(chars[j - 1])
        invariant
            i <= j <= n == chars@.len(),
            trimmed_end(lead) == trimmed_end(chars@.subrange(i as int, j as int)),
        decreases j,
    {
        assert(chars@.subrange(i as int, j as int).drop_last() =~= chars@.subrange(
            i as int,
            j as int - 1,
        ));
        j -= 1;
    }
    copy_range(chars, i, j)
}

/// The characters `chars[from..to]`.
pub fn copy_range(chars: &Vec<char>, from: usize, to: usize) -> (r: Vec<char>)
    requires
        from <= to <= chars@.len(),
    ensures
        r@ == chars@.subrange(from as int, to as int),
{
    let mut out: Vec<char> = Vec::new();
    let mut i: usize = from;
    while i < to
        invariant
            from <= i <= to <= chars@.len(),
            out@ == chars@.subrange(from as int, i as int),
        decreases to - i,
    {
        out.push(chars[i]);
        i += 1;
        assert(out@ =~= chars@.subrange(from as int, i as int));
    }
    out
}

/// Where `c` first stands in `s`, if it does.
pub open spec fn first_index(s: Seq<char>, c: char) -> Option<int>
    decreases s.len(),
{
    if s.len() == 0 {
        None
    } else if s[0] == c {
        Some(0)
    } else {
        match first_index(s.skip(1), c) {
            Some(i) => Some(i + 1),
            None => None,
        }
    }
}

/// [`first_index`] is the first place, and `None` says there is none.
pub proof fn lemma_first_index(s: Seq<char>, c: char)
    ensures
        match first_index(s, c) {
            Some(i) => 0 <= i < s.len() && s[i] == c && forall|j: int|
                0 <= j < i ==> #[trigger] s[j] != c,
            None => forall|j: int| 0 <= j < s.len() ==> #[trigger] s[j] != c,
        },
    decreases s.len(),
{
    if s.len() > 0 && s[0] != c {
        let t = s.skip(1);
        lemma_first_index(t, c);
        match first_index(t, c) {
            Some(i) => {
                assert(s[i + 1] == t[i]);
                assert forall|j: int| 0 <= j < i + 1 implies #[trigger] s[j] != c by {
                    if j > 0 {
                        assert(t[j - 1] == s[j]);
                    }
                }
            },
            None => {
                assert forall|j: int| 0 <= j < s.len() implies #[trigger] s[j] != c by {
                    if j > 0 {
                        assert(t[j - 1] == s[j]);
                    }
                }
            },
        }
    }
}

/// Executable form of [`first_index`].
pub fn find(chars: &Vec<char>, c: char) -> (r: Option<usize>)
    ensures
        match r {
            Some(i) => i < chars@.len() && first_index(chars@, c) == Some(i as int),
            None => first_index(chars@, c) is None,
        },
{
    let mut i: usize = 0;
    proof {
        lemma_first_index(chars@, c);
    }
    while i < chars.len()
        invariant
            i <= chars@.len(),
            forall|j: int| 0 <= j < i ==> chars@[j] != c,
            match first_index(chars@, c) {
                Some(k) => 0 <= k < chars@.len() && chars@[k] == c && forall|j: int|
                    0 <= j < k ==> #[trigger] chars@[j] != c,
                None => forall|j: int| 0 <= j < chars@.len() ==> #[trigger] chars@[j] != c,
            },
        decreases chars@.len() - i,
    {
        if chars[i] == c {
            return Some(i);
        }
        i += 1;
    }
    None
}

/// `s` cut at the first `c`: what stands before it and what stands behind it.
pub open spec fn cut(s: Seq<char>, c: char) -> Option<(Seq<char>, Seq<char>)> {
    match first_index(s, c) {
        Some(i) => Some((s.take(i), s.skip(i + 1))),
        None => None,
    }
}

/// Executable form of [`cut`].
pub fn split_once(chars: &Vec<char>, c: char) -> (r: Option<(Vec<char>, Vec<char>)>)
    ensures
        match r {
            Some(p) => cut(chars@, c) == Some((p.0@, p.1@)),
            None => cut(chars@, c) is None,
        },
{
    match find(chars, c) {
        Some(i) => {
            let n: usize = chars.len();
            let a = copy_range(chars, 0, i);
            let b = copy_range(chars, i + 1, n);
            assert(a@ =~= chars@.take(i as int));
            assert(b@ =~= chars@.skip(i as int + 1));
            Some((a, b))
        },
        None => None,
    }
}

/// The pieces of `s` between its occurrences of `c`, in order; never none.
pub open spec fn pieces(s: Seq<char>, c: char) -> Seq<Seq<char>>
    decreases s.len(),
{
    match first_index(s, c) {
        Some(i) => if 0 <= i < s.len() {
            seq![s.take(i)] + pieces(s.skip(i + 1), c)
        } else {
            seq![s]
        },
        None => seq![s],
    }
}

/// Executable form of [`pieces`].
pub fn split(chars: &Vec<char>, c: char) -> (r: Vec<Vec<char>>)
    ensures
        r@.map_values(|v: Vec<char>| v@) == pieces(chars@, c),
{
    let mut out: Vec<Vec<char>> = Vec::new();
    let mut rest: Vec<char> = copy_range(chars, 0, chars.len());
    assert(rest@ =~= chars@);
    let ghost view = |v: Vec<char>| v@;
    assert(out@.map_values(view) + pieces(rest@, c) =~= pieces(chars@, c));
    loop
        invariant
            out@.map_values(view) + pieces(rest@, c) == pieces(chars@, c),
            view == (|v: Vec<char>| v@),
        decreases rest@.len(),
    {
        proof {
            lemma_first_index(rest@, c);
        }
        match split_once(&rest, c) {
            Some(p) => {
                let ghost before = out@.map_values(view);
                let ghost was = rest@;
                out.push(p.0);
                rest = p.1;
                assert(out@.map_values(view) =~= before.push(p.0@));
                assert(pieces(was, c) == seq![p.0@] + pieces(rest@, c));
                assert(out@.map_values(view) + pieces(rest@, c) =~= before + pieces(was, c));
            },
            None => {
                let ghost before = out@.map_values(view);
                let ghost last = rest@;
                out.push(rest);
                assert(out@.map_values(view) =~= before + seq![last]);
                return out;
            },
        }
    }
}

/// Whether `part` stands in `s` at index `at`.
pub open spec fn stands_at(s: Seq<char>, part: Seq<char>, at: int) -> bool {
    0 <= at && at + part.len() <= s.len() && s.subrange(at, at + part.len()) == part
}

/// Whether `part` stands somewhere in `s`.
pub open spec fn has_part(s: Seq<char>, part: Seq<char>) -> bool {
    exists|at: int| stands_at(s, part, at)
}

/// Whether `part` stands in `chars` at index `at`.
pub fn stands_here(chars: &Vec<char>, part: &Vec<char>, at: usize) -> (r: bool)
    ensures
        r == stands_at(chars@, part@, at as int),
{
    let n: usize = chars.len();
    let m: usize = part.len();
    if at > n || n - at < m {
        return false;
    }
    let mut i: usize = 0;
    while i < m
        invariant
            n == chars@.len(),
            m == part@.len(),
            at + m <= n,
            i <= m,
            forall|j: int| 0 <= j < i ==> chars@[at + j] == part@[j],
        decreases m - i,
    {
        if chars[at + i] != part[i] {
            assert(chars@.subrange(at as int, at + m)[i as int] != part@[i as int]);
            return false;
        }
        i += 1;
    }
    assert(chars@.subrange(at as int, at + m) =~= part@);
    true
}

/// Executable form of [`has_part`].
pub fn contains(chars: &Vec<char>, part: &str) -> (r: bool)
    ensures
        r == has_part(chars@, part@),
{
    let needle = to_chars(part);
    let n: usize = chars.len();
    let mut i: usize = 0;
    while i < n
        invariant
            n == chars@.len(),
            i <= n,
            needle@ == part@,
            forall|j: int| 0 <= j < i ==> !stands_at(chars@, part@, j),
        decreases n - i,
    {
        if stands_here(chars, &needle, i) {
            return true;
        }
        i += 1;
    }
    stands_here(chars, &needle, n)
}

/// Whether `chars` starts with `part`.
pub fn starts_with(chars: &Vec<char>, part: &str) -> (r: bool)
    ensures
        r == part@.is_prefix_of(chars@),
{
    let r = stands_here(chars, &to_chars(part), 0);
    assert(part@.len() <= chars@.len() ==> (chars@.subrange(0, part@.len() as int) =~= part@ <==> part@
        =~= chars@.subrange(0, part@.len() as int)));
    r
}

/// An ASCII capital letter becomes its small letter; anything else stays.
pub open spec fn lowered(c: char) -> char {
    if 'A' <= c && c <= 'Z' {
        ((c as u8) + 32) as u8 as char
    } else {
        c
    }
}

/// [`lowered`] on every character.
pub open spec fn ascii_lowered(s: Seq<char>) -> Seq<char> {
    s.map_values(|c: char| lowered(c))
}

/// Executable form of [`lowered`].
pub fn lower(c: char) -> (r: char)
    ensures
        r == lowered(c),
{
    if 'A' <= c && c <= 'Z' {
        let n: u8 = c as u8;
        (n + 32) as char
    } else {
        c
    }
}

/// Executable form of [`ascii_lowered`].
pub fn to_ascii_lowercase(chars: &Vec<char>) -> (r: Vec<char>)
    ensures
        r@ == ascii_lowered(chars@),
{
    let mut out: Vec<char> = Vec::new();
    let mut i: usize = 0;
    while i < chars.len()
        invariant
            i <= chars@.len(),
            out@ == ascii_lowered(chars@.take(i as int)),
        decreases chars@.len() - i,
    {
        out.push(lower(chars[i]));
        i += 1;
        assert(out@ =~= ascii_lowered(chars@.take(i as int)));
    }
    assert(chars@.take(i as int) =~= chars@);
    out
}

/// What `str::to_lowercase` makes of a text.
pub uninterp spec fn lowercase(s: Seq<char>) -> Seq<char>;

/// `str::to_lowercase`. Its result depends on the text alone; on ASCII text it
/// turns capital letters into small ones and keeps the rest. What Unicode does
/// with other characters is left unsaid.
#[verifier::external_body]
fn to_lowercase(s: &str) -> (r: String)
    ensures
        r@ == lowercase(s@),
        is_ascii_chars(s@) ==> r@ == ascii_lowered(s@),
{
    s.to_lowercase()
}

/// A text in lower case: what [`lowercase`] says, which on ASCII is known.
pub open spec fn folded(s: Seq<char>) -> Seq<char> {
    if is_ascii_chars(s) {
        ascii_lowered(s)
    } else {
        lowercase(s)
    }
}

/// Executable form of [`folded`].
pub fn fold_case(s: &str) -> (r: String)
    ensures
        r@ == folded(s@),
{
    to_lowercase(s)
}

/// `std::str::from_utf8`, as an owned string: `Some` exactly for valid UTF-8,
/// and the string then has those bytes.
#[verifier::external_body]
pub(crate) fn utf8_text(bytes: &[u8]) -> (r: Option<String>)
    ensures
        match r {
            Some(s) => valid_utf8(bytes@) && s@ == decode_utf8(bytes@),
            None => !valid_utf8(bytes@),
        },
{
    match std::str::from_utf8(bytes) {
        Ok(s) => Some(s.to_string()),
        Err(_) => None,
    }
}

/// What `String::from_utf8_lossy` makes of some bytes.
pub uninterp spec fn lossy(bytes: Seq<u8>) -> Seq<char>;

/// How many bytes stand before the first ASCII one; all where there is none.
pub open spec fn bytes_before_ascii(bytes: Seq<u8>) -> nat
    decreases bytes.len(),
{
    if bytes.len() == 0 || bytes[0] < 0x80 {
        0
    } else {
        1 + bytes_before_ascii(bytes.skip(1))
    }
}

/// Bytes as text: decoded where they are valid UTF-8. Else each ASCII byte is its
/// character, and what stands between two of them is text of its own; bytes without
/// an ASCII one give what [`lossy`] says.
pub open spec fn text_of(bytes: Seq<u8>) -> Seq<char>
    decreases bytes.len(),
{
    let n = bytes_before_ascii(bytes) as int;
    if valid_utf8(bytes) {
        decode_utf8(bytes)
    } else if n < bytes.len() {
        text_of(bytes.take(n)) + seq![bytes[n] as char] + text_of(bytes.skip(n + 1))
    } else {
        lossy(bytes)
    }
}

/// `String::from_utf8_lossy`, as an owned string. Its result depends on the bytes
/// alone. Valid UTF-8 is decoded as it stands, and only what is invalid is replaced:
/// an ASCII byte is a whole character wherever it stands and part of no longer one, so
/// it stays, and what is before it is decoded apart from what is behind it. How many
/// replacement characters an invalid run without ASCII bytes gives is left unsaid.
#[verifier::external_body]
fn utf8_lossy(bytes: &[u8]) -> (r: String)
    ensures
        r@ == lossy(bytes@),
        r@ == text_of(bytes@),
{
    String::from_utf8_lossy(bytes).into_owned()
}

/// Executable form of [`text_of`].
pub fn decode_text(bytes: &[u8]) -> (r: String)
    ensures
        r@ == text_of(bytes@),
{
    utf8_lossy(bytes)
}

/// The first ASCII byte of two runs with one between.
proof fn lemma_bytes_before_ascii(x: Seq<u8>, c: u8, y: Seq<u8>)
    requires
        c < 0x80,
    ensures
        bytes_before_ascii(x) <= x.len(),
        bytes_before_ascii(x + seq![c] + y) == bytes_before_ascii(x),
        bytes_before_ascii(x) < x.len() ==> x[bytes_before_ascii(x) as int] < 0x80,
    decreases x.len(),
{
    let w = x + seq![c] + y;
    if x.len() > 0 && x[0] >= 0x80 {
        assert(w.skip(1) =~= x.skip(1) + seq![c] + y);
        lemma_bytes_before_ascii(x.skip(1), c, y);
    }
}

/// Valid UTF-8 is decoded on both sides of an ASCII byte apart.
proof fn lemma_decode_around_ascii(x: Seq<u8>, c: u8, y: Seq<u8>)
    requires
        c < 0x80,
        valid_utf8(x + seq![c] + y),
    ensures
        valid_utf8(x),
        valid_utf8(y),
        decode_utf8(x + seq![c] + y) == decode_utf8(x) + seq![c as char] + decode_utf8(y),
{
    let w = x + seq![c] + y;
    let n = x.len() as int;
    assert(w[n] == c);
    is_char_boundary_iff_not_is_continuation_byte(w, n);
    valid_utf8_split(w, n);
    decode_utf8_split(w, n);
    let t = seq![c] + y;
    assert(w.subrange(0, n) =~= x);
    assert(w.subrange(n, w.len() as int) =~= t);
    assert(t[0] == c);
    assert(pop_first_scalar(t) =~= y);
    assert(c < 0x80 ==> ((c & 0x7f) as u32) == c as u32) by (bit_vector);
    assert(decode_utf8(t) =~= seq![c as char] + decode_utf8(y));
    assert(decode_utf8(x) + (seq![c as char] + decode_utf8(y)) =~= decode_utf8(x) + seq![
        c as char,
    ] + decode_utf8(y));
}

/// Bytes before an ASCII byte and bytes behind it are text apart from each other,
/// whether they are valid UTF-8 or not.
pub proof fn law_ascii_splits_text(x: Seq<u8>, c: u8, y: Seq<u8>)
    requires
        c < 0x80,
    ensures
        text_of(x + seq![c] + y) == text_of(x) + seq![c as char] + text_of(y),
    decreases x.len(),
{
    let w = x + seq![c] + y;
    if valid_utf8(w) {
        lemma_decode_around_ascii(x, c, y);
    } else {
        lemma_bytes_before_ascii(x, c, y);
        let n = bytes_before_ascii(x) as int;
        if n < x.len() {
            let head = x.take(n);
            let rest = x.skip(n + 1);
            assert(w.take(n) =~= head);
            assert(w.skip(n + 1) =~= rest + seq![c] + y);
            law_ascii_splits_text(rest, c, y);
            assert(x =~= head + seq![x[n]] + rest);
            if valid_utf8(x) {
                lemma_decode_around_ascii(head, x[n], rest);
            }
            let first = text_of(head) + seq![x[n] as char];
            assert(text_of(x) == first + text_of(rest));
            assert(w[n] == x[n]);
            assert(text_of(w) == first + text_of(rest + seq![c] + y));
            assert(first + (text_of(rest) + seq![c as char] + text_of(y)) =~= first + text_of(rest)
                + seq![c as char] + text_of(y));
        } else {
            assert(w.take(n) =~= x);
            assert(w.skip(n + 1) =~= y);
        }
    }
}

/// The digit of `d`, for `d` below ten.
pub open spec fn digit(d: nat) -> char {
    ((48 + d) as u8) as char
}

/// `n` in decimal, without leading zeros.
pub open spec fn decimal(n: nat) -> Seq<char>
    decreases n,
{
    if n < 10 {
        seq![digit(n)]
    } else {
        decimal(n / 10).push(digit(n % 10))
    }
}

/// `n` in decimal, with a minus sign where it is negative.
pub open spec fn signed_decimal(n: int) -> Seq<char> {
    if n < 0 {
        seq!['-'] + decimal((-n) as nat)
    } else {
        decimal(n as nat)
    }
}

/// Executable form of [`decimal`].
pub fn show(n: u64) -> (r: String)
    ensures
        r@ == decimal(n as nat),
    decreases n,
{
    let d: u8 = (n % 10) as u8;
    let c: char = (48 + d) as char;
    let mut r = if n < 10 {
        String::new()
    } else {
        show(n / 10)
    };
    r.push(c);
    assert(n < 10 ==> r@ =~= seq![digit(n as nat)]);
    r
}

/// A truth value as a number.
pub open spec fn flag_text(b: bool) -> Seq<char> {
    if b {
        "1"@
    } else {
        "0"@
    }
}

/// Executable form of [`flag_text`].
pub fn show_flag(b: bool) -> (r: &'static str)
    ensures
        r@ == flag_text(b),
{
    if b {
        "1"
    } else {
        "0"
    }
}

/// Executable form of [`signed_decimal`].
pub fn show_signed(n: i64) -> (r: String)
    ensures
        r@ == signed_decimal(n as int),
{
    if n < 0 {
        let m: u64 = if n == i64::MIN {
            0x8000_0000_0000_0000
        } else {
            (-n) as u64
        };
        let mut r = String::new();
        r.push('-');
        let d = show(m);
        r.append(d.as_str());
        assert(r@ =~= seq!['-'] + decimal(m as nat));
        r
    } else {
        show(n as u64)
    }
}

/// Whether `c` is one of `0` to `9`.
pub open spec fn is_digit(c: char) -> bool {
    '0' <= c && c <= '9'
}

/// The number that a run of digits writes.
pub open spec fn digits_value(s: Seq<char>) -> nat
    decreases s.len(),
{
    if s.len() == 0 {
        0
    } else {
        (digits_value(s.drop_last()) * 10 + (s.last() as u32 - 48)) as nat
    }
}

/// Whether every character is a digit.
pub open spec fn all_digits(s: Seq<char>) -> bool {
    forall|i: int| 0 <= i < s.len() ==> is_digit(#[trigger] s[i])
}

/// `s` without a leading plus sign.
pub open spec fn without_plus(s: Seq<char>) -> Seq<char> {
    if s.len() > 0 && s[0] == '+' {
        s.skip(1)
    } else {
        s
    }
}

/// The number that `s` writes: an optional plus sign, then one digit or more,
/// at most `usize::MAX`.
pub open spec fn parsed_usize(s: Seq<char>) -> Option<usize> {
    let d = without_plus(s);
    if d.len() > 0 && all_digits(d) && digits_value(d) <= usize::MAX {
        Some(digits_value(d) as usize)
    } else {
        None
    }
}

/// More digits write no smaller number.
proof fn lemma_digits_grow(s: Seq<char>, k: int)
    requires
        0 <= k <= s.len(),
        all_digits(s),
    ensures
        digits_value(s.take(k)) <= digits_value(s),
    decreases s.len() - k,
{
    if k < s.len() {
        let t = s.take(k + 1);
        assert(t.drop_last() =~= s.take(k));
        assert(t.last() == s[k]);
        lemma_digits_grow(s, k + 1);
    } else {
        assert(s.take(k) =~= s);
    }
}

/// Executable form of [`parsed_usize`].
pub fn parse_usize(chars: &Vec<char>) -> (r: Option<usize>)
    ensures
        r == parsed_usize(chars@),
{
    let n: usize = chars.len();
    let from: usize = if n > 0 && chars[0] == '+' {
        1
    } else {
        0
    };
    let ghost d = chars@.skip(from as int);
    assert(from == 0 ==> d =~= chars@);
    if from == n {
        return None;
    }
    let mut value: usize = 0;
    let mut i: usize = from;
    while i < n
        invariant
            n == chars@.len(),
            from <= i <= n,
            d == chars@.skip(from as int),
            d == without_plus(chars@),
            forall|j: int| 0 <= j < i - from ==> is_digit(#[trigger] d[j]),
            value == digits_value(d.take(i - from)),
        decreases n - i,
    {
        let c: char = chars[i];
        if c < '0' || '9' < c {
            assert(!is_digit(d[i - from]));
            return None;
        }
        let ghost t = d.take(i - from + 1);
        assert(t.drop_last() =~= d.take(i - from));
        assert(t.last() == c);
        proof {
            if all_digits(d) {
                lemma_digits_grow(d, i - from + 1);
            }
        }
        let digit: usize = (c as u32 - 48) as usize;
        let tens: usize = match value.checked_mul(10) {
            Some(v) => v,
            None => { return None; },
        };
        value = match tens.checked_add(digit) {
            Some(v) => v,
            None => { return None; },
        };
        i += 1;
    }
    assert(d.take(i - from) =~= d);
    Some(value)
}

/// A copy of an optional string.
pub fn copy_optional(s: &Option<String>) -> (r: Option<String>)
    ensures
        r.deep_view() == s.deep_view(),
{
    match s {
        Some(t) => Some(t.clone()),
        None => None,
    }
}

/// A copy of a list of strings.
pub fn copy_list(list: &Vec<String>) -> (r: Vec<String>)
    ensures
        r.deep_view() == list.deep_view(),
{
    let mut out: Vec<String> = Vec::new();
    let mut i: usize = 0;
    while i < list.len()
        invariant
            i <= list@.len(),
            out.deep_view() == list.deep_view().take(i as int),
        decreases list@.len() - i,
    {
        let ghost before = out.deep_view();
        out.push(list[i].clone());
        i += 1;
        assert(out.deep_view() =~= before.push(list@[i - 1].deep_view()));
        assert(out.deep_view() =~= list.deep_view().take(i as int));
    }
    assert(list.deep_view().take(i as int) =~= list.deep_view());
    out
}

/// The digits of a number write that number.
proof fn lemma_digits_of_decimal(n: nat)
    ensures
        decimal(n).len() > 0,
        all_digits(decimal(n)),
        digits_value(decimal(n)) == n,
    decreases n,
{
    let s = decimal(n);
    if n < 10 {
        assert(s.drop_last() =~= Seq::empty());
        assert(digits_value(s.drop_last()) == 0);
        assert(s[0] == digit(n) && digit(n) as u32 == 48 + n);
    } else {
        lemma_digits_of_decimal(n / 10);
        let d = decimal(n / 10);
        assert(s.drop_last() =~= d);
        assert(s.last() == digit(n % 10) && digit(n % 10) as u32 == 48 + n % 10);
        assert forall|i: int| 0 <= i < s.len() implies is_digit(#[trigger] s[i]) by {
            if i < d.len() {
                assert(s[i] == d[i]);
            }
        }
    }
}

/// A number is read as it was written, with or without a plus sign.
pub proof fn law_number_is_read_back(n: usize)
    ensures
        parsed_usize(decimal(n as nat)) == Some(n),
        parsed_usize(seq!['+'] + decimal(n as nat)) == Some(n),
{
    lemma_digits_of_decimal(n as nat);
    let d = decimal(n as nat);
    assert(is_digit(d[0]));
    assert((seq!['+'] + d).skip(1) =~= d);
}

/// No two numbers are written in the same way.
pub proof fn law_numbers_are_told_apart(a: nat, b: nat)
    requires
        decimal(a) == decimal(b),
    ensures
        a == b,
{
    lemma_digits_of_decimal(a);
    lemma_digits_of_decimal(b);
}

/// A text with anything but digits behind an optional plus sign is no number, and neither
/// is an empty one.
pub proof fn law_no_number(s: Seq<char>, i: int)
    requires
        s.len() == 0 || (0 <= i < s.len() && !is_digit(s[i]) && (i > 0 || s[0] != '+')),
    ensures
        parsed_usize(s) is None,
{
    if s.len() > 0 {
        let d = without_plus(s);
        if s[0] == '+' {
            assert(d[i - 1] == s[i]);
        } else {
            assert(d[i] == s[i]);
        }
    }
}

/// A text is cut at each place of a character: what stands before the first one is the
/// first piece, and the others are those of the rest.
pub proof fn law_pieces_are_cut(a: Seq<char>, c: char, b: Seq<char>)
    requires
        !a.contains(c),
    ensures
        pieces(a, c) == seq![a],
        pieces(a + seq![c] + b, c) == seq![a] + pieces(b, c),
        cut(a + seq![c] + b, c) == Some((a, b)),
        cut(a, c) is None,
{
    let s = a + seq![c] + b;
    lemma_first_index(s, c);
    lemma_first_index(a, c);
    assert(s[a.len() as int] == c);
    match first_index(s, c) {
        Some(i) => {
            if i < a.len() {
                assert(a[i] == c);
            }
            assert(s.take(i) =~= a);
            assert(s.skip(i + 1) =~= b);
        },
        None => {},
    }
}

/// White space around a text is taken off, on both sides, and none within it.
pub proof fn law_white_space_is_taken_off(a: Seq<char>, s: Seq<char>, b: Seq<char>)
    requires
        forall|i: int| 0 <= i < a.len() ==> is_white_space(#[trigger] a[i]),
        forall|i: int| 0 <= i < b.len() ==> is_white_space(#[trigger] b[i]),
        s.len() > 0,
        !is_white_space(s[0]),
        !is_white_space(s.last()),
    ensures
        trimmed(a + s + b) == s,
    decreases a.len() + b.len(),
{
    let t = a + s + b;
    if a.len() > 0 {
        let r = a.skip(1);
        assert(t[0] == a[0] && is_white_space(a[0]));
        assert(t.skip(1) =~= r + s + b);
        assert forall|i: int| 0 <= i < r.len() implies is_white_space(#[trigger] r[i]) by {
            assert(r[i] == a[i + 1]);
        }
        law_white_space_is_taken_off(r, s, b);
        assert(trimmed_start(t) == trimmed_start(t.skip(1)));
    } else {
        assert(t =~= s + b);
        assert(t[0] == s[0]);
        assert(trimmed_start(t) == t);
        lemma_trailing_white_space(s, b);
    }
}

/// White space behind a text is taken off.
proof fn lemma_trailing_white_space(s: Seq<char>, b: Seq<char>)
    requires
        forall|i: int| 0 <= i < b.len() ==> is_white_space(#[trigger] b[i]),
        s.len() > 0,
        !is_white_space(s.last()),
    ensures
        trimmed_end(s + b) == s,
    decreases b.len(),
{
    let t = s + b;
    if b.len() > 0 {
        assert(t.last() == b[b.len() - 1]);
        assert(t.drop_last() =~= s + b.drop_last());
        lemma_trailing_white_space(s, b.drop_last());
    } else {
        assert(t =~= s);
    }
}

/// A part stands in a text between what is before and what is behind it.
pub proof fn lemma_has_part(a: Seq<char>, part: Seq<char>, b: Seq<char>)
    ensures
        has_part(a + part + b, part),
{
    let s = a + part + b;
    assert(s.subrange(a.len() as int, (a.len() + part.len()) as int) =~= part);
    assert(stands_at(s, part, a.len() as int));
}

/// A negative number is written as the positive one behind a minus sign.
pub proof fn law_sign_is_written(n: int)
    ensures
        n >= 0 ==> signed_decimal(n) == decimal(n as nat),
        n < 0 ==> signed_decimal(n).len() > 0 && signed_decimal(n)[0] == '-' && signed_decimal(
            n,
        ).skip(1) == decimal((-n) as nat),
{
    if n < 0 {
        assert(signed_decimal(n).skip(1) =~= decimal((-n) as nat));
    }
}

} // verus!
