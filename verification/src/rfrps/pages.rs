//! Pages of the dashboard.

use vstd::prelude::*;

use crate::text::{stands_at, stands_here, to_chars};

verus! {

/// What a character becomes inside HTML text.
pub open spec fn html_char(c: char) -> Seq<char> {
    if c == '&' {
        "&amp;"@
    } else if c == '<' {
        "&lt;"@
    } else if c == '>' {
        "&gt;"@
    } else if c == '"' {
        "&quot;"@
    } else if c == '\'' {
        "&#39;"@
    } else {
        seq![c]
    }
}

/// What a character becomes inside JSON that stands in a script element.
pub open spec fn script_char(c: char) -> Seq<char> {
    if c == '<' {
        "\\u003c"@
    } else if c == '>' {
        "\\u003e"@
    } else if c == '&' {
        "\\u0026"@
    } else {
        seq![c]
    }
}

/// `f` of every character, in a row.
pub open spec fn each_char(s: Seq<char>, f: spec_fn(char) -> Seq<char>) -> Seq<char>
    decreases s.len(),
{
    if s.len() == 0 {
        Seq::empty()
    } else {
        each_char(s.drop_last(), f) + f(s.last())
    }
}

/// A text, to stand in HTML.
pub open spec fn html_escaped(s: Seq<char>) -> Seq<char> {
    each_char(s, |c: char| html_char(c))
}

/// A JSON text, to stand in a script element.
pub open spec fn script_escaped(s: Seq<char>) -> Seq<char> {
    each_char(s, |c: char| script_char(c))
}

/// Executable form of [`html_escaped`].
pub fn html_escape(s: &str) -> (r: String)
    ensures
        r@ == html_escaped(s@),
{
    let chars = to_chars(s);
    let mut out = String::new();
    let mut i: usize = 0;
    assert(html_escaped(chars@.take(0)) =~= out@);
    while i < chars.len()
        invariant
            i <= chars@.len(),
            out@ == html_escaped(chars@.take(i as int)),
        decreases chars@.len() - i,
    {
        let c: char = chars[i];
        let ghost before = out@;
        if c == '&' {
            out.append("&amp;");
        } else if c == '<' {
            out.append("&lt;");
        } else if c == '>' {
            out.append("&gt;");
        } else if c == '"' {
            out.append("&quot;");
        } else if c == '\'' {
            out.append("&#39;");
        } else {
            out.push(c);
            assert(out@ =~= before + seq![c]);
        }
        assert(chars@.take(i + 1).drop_last() =~= chars@.take(i as int));
        i += 1;
    }
    assert(chars@.take(i as int) =~= s@);
    out
}

/// Executable form of [`script_escaped`].
pub fn script_escape(s: &str) -> (r: String)
    ensures
        r@ == script_escaped(s@),
{
    let chars = to_chars(s);
    let mut out = String::new();
    let mut i: usize = 0;
    assert(script_escaped(chars@.take(0)) =~= out@);
    while i < chars.len()
        invariant
            i <= chars@.len(),
            out@ == script_escaped(chars@.take(i as int)),
        decreases chars@.len() - i,
    {
        let c: char = chars[i];
        let ghost before = out@;
        if c == '<' {
            out.append("\\u003c");
        } else if c == '>' {
            out.append("\\u003e");
        } else if c == '&' {
            out.append("\\u0026");
        } else {
            out.push(c);
            assert(out@ =~= before + seq![c]);
        }
        assert(chars@.take(i + 1).drop_last() =~= chars@.take(i as int));
        i += 1;
    }
    assert(chars@.take(i as int) =~= s@);
    out
}

/// What each character becomes is free of `bad`, so the whole is.
proof fn lemma_each_char_free(s: Seq<char>, f: spec_fn(char) -> Seq<char>, bad: char)
    requires
        forall|c: char| !(#[trigger] f(c)).contains(bad),
    ensures
        !each_char(s, f).contains(bad),
    decreases s.len(),
{
    if s.len() > 0 {
        lemma_each_char_free(s.drop_last(), f, bad);
        let a = each_char(s.drop_last(), f);
        let b = f(s.last());
        if (a + b).contains(bad) {
            let i = choose|i: int| 0 <= i < (a + b).len() && (a + b)[i] == bad;
            if i < a.len() {
                assert(a[i] == bad);
            } else {
                assert(b[i - a.len()] == bad);
            }
        }
    }
}

/// No data that is embedded in the page can open or close an element there.
pub proof fn law_script_escaped_is_inert(s: Seq<char>)
    ensures
        !script_escaped(s).contains('<'),
        !script_escaped(s).contains('>'),
        !script_escaped(s).contains('&'),
{
    reveal_strlit("\\u003c");
    reveal_strlit("\\u003e");
    reveal_strlit("\\u0026");
    let f = |c: char| script_char(c);
    lemma_each_char_free(s, f, '<');
    lemma_each_char_free(s, f, '>');
    lemma_each_char_free(s, f, '&');
}

/// No escaped text can open or close an element or an attribute.
pub proof fn law_html_escaped_is_inert(s: Seq<char>)
    ensures
        !html_escaped(s).contains('<'),
        !html_escaped(s).contains('>'),
        !html_escaped(s).contains('"'),
        !html_escaped(s).contains('\''),
{
    reveal_strlit("&amp;");
    reveal_strlit("&lt;");
    reveal_strlit("&gt;");
    reveal_strlit("&quot;");
    reveal_strlit("&#39;");
    let f = |c: char| html_char(c);
    lemma_each_char_free(s, f, '<');
    lemma_each_char_free(s, f, '>');
    lemma_each_char_free(s, f, '"');
    lemma_each_char_free(s, f, '\'');
}

/// `s` with every occurrence of `from` replaced by `to`, from the left.
pub open spec fn replaced(s: Seq<char>, from: Seq<char>, to: Seq<char>) -> Seq<char>
    decreases s.len(),
{
    if s.len() == 0 || from.len() == 0 {
        s
    } else if stands_at(s, from, 0) {
        to + replaced(s.skip(from.len() as int), from, to)
    } else {
        seq![s[0]] + replaced(s.skip(1), from, to)
    }
}

/// Executable form of [`replaced`].
pub fn replace_all(s: &str, from: &str, to: &str) -> (r: String)
    requires
        from@.len() > 0,
    ensures
        r@ == replaced(s@, from@, to@),
{
    let chars = to_chars(s);
    let needle = to_chars(from);
    let n: usize = chars.len();
    let mut out = String::new();
    let mut i: usize = 0;
    assert(chars@.skip(0) =~= chars@);
    assert(out@ + replaced(chars@.skip(0), from@, to@) =~= replaced(s@, from@, to@));
    while i < n
        invariant
            i <= n == chars@.len(),
            needle@ == from@,
            from@.len() > 0,
            out@ + replaced(chars@.skip(i as int), from@, to@) == replaced(s@, from@, to@),
        decreases n - i,
    {
        let ghost rest = chars@.skip(i as int);
        let ghost before = out@;
        let found = stands_here(&chars, &needle, i);
        proof {
            if i + from@.len() <= n {
                assert(rest.subrange(0, from@.len() as int) =~= chars@.subrange(
                    i as int,
                    i + from@.len(),
                ));
            }
        }
        if found {
            out.append(to);
            assert(rest.skip(from@.len() as int) =~= chars@.skip(i + from@.len()));
            assert(before + (to@ + replaced(chars@.skip(i + from@.len()), from@, to@)) =~= (before
                + to@) + replaced(chars@.skip(i + from@.len()), from@, to@));
            i += needle.len();
        } else {
            out.push(chars[i]);
            assert(rest.skip(1) =~= chars@.skip(i + 1));
            assert(before + (seq![rest[0]] + replaced(chars@.skip(i + 1), from@, to@))
                =~= before.push(rest[0]) + replaced(chars@.skip(i + 1), from@, to@));
            i += 1;
        }
    }
    assert(chars@.skip(i as int) =~= Seq::<char>::empty());
    assert(out@ =~= replaced(s@, from@, to@));
    out
}

/// The dashboard page: a template with the version and the state, as JSON, put in.
pub open spec fn page_text(
    template: Seq<char>,
    version: Seq<char>,
    status: Seq<char>,
) -> Seq<char> {
    replaced(
        replaced(template, "__VERSION__"@, version),
        "__BOOTSTRAP__"@,
        script_escaped(status),
    )
}

/// Executable form of [`page_text`].
pub fn render_html(template: &str, version: &str, status: &str) -> (r: String)
    ensures
        r@ == page_text(template@, version@, status@),
{
    proof {
        reveal_strlit("__VERSION__");
        reveal_strlit("__BOOTSTRAP__");
    }
    let versioned = replace_all(template, "__VERSION__", version);
    replace_all(versioned.as_str(), "__BOOTSTRAP__", script_escape(status).as_str())
}

/// The part of the login page before the error.
pub open spec fn login_page_start() -> Seq<char> {
    "<!DOCTYPE html><html lang=\"zh-CN\"><head><meta charset=\"utf-8\">\
     <meta name=\"viewport\" content=\"width=device-width,initial-scale=1\">\
     <title>rfrp dashboard 登录</title><style>\
     body{font-family:system-ui,sans-serif;background:#f5f6f8;margin:0;display:flex;\
     align-items:center;justify-content:center;min-height:100vh}\
     form{background:#fff;padding:2rem;border-radius:8px;\
     box-shadow:0 2px 12px rgba(0,0,0,.08);width:280px}\
     h1{font-size:1.1rem;margin:0 0 1rem}\
     label{display:block;font-size:.85rem;color:#555;margin:.6rem 0 .2rem}\
     input{width:100%;box-sizing:border-box;padding:.5rem;border:1px solid #ccc;border-radius:4px}\
     button{margin-top:1.2rem;width:100%;padding:.55rem;border:0;border-radius:4px;\
     background:#2563eb;color:#fff;font-size:.95rem;cursor:pointer}\
     .error{color:#b91c1c;font-size:.85rem;margin:.6rem 0 0}\
     </style></head><body>\
     <form method=\"post\" action=\"/login\">\
     <h1>rfrp dashboard</h1>"@
}

/// The part of the login page behind the error.
pub open spec fn login_page_end() -> Seq<char> {
    "<label for=\"u\">用户名</label>\
     <input id=\"u\" name=\"user\" autocomplete=\"username\" autofocus>\
     <label for=\"p\">密码</label>\
     <input id=\"p\" name=\"password\" type=\"password\" autocomplete=\"current-password\">\
     <button type=\"submit\">登录</button>\
     </form></body></html>"@
}

/// The login page, with an error where there is one.
pub open spec fn login_page(error: Option<Seq<char>>) -> Seq<char> {
    match error {
        Some(e) => login_page_start() + "<p class=\"error\">"@ + html_escaped(e) + "</p>"@
            + login_page_end(),
        None => login_page_start() + login_page_end(),
    }
}

/// Executable form of [`login_page`].
pub fn render_login_page(error: Option<&str>) -> (r: String)
    ensures
        r@ == login_page(
            match error {
                Some(e) => Some(e@),
                None => None,
            },
        ),
{
    let mut out = String::from_str(
        "<!DOCTYPE html><html lang=\"zh-CN\"><head><meta charset=\"utf-8\">\
         <meta name=\"viewport\" content=\"width=device-width,initial-scale=1\">\
         <title>rfrp dashboard 登录</title><style>\
         body{font-family:system-ui,sans-serif;background:#f5f6f8;margin:0;display:flex;\
         align-items:center;justify-content:center;min-height:100vh}\
         form{background:#fff;padding:2rem;border-radius:8px;\
         box-shadow:0 2px 12px rgba(0,0,0,.08);width:280px}\
         h1{font-size:1.1rem;margin:0 0 1rem}\
         label{display:block;font-size:.85rem;color:#555;margin:.6rem 0 .2rem}\
         input{width:100%;box-sizing:border-box;padding:.5rem;border:1px solid #ccc;border-radius:4px}\
         button{margin-top:1.2rem;width:100%;padding:.55rem;border:0;border-radius:4px;\
         background:#2563eb;color:#fff;font-size:.95rem;cursor:pointer}\
         .error{color:#b91c1c;font-size:.85rem;margin:.6rem 0 0}\
         </style></head><body>\
         <form method=\"post\" action=\"/login\">\
         <h1>rfrp dashboard</h1>",
    );
    if let Some(e) = error {
        out.append("<p class=\"error\">");
        out.append(html_escape(e).as_str());
        out.append("</p>");
    }
    out.append(
        "<label for=\"u\">用户名</label>\
         <input id=\"u\" name=\"user\" autocomplete=\"username\" autofocus>\
         <label for=\"p\">密码</label>\
         <input id=\"p\" name=\"password\" type=\"password\" autocomplete=\"current-password\">\
         <button type=\"submit\">登录</button>\
         </form></body></html>",
    );
    out
}

/// Two texts in a row are changed each for itself.
proof fn lemma_each_char_concat(a: Seq<char>, b: Seq<char>, f: spec_fn(char) -> Seq<char>)
    ensures
        each_char(a + b, f) == each_char(a, f) + each_char(b, f),
    decreases b.len(),
{
    if b.len() == 0 {
        assert(a + b =~= a);
        assert(each_char(a, f) + each_char(b, f) =~= each_char(a, f));
    } else {
        assert((a + b).drop_last() =~= a + b.drop_last());
        lemma_each_char_concat(a, b.drop_last(), f);
        assert(each_char(a + b, f) =~= each_char(a, f) + each_char(b, f));
    }
}

/// One character is changed by itself.
proof fn lemma_each_char_one(c: char, f: spec_fn(char) -> Seq<char>)
    ensures
        each_char(seq![c], f) == f(c),
{
    assert(seq![c].drop_last() =~= Seq::empty());
    assert(each_char(seq![c].drop_last(), f) =~= Seq::empty());
    assert(each_char(seq![c], f) =~= f(c));
}

/// In HTML text, each character that has a meaning there stands as its entity, and every
/// other as itself, in the same order.
pub proof fn law_html_escape_by_char(a: Seq<char>, b: Seq<char>, c: char)
    ensures
        html_escaped(a + b) == html_escaped(a) + html_escaped(b),
        html_escaped(seq!['&']) == "&amp;"@,
        html_escaped(seq!['<']) == "&lt;"@,
        html_escaped(seq!['>']) == "&gt;"@,
        html_escaped(seq!['"']) == "&quot;"@,
        html_escaped(seq!['\'']) == "&#39;"@,
        c != '&' && c != '<' && c != '>' && c != '"' && c != '\'' ==> html_escaped(seq![c])
            == seq![c],
        html_escaped(Seq::empty()) == Seq::<char>::empty(),
{
    let f = |x: char| html_char(x);
    lemma_each_char_concat(a, b, f);
    lemma_each_char_one('&', f);
    lemma_each_char_one('<', f);
    lemma_each_char_one('>', f);
    lemma_each_char_one('"', f);
    lemma_each_char_one('\'', f);
    lemma_each_char_one(c, f);
}

/// In a script element, the three characters that could end it stand as their escapes,
/// and every other as itself, in the same order.
pub proof fn law_script_escape_by_char(a: Seq<char>, b: Seq<char>, c: char)
    ensures
        script_escaped(a + b) == script_escaped(a) + script_escaped(b),
        script_escaped(seq!['<']) == "\\u003c"@,
        script_escaped(seq!['>']) == "\\u003e"@,
        script_escaped(seq!['&']) == "\\u0026"@,
        c != '&' && c != '<' && c != '>' ==> script_escaped(seq![c]) == seq![c],
        script_escaped(Seq::empty()) == Seq::<char>::empty(),
{
    let f = |x: char| script_char(x);
    lemma_each_char_concat(a, b, f);
    lemma_each_char_one('<', f);
    lemma_each_char_one('>', f);
    lemma_each_char_one('&', f);
    lemma_each_char_one(c, f);
}

/// The login page posts a user name and a password to the login, and shows an error,
/// escaped, exactly where there is one.
pub proof fn law_login_page_shows_error(e: Seq<char>)
    ensures
        stands_at(
            login_page(Some(e)),
            "<p class=\"error\">"@ + html_escaped(e) + "</p>"@,
            login_page_start().len() as int,
        ),
        login_page(None) == login_page_start() + login_page_end(),
{
    let p = login_page_start();
    let mid = "<p class=\"error\">"@ + html_escaped(e) + "</p>"@;
    let s = login_page(Some(e));
    assert(s =~= p + mid + login_page_end());
    assert(s.subrange(p.len() as int, (p.len() + mid.len()) as int) =~= mid);
}

/// The first marker in a text is replaced, and what stands before it stays.
pub proof fn law_marker_is_replaced(
    before: Seq<char>,
    marker: Seq<char>,
    behind: Seq<char>,
    by: Seq<char>,
)
    requires
        marker.len() > 0,
        forall|i: int|
            0 <= i < before.len() ==> !#[trigger] stands_at(before + marker + behind, marker, i),
    ensures
        replaced(before + marker + behind, marker, by) == before + by + replaced(
            behind,
            marker,
            by,
        ),
    decreases before.len(),
{
    let s = before + marker + behind;
    if before.len() == 0 {
        assert(s.subrange(0, marker.len() as int) =~= marker);
        assert(stands_at(s, marker, 0));
        assert(s.skip(marker.len() as int) =~= behind);
        assert(replaced(s, marker, by) =~= before + by + replaced(behind, marker, by));
    } else {
        let rest = before.skip(1);
        let t = rest + marker + behind;
        assert(s.skip(1) =~= t);
        assert(!stands_at(s, marker, 0));
        assert forall|i: int| 0 <= i < rest.len() implies !#[trigger] stands_at(t, marker, i) by {
            assert(!stands_at(s, marker, i + 1));
            if stands_at(t, marker, i) {
                assert(s.subrange(i + 1, i + 1 + marker.len()) =~= t.subrange(i, i + marker.len()));
            }
        }
        law_marker_is_replaced(rest, marker, behind, by);
        assert(s[0] == before[0]);
        assert(replaced(s, marker, by) =~= before + by + replaced(behind, marker, by));
    }
}

/// The dashboard page holds the state where its template has the marker for it, escaped, so
/// that no data can end the script that it stands in.
pub proof fn law_page_holds_state(
    template: Seq<char>,
    version: Seq<char>,
    status: Seq<char>,
    before: Seq<char>,
    behind: Seq<char>,
)
    requires
        replaced(template, "__VERSION__"@, version) == before + "__BOOTSTRAP__"@ + behind,
        forall|i: int|
            0 <= i < before.len() ==> !#[trigger] stands_at(
                before + "__BOOTSTRAP__"@ + behind,
                "__BOOTSTRAP__"@,
                i,
            ),
    ensures
        page_text(template, version, status) == before + script_escaped(status) + replaced(
            behind,
            "__BOOTSTRAP__"@,
            script_escaped(status),
        ),
        !script_escaped(status).contains('<'),
{
    reveal_strlit("__BOOTSTRAP__");
    law_marker_is_replaced(before, "__BOOTSTRAP__"@, behind, script_escaped(status));
    law_script_escaped_is_inert(status);
}

} // verus!
