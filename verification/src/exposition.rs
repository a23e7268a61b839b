//! Metrics as text: one block of lines for each, in the Prometheus format.

use vstd::prelude::*;

use crate::text::{
    decimal, digit, first_index, lemma_first_index, pieces, signed_decimal,
};

verus! {

/// A metric, as it is shown.
pub struct Metric {
    pub name: Seq<char>,
    pub help: Option<Seq<char>>,
    pub counter: bool,
    pub value: Seq<char>,
}

/// The line that explains a metric.
pub open spec fn help_line(m: Metric, help: Seq<char>) -> Seq<char> {
    "# HELP "@ + m.name + seq![' '] + help
}

/// The line that says whether a metric is a counter or a gauge.
pub open spec fn type_line(m: Metric) -> Seq<char> {
    "# TYPE "@ + m.name + (if m.counter {
        " counter"@
    } else {
        " gauge"@
    })
}

/// The line that holds the value of a metric.
pub open spec fn sample_line(m: Metric) -> Seq<char> {
    m.name + seq![' '] + m.value
}

/// The lines of a metric.
pub open spec fn block(m: Metric) -> Seq<Seq<char>> {
    match m.help {
        Some(h) => seq![help_line(m, h), type_line(m), sample_line(m)],
        None => seq![type_line(m), sample_line(m)],
    }
}

/// The lines of all metrics, in order.
pub open spec fn all_lines(ms: Seq<Metric>) -> Seq<Seq<char>>
    decreases ms.len(),
{
    if ms.len() == 0 {
        Seq::empty()
    } else {
        all_lines(ms.drop_last()) + block(ms.last())
    }
}

/// Lines as a text: a line end behind each.
pub open spec fn unlines(lines: Seq<Seq<char>>) -> Seq<char>
    decreases lines.len(),
{
    if lines.len() == 0 {
        Seq::empty()
    } else {
        unlines(lines.drop_last()) + lines.last().push('\n')
    }
}

/// The text of all metrics.
pub open spec fn exposition(ms: Seq<Metric>) -> Seq<char> {
    unlines(all_lines(ms))
}

/// One more line.
proof fn lemma_unlines_push(lines: Seq<Seq<char>>, line: Seq<char>)
    ensures
        unlines(lines.push(line)) == unlines(lines) + line.push('\n'),
        unlines(seq![line]) == line.push('\n'),
{
    assert(lines.push(line).drop_last() =~= lines);
    let one = seq![line];
    assert(one.drop_last() =~= Seq::empty());
    assert(unlines(one.drop_last()) =~= Seq::empty());
    assert(unlines(one) =~= line.push('\n'));
}

/// The text of two lists of lines in a row.
proof fn lemma_unlines_concat(a: Seq<Seq<char>>, b: Seq<Seq<char>>)
    ensures
        unlines(a + b) == unlines(a) + unlines(b),
    decreases b.len(),
{
    if b.len() == 0 {
        assert(a + b =~= a);
        assert(unlines(a) + unlines(b) =~= unlines(a));
    } else {
        assert((a + b).drop_last() =~= a + b.drop_last());
        lemma_unlines_concat(a, b.drop_last());
        assert(unlines(a + b) =~= unlines(a) + unlines(b));
    }
}

/// The lines of two lists of metrics in a row.
proof fn lemma_all_lines_concat(a: Seq<Metric>, b: Seq<Metric>)
    ensures
        all_lines(a + b) == all_lines(a) + all_lines(b),
    decreases b.len(),
{
    if b.len() == 0 {
        assert(a + b =~= a);
        assert(all_lines(a) + all_lines(b) =~= all_lines(a));
    } else {
        assert((a + b).drop_last() =~= a + b.drop_last());
        lemma_all_lines_concat(a, b.drop_last());
        assert(all_lines(a + b) =~= all_lines(a) + all_lines(b));
    }
}

/// The text of two lists of metrics in a row is the text of the one, then of the other.
pub proof fn lemma_exposition_concat(a: Seq<Metric>, b: Seq<Metric>)
    ensures
        exposition(a + b) == exposition(a) + exposition(b),
{
    lemma_all_lines_concat(a, b);
    lemma_unlines_concat(all_lines(a), all_lines(b));
}

/// Appends a line that is put together from these parts.
fn append_line(out: &mut String, a: &str, b: &str, c: &str, d: &str)
    ensures
        final(out)@ == old(out)@ + (a@ + b@ + c@ + d@).push('\n'),
{
    out.append(a);
    out.append(b);
    out.append(c);
    out.append(d);
    out.push('\n');
    assert(out@ =~= old(out)@ + (a@ + b@ + c@ + d@).push('\n'));
}

/// Appends the block of a metric to a text that shows the metrics `ms`; hands out what
/// it shows then.
pub(crate) fn append_metric(
    out: &mut String,
    Ghost(ms): Ghost<Seq<Metric>>,
    name: &str,
    help: Option<&str>,
    counter: bool,
    value: &str,
) -> (r: Ghost<Seq<Metric>>)
    requires
        old(out)@ == exposition(ms),
    ensures
        r@ == ms.push(
            Metric {
                name: name@,
                help: match help {
                    Some(h) => Some(h@),
                    None => None,
                },
                counter,
                value: value@,
            },
        ),
        final(out)@ == exposition(r@),
{
    let ghost m = Metric {
        name: name@,
        help: match help {
            Some(h) => Some(h@),
            None => None,
        },
        counter,
        value: value@,
    };
    let ghost before = out@;
    let ghost mut lines: Seq<Seq<char>> = Seq::empty();
    proof {
        reveal_strlit(" ");
        reveal_strlit("");
        assert(" "@ =~= seq![' ']);
        assert(""@ =~= Seq::empty());
        assert(before + unlines(lines) =~= before);
    }
    if let Some(h) = help {
        append_line(out, "# HELP ", name, " ", h);
        proof {
            lines = seq![help_line(m, h@)];
            lemma_unlines_push(Seq::empty(), help_line(m, h@));
        }
    }
    assert(out@ == before + unlines(lines));
    let ghost helped = out@;
    let kind: &str = if counter {
        " counter"
    } else {
        " gauge"
    };
    append_line(out, "# TYPE ", name, kind, "");
    assert("# TYPE "@ + name@ + kind@ + ""@ =~= type_line(m));
    let ghost typed = out@;
    append_line(out, name, " ", value, "");
    assert(name@ + " "@ + value@ + ""@ =~= sample_line(m));
    proof {
        let a = lines.push(type_line(m));
        let b = a.push(sample_line(m));
        lemma_unlines_push(lines, type_line(m));
        lemma_unlines_push(a, sample_line(m));
        assert(b =~= block(m));
        assert(out@ =~= before + unlines(b));
        let now = ms.push(m);
        assert(now.drop_last() =~= ms);
        lemma_unlines_concat(all_lines(ms), block(m));
    }
    Ghost(ms.push(m))
}

/// The lines of a text, as they stand between line ends.
pub open spec fn lines_of(text: Seq<char>) -> Seq<Seq<char>> {
    pieces(text, '\n')
}

/// Whether a text stays on one line.
pub open spec fn one_line(s: Seq<char>) -> bool {
    forall|i: int| 0 <= i < s.len() ==> #[trigger] s[i] != '\n'
}

/// A line that is put in front.
proof fn lemma_unlines_front(lines: Seq<Seq<char>>)
    requires
        lines.len() > 0,
    ensures
        unlines(lines) == lines[0].push('\n') + unlines(lines.skip(1)),
{
    let first = seq![lines[0]];
    assert(first + lines.skip(1) =~= lines);
    lemma_unlines_concat(first, lines.skip(1));
    lemma_unlines_push(Seq::empty(), lines[0]);
}

/// Lines that were put together come apart again; an empty one follows the last line
/// end.
proof fn lemma_lines_of(lines: Seq<Seq<char>>)
    requires
        forall|i: int| 0 <= i < lines.len() ==> one_line(#[trigger] lines[i]),
    ensures
        lines_of(unlines(lines)) == lines.push(Seq::empty()),
    decreases lines.len(),
{
    let text = unlines(lines);
    lemma_first_index(text, '\n');
    if lines.len() == 0 {
        assert(pieces(text, '\n') =~= seq![text]);
        assert(lines.push(Seq::<char>::empty()) =~= seq![text]);
    } else {
        let rest = lines.skip(1);
        lemma_unlines_front(lines);
        let first = lines[0];
        assert(one_line(first));
        assert(text[first.len() as int] == '\n');
        match first_index(text, '\n') {
            Some(i) => {
                if i < first.len() {
                    assert(first[i] == '\n');
                }
                assert(i == first.len());
                assert(text.take(i) =~= first);
                assert(text.skip(i + 1) =~= unlines(rest));
            },
            None => {},
        }
        assert forall|i: int| 0 <= i < rest.len() implies one_line(#[trigger] rest[i]) by {
            assert(rest[i] == lines[i + 1]);
        }
        lemma_lines_of(rest);
        assert(seq![first] + rest.push(Seq::empty()) =~= lines.push(Seq::empty()));
    }
}

/// Whether a character can stand in the name of a metric.
pub open spec fn name_char(c: char) -> bool {
    'a' <= c && c <= 'z' || c == '_'
}

/// Whether a text can be the name of a metric.
pub open spec fn is_name(s: Seq<char>) -> bool {
    s.len() > 0 && forall|i: int| 0 <= i < s.len() ==> name_char(#[trigger] s[i])
}

/// Whether a metric can be shown: it has a name, and its other texts stay on one line.
pub open spec fn showable(m: Metric) -> bool {
    &&& is_name(m.name)
    &&& one_line(m.value)
    &&& match m.help {
        Some(h) => one_line(h),
        None => true,
    }
}

/// Whether all metrics can be shown and no two have one name.
pub open spec fn all_showable(ms: Seq<Metric>) -> bool {
    &&& forall|i: int| 0 <= i < ms.len() ==> showable(#[trigger] ms[i])
    &&& forall|i: int, j: int|
        0 <= i < ms.len() && 0 <= j < ms.len() && i != j ==> (#[trigger] ms[i]).name != (
        #[trigger] ms[j]).name
}

/// Whether a line holds a value of the metric of that name.
pub open spec fn is_sample_of(line: Seq<char>, name: Seq<char>) -> bool {
    (name + seq![' ']).is_prefix_of(line)
}

/// Whether line `i` is the one that holds the value of the metric, behind the lines that
/// explain it, and no other line holds one.
pub open spec fn shown_at(lines: Seq<Seq<char>>, m: Metric, i: int) -> bool {
    &&& 1 <= i < lines.len()
    &&& lines[i] == sample_line(m)
    &&& lines[i - 1] == type_line(m)
    &&& match m.help {
        Some(h) => i >= 2 && lines[i - 2] == help_line(m, h),
        None => true,
    }
    &&& forall|j: int|
        0 <= j < lines.len() && is_sample_of(#[trigger] lines[j], m.name) ==> j == i
}

/// Whether a text shows the metric in exactly one line, behind the lines that explain it.
pub open spec fn shown_once(text: Seq<char>, m: Metric) -> bool {
    exists|i: int| #[trigger] shown_at(lines_of(text), m, i)
}

/// Where the value of metric `k` stands among the lines.
spec fn place(ms: Seq<Metric>, k: int) -> int {
    all_lines(ms.take(k + 1)).len() - 1
}

/// The block of metric `k` ends at its place.
proof fn lemma_place(ms: Seq<Metric>, k: int)
    requires
        0 <= k < ms.len(),
    ensures
        1 <= place(ms, k) < all_lines(ms).len(),
        all_lines(ms)[place(ms, k)] == sample_line(ms[k]),
        all_lines(ms)[place(ms, k) - 1] == type_line(ms[k]),
        match ms[k].help {
            Some(h) => place(ms, k) >= 2 && all_lines(ms)[place(ms, k) - 2] == help_line(ms[k], h),
            None => true,
        },
{
    let head = ms.take(k + 1);
    let tail = ms.skip(k + 1);
    assert(head + tail =~= ms);
    lemma_all_lines_concat(head, tail);
    assert(head.last() == ms[k]);
    assert(all_lines(head) == all_lines(head.drop_last()) + block(ms[k]));
}

/// A line that is no value begins with a hash sign.
proof fn lemma_lines_sorted_out(ms: Seq<Metric>, j: int)
    requires
        0 <= j < all_lines(ms).len(),
    ensures
        (exists|k: int| 0 <= k < ms.len() && j == #[trigger] place(ms, k)) || (
        all_lines(ms)[j].len() > 0 && all_lines(ms)[j][0] == '#'),
    decreases ms.len(),
{
    reveal_strlit("# HELP ");
    reveal_strlit("# TYPE ");
    let init = ms.drop_last();
    let before = all_lines(init);
    if j < before.len() {
        lemma_lines_sorted_out(init, j);
        assert(all_lines(ms)[j] == before[j]);
        if exists|k: int| 0 <= k < init.len() && j == #[trigger] place(init, k) {
            let k = choose|k: int| 0 <= k < init.len() && j == #[trigger] place(init, k);
            assert(init.take(k + 1) =~= ms.take(k + 1));
            assert(j == place(ms, k));
        }
    } else {
        let last = ms.last();
        assert(all_lines(ms)[j] == block(last)[j - before.len()]);
        if j == all_lines(ms).len() - 1 {
            assert(ms.take(ms.len() as int) =~= ms);
            assert(j == place(ms, ms.len() - 1));
        }
    }
}

/// All lines of metrics that can be shown stay on one line.
proof fn lemma_blocks_one_line(ms: Seq<Metric>)
    requires
        forall|i: int| 0 <= i < ms.len() ==> showable(#[trigger] ms[i]),
    ensures
        forall|i: int| 0 <= i < all_lines(ms).len() ==> one_line(#[trigger] all_lines(ms)[i]),
    decreases ms.len(),
{
    if ms.len() > 0 {
        reveal_strlit("# HELP ");
        reveal_strlit("# TYPE ");
        reveal_strlit(" counter");
        reveal_strlit(" gauge");
        let init = ms.drop_last();
        assert forall|i: int| 0 <= i < init.len() implies showable(#[trigger] init[i]) by {
            assert(init[i] == ms[i]);
        }
        lemma_blocks_one_line(init);
        let m = ms.last();
        assert(showable(ms[ms.len() - 1]));
        assert(one_line(m.name));
        assert(one_line(sample_line(m)));
        assert(one_line(type_line(m)));
        assert(m.help matches Some(h) ==> one_line(help_line(m, h)));
        let before = all_lines(init);
        assert forall|i: int| 0 <= i < all_lines(ms).len() implies one_line(
            #[trigger] all_lines(ms)[i],
        ) by {
            if i < before.len() {
                assert(all_lines(ms)[i] == before[i]);
            } else {
                assert(all_lines(ms)[i] == block(m)[i - before.len()]);
            }
        }
    }
}

/// A line holds the value of one metric only.
proof fn lemma_sample_has_one_name(m: Metric, name: Seq<char>)
    requires
        is_name(m.name),
        is_name(name),
        is_sample_of(sample_line(m), name),
    ensures
        name == m.name,
{
    let line = sample_line(m);
    let lead = name + seq![' '];
    assert(forall|i: int| 0 <= i < lead.len() ==> lead[i] == line[i]);
    if name.len() < m.name.len() {
        assert(lead[name.len() as int] == ' ');
        assert(name_char(m.name[name.len() as int]));
    } else if name.len() > m.name.len() {
        assert(line[m.name.len() as int] == ' ');
        assert(name_char(name[m.name.len() as int]));
    }
    assert forall|i: int| 0 <= i < name.len() implies name[i] == m.name[i] by {
        assert(lead[i] == line[i]);
    }
    assert(name =~= m.name);
}

/// Each metric of a text is shown in exactly one line, behind the lines that explain it.
pub proof fn law_each_metric_once(ms: Seq<Metric>, k: int)
    requires
        all_showable(ms),
        0 <= k < ms.len(),
    ensures
        shown_once(exposition(ms), ms[k]),
{
    let all = all_lines(ms);
    lemma_blocks_one_line(ms);
    lemma_lines_of(all);
    let lines = lines_of(exposition(ms));
    let i = place(ms, k);
    lemma_place(ms, k);
    assert(showable(ms[k]));
    assert forall|j: int| 0 <= j < lines.len() && is_sample_of(#[trigger] lines[j], ms[k].name) implies j
        == i by {
        lemma_only_samples(ms, ms[k].name, j);
        let o = choose|o: int|
            0 <= o < ms.len() && j == #[trigger] place(ms, o) && ms[o].name == ms[k].name;
        assert(o == k);
    }
    assert(shown_at(lines, ms[k], i));
}

/// A line that holds the value of a metric is that of the metric in the list.
proof fn lemma_only_samples(ms: Seq<Metric>, name: Seq<char>, j: int)
    requires
        all_showable(ms),
        is_name(name),
        0 <= j < lines_of(exposition(ms)).len(),
        is_sample_of(lines_of(exposition(ms))[j], name),
    ensures
        exists|o: int| 0 <= o < ms.len() && j == #[trigger] place(ms, o) && ms[o].name == name,
{
    let all = all_lines(ms);
    lemma_blocks_one_line(ms);
    lemma_lines_of(all);
    let line = lines_of(exposition(ms))[j];
    let lead = name + seq![' '];
    assert(lead.len() > 0 && lead[0] == name[0]);
    assert(name_char(name[0]));
    if j == all.len() {
        assert(line =~= Seq::empty());
    } else {
        assert(line == all[j]);
        lemma_lines_sorted_out(ms, j);
        assert(line[0] == lead[0]);
        let o = choose|o: int| 0 <= o < ms.len() && j == #[trigger] place(ms, o);
        lemma_place(ms, o);
        assert(showable(ms[o]));
        lemma_sample_has_one_name(ms[o], name);
    }
}

/// A text shows no other metric than those of its list.
pub proof fn law_no_other_metric(ms: Seq<Metric>, name: Seq<char>, j: int)
    requires
        all_showable(ms),
        is_name(name),
        forall|o: int| 0 <= o < ms.len() ==> (#[trigger] ms[o]).name != name,
        0 <= j < lines_of(exposition(ms)).len(),
    ensures
        !is_sample_of(lines_of(exposition(ms))[j], name),
{
    if is_sample_of(lines_of(exposition(ms))[j], name) {
        lemma_only_samples(ms, name, j);
    }
}

/// A number stays on one line.
pub proof fn lemma_decimal_one_line(n: nat)
    ensures
        one_line(decimal(n)),
    decreases n,
{
    if n >= 10 {
        lemma_decimal_one_line(n / 10);
        assert(digit(n % 10) != '\n');
    } else {
        assert(digit(n) != '\n');
    }
}

/// A number with a sign stays on one line.
pub proof fn lemma_signed_one_line(n: int)
    ensures
        one_line(signed_decimal(n)),
{
    lemma_decimal_one_line(if n < 0 {
        (-n) as nat
    } else {
        n as nat
    });
}

/// Whether the name of a metric says that it is a counter.
pub open spec fn is_total(name: Seq<char>) -> bool {
    "_total"@.is_suffix_of(name)
}

/// Whether a text has this line.
pub open spec fn has_line(text: Seq<char>, line: Seq<char>) -> bool {
    lines_of(text).contains(line)
}

/// The text has the line that holds the value of each metric of its list.
pub proof fn lemma_sample_shown(text: Seq<char>, m: Metric)
    requires
        shown_once(text, m),
    ensures
        has_line(text, m.name + seq![' '] + m.value),
{
}

} // verus!
