//! Samples and their text: one header per family, one line per sample.

use vstd::prelude::*;

use crate::metrics::catalog;
use crate::text;

verus! {

/// The `Content-Type` of the exposition.
pub const CONTENT_TYPE: &'static str = "text/plain; version=0.0.4; charset=utf-8";

/// Counts below this bound are written digit by digit.
pub const EXACT_COUNTS: u64 = 1_000_000_000_000_000;

/// The value of a sample.
#[derive(Debug, Clone, Copy, PartialEq, Eq, Structural)]
pub enum Value {
    Count(u64),
    /// Milliseconds, written as seconds.
    Millis(i128),
    /// The bits of a double-precision number.
    Real(u64),
}

/// What a histogram's series append to the family's name.
#[derive(Debug, Clone, Copy, PartialEq, Eq, Structural)]
pub enum Suffix {
    Plain,
    Bucket,
    Sum,
    Count,
}

impl Suffix {
    /// The appended text.
    pub open spec fn spec_text(self) -> Seq<char> {
        match self {
            Suffix::Plain => Seq::empty(),
            Suffix::Bucket => "_bucket"@,
            Suffix::Sum => "_sum"@,
            Suffix::Count => "_count"@,
        }
    }
}

/// Labels of a sample, by name.
pub type Labels = Vec<(&'static str, String)>;

/// A line of the exposition.
#[derive(Debug, PartialEq, Eq)]
pub struct Line {
    pub suffix: Suffix,
    pub labels: Vec<(&'static str, String)>,
    pub value: Value,
}

/// A sample of a family, or its header alone.
#[derive(Debug, PartialEq, Eq)]
pub struct Item {
    /// Place of the family in the catalog.
    pub family: usize,
    pub line: Option<Line>,
}

/// Content of labels.
pub type LabelsView = Seq<(Seq<char>, Seq<char>)>;

/// Content of a line.
pub ghost struct LineView {
    pub suffix: Suffix,
    pub labels: LabelsView,
    pub value: Value,
}

/// Content of a sample.
pub ghost struct ItemView {
    pub family: usize,
    pub line: Option<LineView>,
}

/// Content of labels.
pub open spec fn labels_view(labels: Seq<(&'static str, String)>) -> LabelsView {
    Seq::new(labels.len(), |i: int| (labels[i].0@, labels[i].1@))
}

impl View for Line {
    type V = LineView;

    open spec fn view(&self) -> LineView {
        LineView { suffix: self.suffix, labels: labels_view(self.labels@), value: self.value }
    }
}

impl View for Item {
    type V = ItemView;

    open spec fn view(&self) -> ItemView {
        ItemView {
            family: self.family,
            line: match self.line {
                Some(l) => Some(l@),
                None => None,
            },
        }
    }
}

/// Content of samples.
pub open spec fn item_views(items: Seq<Item>) -> Seq<ItemView> {
    Seq::new(items.len(), |i: int| items[i]@)
}

// ---------------------------------------------------------------------------
// label values
// ---------------------------------------------------------------------------
/// A character of a label value.
pub open spec fn escaped_char(c: char) -> Seq<char> {
    if c == '\\' {
        seq!['\\', '\\']
    } else if c == '"' {
        seq!['\\', '"']
    } else if c == '\n' {
        seq!['\\', 'n']
    } else {
        seq![c]
    }
}

/// A label value between its quotes.
pub open spec fn escaped(v: Seq<char>) -> Seq<char>
    decreases v.len(),
{
    if v.len() == 0 {
        Seq::empty()
    } else {
        escaped_char(v[0]) + escaped(v.drop_first())
    }
}

proof fn lemma_escaped_push(v: Seq<char>, c: char)
    ensures
        escaped(v.push(c)) == escaped(v) + escaped_char(c),
    decreases v.len(),
{
    if v.len() == 0 {
        reveal_with_fuel(escaped, 2);
        assert(v.push(c).drop_first() =~= Seq::<char>::empty());
        assert(escaped(v.push(c)) =~= escaped_char(c));
        assert(escaped(v) + escaped_char(c) =~= escaped_char(c));
    } else {
        lemma_escaped_push(v.drop_first(), c);
        assert(v.push(c).drop_first() =~= v.drop_first().push(c));
        assert(escaped(v.push(c)) =~= escaped(v) + escaped_char(c));
    }
}

/// What a reader finds up to the closing quote: the value, and what comes
/// after the quote. A backslash takes the character after it along.
pub open spec fn read_value(s: Seq<char>) -> Option<(Seq<char>, Seq<char>)>
    decreases s.len(),
{
    if s.len() == 0 {
        None
    } else if s[0] == '"' {
        Some((Seq::empty(), s.drop_first()))
    } else if s[0] == '\\' {
        if s.len() == 1 {
            None
        } else {
            let c = if s[1] == 'n' {
                '\n'
            } else {
                s[1]
            };
            match read_value(s.skip(2)) {
                Some((v, rest)) => Some((seq![c] + v, rest)),
                None => None,
            }
        }
    } else {
        match read_value(s.drop_first()) {
            Some((v, rest)) => Some((seq![s[0]] + v, rest)),
            None => None,
        }
    }
}

/// How many characters of a label value are escaped: backslashes, quotes and
/// newlines.
pub open spec fn specials(v: Seq<char>) -> nat
    decreases v.len(),
{
    if v.len() == 0 {
        0
    } else {
        (if v[0] == '\\' || v[0] == '"' || v[0] == '\n' {
            1nat
        } else {
            0nat
        }) + specials(v.drop_first())
    }
}

/// Whatever a label value holds, a reader finds its end at its own closing
/// quote and reads the value back; it stays on one line, and every quote in it
/// stands behind a backslash. It is longer by one for each backslash, quote and
/// newline of the value, and the value itself where there is none.
pub proof fn law_a_label_value_is_read_back(v: Seq<char>, rest: Seq<char>)
    ensures
        read_value(escaped(v) + seq!['"'] + rest) == Some((v, rest)),
        !escaped(v).contains('\n'),
        forall|i: int|
            0 <= i < escaped(v).len() && #[trigger] escaped(v)[i] == '"' ==> i > 0 && escaped(v)[i
                - 1] == '\\',
        escaped(v).len() == v.len() + specials(v),
        specials(v) == 0 ==> escaped(v) == v,
    decreases v.len(),
{
    let s = escaped(v) + seq!['"'] + rest;
    if v.len() == 0 {
        assert(s.drop_first() =~= rest);
        assert(v =~= Seq::<char>::empty());
    } else {
        let tail = v.drop_first();
        law_a_label_value_is_read_back(tail, rest);
        let t = escaped(tail) + seq!['"'] + rest;
        let k = escaped_char(v[0]).len() as int;
        assert(s =~= escaped_char(v[0]) + t);
        assert(seq![v[0]] + tail =~= v);
        if v[0] == '\\' || v[0] == '"' || v[0] == '\n' {
            assert(s.skip(2) =~= t);
        } else {
            assert(s.drop_first() =~= t);
        }
        assert forall|i: int| 0 <= i < escaped(v).len() implies #[trigger] escaped(v)[i] != '\n'
            && (escaped(v)[i] == '"' ==> i > 0 && escaped(v)[i - 1] == '\\') by {
            if i >= k {
                assert(escaped(v)[i] == escaped(tail)[i - k]);
                if i > k {
                    assert(escaped(v)[i - 1] == escaped(tail)[i - k - 1]);
                }
            }
        }
        if specials(v) == 0 {
            assert(escaped(v) =~= v);
        }
    }
}

/// Different label values are written differently.
pub proof fn law_label_values_are_told_apart(a: Seq<char>, b: Seq<char>)
    requires
        escaped(a) == escaped(b),
    ensures
        a == b,
{
    law_a_label_value_is_read_back(a, Seq::empty());
    law_a_label_value_is_read_back(b, Seq::empty());
}

/// A label value between its quotes.
pub fn escape(v: &str) -> (out: String)
    ensures
        out@ == escaped(v@),
{
    let mut out = String::new();
    let n: usize = v.unicode_len();
    let mut start: usize = 0;
    let mut i: usize = 0;
    assert(v@.take(0) =~= Seq::<char>::empty());
    assert(out@ =~= escaped(v@.take(0)));
    assert(v@.subrange(0, 0) =~= Seq::<char>::empty());
    for c in it: v.chars()
        invariant
            it.seq() == v@,
            n == v@.len(),
            i == it.index(),
            start <= i <= n,
            out@ + v@.subrange(start as int, i as int) == escaped(v@.take(i as int)),
    {
        proof {
            assert(c == v@[i as int]);
            lemma_escaped_push(v@.take(i as int), c);
            assert(v@.take(i as int + 1) =~= v@.take(i as int).push(c));
            reveal_strlit("\\\\");
            reveal_strlit("\\\"");
            reveal_strlit("\\n");
        }
        let ghost had = out@;
        let ghost run = v@.subrange(start as int, i as int);
        if c == '\\' || c == '"' || c == '\n' {
            out.append(v.substring_char(start, i));
            if c == '\\' {
                out.append("\\\\");
                assert("\\\\"@ =~= escaped_char(c));
            } else if c == '"' {
                out.append("\\\"");
                assert("\\\""@ =~= escaped_char(c));
            } else {
                out.append("\\n");
                assert("\\n"@ =~= escaped_char(c));
            }
            start = i + 1;
            proof {
                assert(v@.subrange(start as int, i as int + 1) =~= Seq::<char>::empty());
                assert(out@ + v@.subrange(start as int, i as int + 1) =~= (had + run)
                    + escaped_char(c));
            }
        } else {
            proof {
                assert(v@.subrange(start as int, i as int + 1) =~= run.push(c));
                assert(out@ + v@.subrange(start as int, i as int + 1) =~= (had + run)
                    + escaped_char(c));
            }
        }
        i += 1;
    }
    out.append(v.substring_char(start, n));
    proof {
        assert(v@.take(n as int) =~= v@);
    }
    out
}

// ---------------------------------------------------------------------------
// lines
// ---------------------------------------------------------------------------
/// One label.
pub open spec fn pair_text(label: (Seq<char>, Seq<char>)) -> Seq<char> {
    label.0 + "=\""@ + escaped(label.1) + "\""@
}

/// The first `n` labels.
pub open spec fn pairs_text(labels: LabelsView, n: nat) -> Seq<char>
    decreases n,
{
    if n == 0 {
        Seq::empty()
    } else if n == 1 {
        pair_text(labels[0])
    } else {
        pairs_text(labels, (n - 1) as nat) + ","@ + pair_text(labels[n - 1])
    }
}

/// The labels in their braces, where there are any.
pub open spec fn labels_text(labels: LabelsView) -> Seq<char> {
    if labels.len() == 0 {
        Seq::empty()
    } else {
        "{"@ + pairs_text(labels, labels.len()) + "}"@
    }
}

/// A line, its value written as `number`.
pub open spec fn line_text(family: usize, line: LineView, number: Seq<char>) -> Seq<char> {
    catalog::name_of(family as int) + line.suffix.spec_text() + labels_text(line.labels) + " "@
        + number + "\n"@
}

/// The header of a family.
pub open spec fn header_text(family: usize) -> Seq<char> {
    let name = catalog::name_of(family as int);
    "# HELP "@ + name + " "@ + catalog::help_of(family as int) + "\n# TYPE "@ + name + " "@
        + catalog::kind_of(family as int) + "\n"@
}

/// A sample at place `i`: the header where its family begins, then its line.
pub open spec fn item_text(items: Seq<ItemView>, i: int, number: Seq<char>) -> Seq<char> {
    let family = items[i].family;
    let head = if i > 0 && items[i - 1].family == family {
        Seq::empty()
    } else {
        header_text(family)
    };
    match items[i].line {
        Some(line) => head + line_text(family, line, number),
        None => head,
    }
}

/// The text of the first `n` samples.
pub open spec fn written(items: Seq<ItemView>, numbers: Seq<Seq<char>>, n: nat) -> Seq<char>
    decreases n,
{
    if n == 0 {
        Seq::empty()
    } else {
        written(items, numbers, (n - 1) as nat) + item_text(items, n - 1, numbers[n - 1])
    }
}

/// `t` is how `value` is written: small counts in decimal, everything else as
/// `number` writes it.
pub open spec fn is_number<N: Fn(Value) -> String>(number: N, value: Value, t: Seq<char>) -> bool {
    match value {
        Value::Count(n) if n < EXACT_COUNTS => t == text::dec(n as nat),
        _ => exists|s: String| #[trigger] number.ensures((value,), s) && s@ == t,
    }
}

/// `numbers` are how the samples' values are written.
pub open spec fn are_numbers<N: Fn(Value) -> String>(
    number: N,
    items: Seq<ItemView>,
    numbers: Seq<Seq<char>>,
) -> bool {
    &&& numbers.len() == items.len()
    &&& forall|i: int|
        0 <= i < items.len() && (#[trigger] items[i]).line is Some ==> is_number(
            number,
            items[i].line->0.value,
            numbers[i],
        )
}

fn push_labels(out: &mut String, labels: &Labels)
    ensures
        final(out)@ == old(out)@ + labels_text(labels_view(labels@)),
{
    let ghost before = out@;
    let ghost all = labels_view(labels@);
    if labels.len() == 0 {
        assert(out@ =~= before + labels_text(all));
        return ;
    }
    out.append("{");
    let ghost opened = out@;
    let mut i: usize = 0;
    assert(out@ =~= opened + pairs_text(all, 0));
    while i < labels.len()
        invariant
            i <= labels@.len(),
            all == labels_view(labels@),
            out@ == opened + pairs_text(all, i as nat),
        decreases labels@.len() - i,
    {
        let ghost had = out@;
        if i > 0 {
            out.append(",");
        }
        out.append(labels[i].0);
        out.append("=\"");
        out.append(escape(labels[i].1.as_str()).as_str());
        out.append("\"");
        proof {
            assert(all[i as int] == (labels@[i as int].0@, labels@[i as int].1@));
            if i > 0 {
                assert(out@ =~= had + (","@ + pair_text(all[i as int])));
                assert(pairs_text(all, (i + 1) as nat) =~= pairs_text(all, i as nat) + (","@
                    + pair_text(all[i as int])));
            } else {
                assert(out@ =~= had + pair_text(all[0]));
            }
            assert(out@ =~= opened + pairs_text(all, (i + 1) as nat));
        }
        i += 1;
    }
    out.append("}");
    proof {
        assert(out@ =~= before + labels_text(all));
    }
}

fn push_header(out: &mut String, family: usize)
    requires
        family < catalog::FAMILY_COUNT,
    ensures
        final(out)@ == old(out)@ + header_text(family),
{
    let (name, kind, help) = catalog::entry(family);
    out.append("# HELP ");
    out.append(name);
    out.append(" ");
    out.append(help);
    out.append("\n# TYPE ");
    out.append(name);
    out.append(" ");
    out.append(kind);
    out.append("\n");
    assert(out@ =~= old(out)@ + header_text(family));
}

fn push_line(out: &mut String, family: usize, line: &Line, number: &str)
    requires
        family < catalog::FAMILY_COUNT,
    ensures
        final(out)@ == old(out)@ + line_text(family, line@, number@),
{
    out.append(catalog::entry(family).0);
    match line.suffix {
        Suffix::Plain => {},
        Suffix::Bucket => {
            out.append("_bucket");
        },
        Suffix::Sum => {
            out.append("_sum");
        },
        Suffix::Count => {
            out.append("_count");
        },
    }
    push_labels(out, &line.labels);
    out.append(" ");
    out.append(number);
    out.append("\n");
    assert(out@ =~= old(out)@ + line_text(family, line@, number@));
}

/// Write samples. Values other than small counts are written by `number`.
pub fn write<N: Fn(Value) -> String>(items: &Vec<Item>, number: N) -> (r: String)
    requires
        forall|i: int| 0 <= i < items@.len() ==> (#[trigger] items@[i]).family < catalog::FAMILY_COUNT,
        forall|v: Value| #[trigger] number.requires((v,)),
    ensures
        exists|numbers: Seq<Seq<char>>| #[trigger]
            are_numbers(number, item_views(items@), numbers) && r@ == written(
                item_views(items@),
                numbers,
                items@.len(),
            ),
{
    let mut out = String::new();
    let ghost all = item_views(items@);
    let ghost mut numbers: Seq<Seq<char>> = Seq::empty();
    let mut i: usize = 0;
    while i < items.len()
        invariant
            forall|j: int|
                0 <= j < items@.len() ==> (#[trigger] items@[j]).family < catalog::FAMILY_COUNT,
            forall|v: Value| #[trigger] number.requires((v,)),
            all == item_views(items@),
            i <= items@.len(),
            numbers.len() == i,
            forall|j: int|
                0 <= j < i && (#[trigger] all[j]).line is Some ==> is_number(
                    number,
                    all[j].line->0.value,
                    numbers[j],
                ),
            out@ == written(all, numbers, i as nat),
        decreases items@.len() - i,
    {
        let item = &items[i];
        let ghost had = out@;
        let ghost mut n: Seq<char> = Seq::empty();
        assert(all[i as int] == item@);
        if i == 0 || items[i - 1].family != item.family {
            push_header(&mut out, item.family);
        }
        if let Some(line) = &item.line {
            let small: bool = match line.value {
                Value::Count(c) => c < EXACT_COUNTS,
                _ => false,
            };
            let t = if small {
                match line.value {
                    Value::Count(c) => text::u64_text(c),
                    _ => String::new(),
                }
            } else {
                number(line.value)
            };
            push_line(&mut out, item.family, line, t.as_str());
            proof {
                n = t@;
            }
        }
        proof {
            lemma_written_prefix(all, numbers, n, i as nat);
            numbers = numbers.push(n);
            assert(i > 0 ==> all[i - 1].family == items@[i - 1].family);
            assert(out@ =~= had + item_text(all, i as int, n));
        }
        i += 1;
    }
    proof {
        assert(are_numbers(number, all, numbers));
    }
    out
}

proof fn lemma_written_prefix(
    items: Seq<ItemView>,
    numbers: Seq<Seq<char>>,
    last: Seq<char>,
    n: nat,
)
    requires
        n <= numbers.len(),
    ensures
        written(items, numbers.push(last), n) == written(items, numbers, n),
    decreases n,
{
    if n > 0 {
        lemma_written_prefix(items, numbers, last, (n - 1) as nat);
    }
}

} // verus!
