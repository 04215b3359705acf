//! Line diffs of two texts, rendered with line numbers and change markers.

use vstd::prelude::*;

use crate::ErrorKind;

verus! {

/// What happened to a line.
#[derive(Debug, Clone, Copy, PartialEq, Eq, Structural)]
pub enum ChangeKind {
    Delete,
    Insert,
    Equal,
}

/// One line of a diff: its kind, its index in the old and the new text, its pieces
/// (each marked as emphasised where it differs within the line), and whether it lacked
/// a line end.
#[derive(Debug)]
pub struct LineChange {
    pub tag: ChangeKind,
    pub old_index: Option<usize>,
    pub new_index: Option<usize>,
    pub parts: Vec<(bool, String)>,
    pub missing_newline: bool,
}

/// The meaning of a [`LineChange`].
pub struct ChangeView {
    pub tag: ChangeKind,
    pub old_index: Option<usize>,
    pub new_index: Option<usize>,
    pub parts: Seq<(bool, Seq<char>)>,
    pub missing_newline: bool,
}

impl View for LineChange {
    type V = ChangeView;

    open spec fn view(&self) -> ChangeView {
        ChangeView {
            tag: self.tag,
            old_index: self.old_index,
            new_index: self.new_index,
            parts: self.parts@.map_values(|p: (bool, String)| (p.0, p.1@)),
            missing_newline: self.missing_newline,
        }
    }
}

/// The meaning of a list of hunks.
pub open spec fn hunks_view(gs: Seq<Vec<LineChange>>) -> Seq<Seq<ChangeView>> {
    gs.map_values(|g: Vec<LineChange>| g@.map_values(|c: LineChange| c@))
}

/// The hunks of the line diff of `a` and `b` that `similar` gives, each with up to
/// `context` unchanged lines around its changes.
pub uninterp spec fn diff_hunks(a: Seq<char>, b: Seq<char>, context: usize) -> Seq<Seq<ChangeView>>;

/// Relies on `similar::TextDiff::from_lines` and `grouped_ops`, with
/// `iter_inline_changes_deadline` without a deadline for the pieces of each line. Equal
/// texts give no hunk: their diff is one unchanged run, and `grouped_ops` drops a group
/// that holds nothing else.
#[verifier::external_body]
fn line_hunks(a: &str, b: &str, context: usize) -> (r: Vec<Vec<LineChange>>)
    requires
        context <= usize::MAX / 2,
    ensures
        hunks_view(r@) == diff_hunks(a@, b@, context),
        a@ == b@ ==> r@.len() == 0,
{
    let diff = similar::TextDiff::from_lines(a, b);
    diff.grouped_ops(context).iter().map(|group| group.iter().flat_map(|op| diff.iter_inline_changes_deadline(op, None)).map(|c| LineChange {
        tag: match c.tag() {
            similar::ChangeTag::Delete => ChangeKind::Delete,
            similar::ChangeTag::Insert => ChangeKind::Insert,
            similar::ChangeTag::Equal => ChangeKind::Equal,
        },
        old_index: c.old_index(),
        new_index: c.new_index(),
        parts: c.iter_strings_lossy().map(|(e, s)| (e, s.into_owned())).collect(),
        missing_newline: c.missing_newline(),
    }).collect()).collect()
}

/// Every line of the diff of `a` and `b`, changed or not, as `similar` gives it.
pub uninterp spec fn all_changes(a: Seq<char>, b: Seq<char>) -> Seq<ChangeView>;

/// The texts of the rows, one after the other.
pub open spec fn joined(rows: Seq<ChangeView>) -> Seq<char>
    decreases rows.len(),
{
    if rows.len() == 0 {
        Seq::empty()
    } else {
        joined(rows.drop_last()) + rows.last().parts[0].1
    }
}

/// Whether `rows` show the text `t` unchanged: one non-empty line per row, in order, the
/// row at `k` numbered `k` on both sides, with no emphasis.
pub open spec fn unchanged_rows(rows: Seq<ChangeView>, t: Seq<char>) -> bool {
    &&& forall|k: int|
        0 <= k < rows.len() ==> {
            &&& (#[trigger] rows[k]).tag == ChangeKind::Equal
            &&& rows[k].old_index == Some(k as usize)
            &&& rows[k].new_index == Some(k as usize)
            &&& rows[k].parts.len() == 1
            &&& !rows[k].parts[0].0
            &&& rows[k].parts[0].1.len() > 0
        }
    &&& joined(rows) == t
}

/// Relies on `similar::TextDiff::from_lines` and `iter_all_changes`. For equal texts
/// the diff is one unchanged run over the lines that `from_lines` cuts the text into:
/// non-empty pieces, each ending after its line end, that make up the text.
#[verifier::external_body]
fn all_line_changes(a: &str, b: &str) -> (r: Vec<LineChange>)
    ensures
        r@.map_values(|c: LineChange| c@) == all_changes(a@, b@),
        a@ == b@ ==> unchanged_rows(r@.map_values(|c: LineChange| c@), a@),
{
    let diff = similar::TextDiff::from_lines(a, b);
    diff.iter_all_changes().map(|c| LineChange {
        tag: match c.tag() {
            similar::ChangeTag::Delete => ChangeKind::Delete,
            similar::ChangeTag::Insert => ChangeKind::Insert,
            similar::ChangeTag::Equal => ChangeKind::Equal,
        },
        old_index: c.old_index(),
        new_index: c.new_index(),
        parts: vec![(false, c.value().to_string())],
        missing_newline: c.missing_newline(),
    }).collect()
}

/// A colour of the report.
#[derive(Debug, Clone, Copy, PartialEq, Eq, Structural)]
pub enum Tone {
    Red,
    Green,
    Dim,
}

/// A weight of the report's text.
#[derive(Debug, Clone, Copy, PartialEq, Eq, Structural)]
pub enum Weight {
    Plain,
    Bold,
    Emphasis,
}

/// A text as `console` styles it, with or without escape codes.
pub uninterp spec fn painted(text: Seq<char>, tone: Tone, weight: Weight, colored: bool) -> Seq<char>;

/// Relies on `console::Style`, forced on or off: off, the text is written as it is.
#[verifier::external_body]
fn paint(text: &str, tone: Tone, weight: Weight, colored: bool) -> (r: String)
    ensures
        r@ == painted(text@, tone, weight, colored),
        !colored ==> r@ == text@,
{
    let style = match tone {
        Tone::Red => console::Style::new().red(),
        Tone::Green => console::Style::new().green(),
        Tone::Dim => console::Style::new().dim(),
    };
    let style = match weight {
        Weight::Plain => style,
        Weight::Bold => style.bold(),
        Weight::Emphasis => style.underlined().on_black(),
    };
    style.force_styling(colored).apply_to(text).to_string()
}

/// Relies on `console::colors_enabled`: whether the terminal takes colours.
#[verifier::external_body]
fn colors_enabled() -> (r: bool)
{
    console::colors_enabled()
}

/// The decimal digit `d`.
pub open spec fn digit(d: nat) -> char {
    if d == 0 { '0' } else if d == 1 { '1' } else if d == 2 { '2' } else if d == 3 { '3' }
    else if d == 4 { '4' } else if d == 5 { '5' } else if d == 6 { '6' } else if d == 7 { '7' }
    else if d == 8 { '8' } else { '9' }
}

/// The decimal text of `n`.
pub open spec fn decimal(n: nat) -> Seq<char>
    decreases n,
{
    if n < 10 {
        seq![digit(n)]
    } else {
        decimal(n / 10).push(digit(n % 10))
    }
}

/// `s` followed by spaces up to four characters.
pub open spec fn pad4(s: Seq<char>) -> Seq<char> {
    if s.len() < 4 {
        s + Seq::new((4 - s.len()) as nat, |i: int| ' ')
    } else {
        s
    }
}

/// The line-number column: the 1-based number, or blanks where the line is absent.
pub open spec fn line_no(i: Option<usize>) -> Seq<char> {
    match i {
        Some(k) => pad4(decimal((k + 1) as nat)),
        None => seq![' ', ' ', ' ', ' '],
    }
}

/// The marker of a change.
pub open spec fn marker(t: ChangeKind) -> char {
    match t {
        ChangeKind::Delete => '-',
        ChangeKind::Insert => '+',
        ChangeKind::Equal => ' ',
    }
}

/// The colour of a change.
pub open spec fn tone_of(t: ChangeKind) -> Tone {
    match t {
        ChangeKind::Delete => Tone::Red,
        ChangeKind::Insert => Tone::Green,
        ChangeKind::Equal => Tone::Dim,
    }
}

/// The pieces of a line, emphasised ones set apart.
pub open spec fn parts_text(ps: Seq<(bool, Seq<char>)>, tone: Tone, colored: bool) -> Seq<char>
    decreases ps.len(),
{
    if ps.len() == 0 {
        Seq::empty()
    } else {
        parts_text(ps.drop_last(), tone, colored) + painted(
            ps.last().1,
            tone,
            if ps.last().0 { Weight::Emphasis } else { Weight::Plain },
            colored,
        )
    }
}

/// One row of the report: both line numbers, ` |`, the marker, and the line.
pub open spec fn row_text(c: ChangeView, colored: bool) -> Seq<char> {
    painted(line_no(c.old_index), Tone::Dim, Weight::Plain, colored) + painted(
        line_no(c.new_index),
        Tone::Dim,
        Weight::Plain,
        colored,
    ) + seq![' ', '|'] + painted(seq![marker(c.tag)], tone_of(c.tag), Weight::Bold, colored)
        + parts_text(c.parts, tone_of(c.tag), colored) + if c.missing_newline {
        seq!['\n']
    } else {
        Seq::empty()
    }
}

/// The rows of one hunk.
pub open spec fn hunk_text(g: Seq<ChangeView>, colored: bool) -> Seq<char>
    decreases g.len(),
{
    if g.len() == 0 {
        Seq::empty()
    } else {
        hunk_text(g.drop_last(), colored) + row_text(g.last(), colored)
    }
}

/// The rule between hunks: eighty dashes and a line end.
pub open spec fn rule_line() -> Seq<char> {
    Seq::new(80, |i: int| '-').push('\n')
}

/// The report of a list of hunks, a rule between each two.
pub open spec fn report_text(gs: Seq<Seq<ChangeView>>, colored: bool) -> Seq<char>
    decreases gs.len(),
{
    if gs.len() == 0 {
        Seq::empty()
    } else {
        report_text(gs.drop_last(), colored) + (if gs.len() > 1 { rule_line() } else { Seq::empty() })
            + hunk_text(gs.last(), colored)
    }
}

/// The number of context lines around each change.
pub const CONTEXT_LINES: usize = 3;

fn digit_text(d: usize) -> (r: &'static str)
    requires
        d < 10,
    ensures
        r@ == seq![digit(d as nat)],
{
    proof {
        reveal_strlit("0");
        reveal_strlit("1");
        reveal_strlit("2");
        reveal_strlit("3");
        reveal_strlit("4");
        reveal_strlit("5");
        reveal_strlit("6");
        reveal_strlit("7");
        reveal_strlit("8");
        reveal_strlit("9");
    }
    if d == 0 { "0" } else if d == 1 { "1" } else if d == 2 { "2" } else if d == 3 { "3" }
    else if d == 4 { "4" } else if d == 5 { "5" } else if d == 6 { "6" } else if d == 7 { "7" }
    else if d == 8 { "8" } else { "9" }
}

/// The decimal text of `n`.
pub fn decimal_text(n: u128) -> (r: String)
    ensures
        r@ == decimal(n as nat),
    decreases n,
{
    if n < 10 {
        String::from_str(digit_text(n as usize))
    } else {
        let mut s = decimal_text(n / 10);
        s.append(digit_text((n % 10) as usize));
        s
    }
}

/// The line-number column for an index.
pub fn line_number(i: Option<usize>) -> (r: String)
    ensures
        r@ == line_no(i),
{
    proof {
        reveal_strlit("    ");
        reveal_strlit(" ");
    }
    match i {
        None => {
            let s = String::from_str("    ");
            assert(s@ =~= seq![' ', ' ', ' ', ' ']);
            s
        },
        Some(k) => {
            let mut s = decimal_text(k as u128 + 1);
            let ghost d = s@;
            let mut len = s.as_str().unicode_len();
            while len < 4
                invariant
                    len == s@.len(),
                    d.len() <= len,
                    d.len() < 4 ==> len <= 4,
                    d.len() >= 4 ==> len == d.len(),
                    s@ =~= d + Seq::new((len - d.len()) as nat, |j: int| ' '),
                decreases 4 - len,
            {
                proof {
                    reveal_strlit(" ");
                }
                s.append(" ");
                len = len + 1;
            }
            proof {
                if d.len() < 4 {
                    assert(s@ =~= pad4(d));
                } else {
                    assert(s@ =~= d + Seq::new(0, |j: int| ' '));
                    assert(s@ =~= pad4(d));
                }
            }
            s
        },
    }
}

fn marker_text(t: ChangeKind) -> (r: &'static str)
    ensures
        r@ == seq![marker(t)],
{
    proof {
        reveal_strlit("-");
        reveal_strlit("+");
        reveal_strlit(" ");
    }
    match t {
        ChangeKind::Delete => "-",
        ChangeKind::Insert => "+",
        ChangeKind::Equal => " ",
    }
}

fn change_tone(t: ChangeKind) -> (r: Tone)
    ensures
        r == tone_of(t),
{
    match t {
        ChangeKind::Delete => Tone::Red,
        ChangeKind::Insert => Tone::Green,
        ChangeKind::Equal => Tone::Dim,
    }
}

/// Renders one row of the report.
pub fn render_row(c: &LineChange, colored: bool) -> (r: String)
    ensures
        r@ == row_text(c@, colored),
{
    let t = change_tone(c.tag);
    let mut out = paint(line_number(c.old_index).as_str(), Tone::Dim, Weight::Plain, colored);
    out.append(paint(line_number(c.new_index).as_str(), Tone::Dim, Weight::Plain, colored).as_str());
    proof {
        reveal_strlit(" |");
        reveal_strlit("\n");
    }
    out.append(" |");
    out.append(paint(marker_text(c.tag), t, Weight::Bold, colored).as_str());
    let ghost head = out@;
    let ghost ps = c@.parts;
    let mut i: usize = 0;
    while i < c.parts.len()
        invariant
            i <= c.parts@.len(),
            ps == c@.parts,
            t == tone_of(c.tag),
            out@ == head + parts_text(ps.subrange(0, i as int), t, colored),
        decreases c.parts@.len() - i,
    {
        assert(ps.subrange(0, i + 1).drop_last() =~= ps.subrange(0, i as int));
        let w = if c.parts[i].0 { Weight::Emphasis } else { Weight::Plain };
        out.append(paint(c.parts[i].1.as_str(), t, w, colored).as_str());
        i = i + 1;
    }
    assert(ps.subrange(0, i as int) =~= ps);
    if c.missing_newline {
        out.append("\n");
    }
    assert(out@ =~= row_text(c@, colored));
    out
}

/// Renders the rows of one hunk.
pub fn render_hunk(group: &Vec<LineChange>, colored: bool) -> (r: String)
    ensures
        r@ == hunk_text(group@.map_values(|c: LineChange| c@), colored),
{
    let ghost rows = group@.map_values(|c: LineChange| c@);
    let mut out = String::new();
    let mut i: usize = 0;
    while i < group.len()
        invariant
            i <= group@.len(),
            rows == group@.map_values(|c: LineChange| c@),
            out@ == hunk_text(rows.subrange(0, i as int), colored),
        decreases group@.len() - i,
    {
        assert(rows.subrange(0, i + 1).drop_last() =~= rows.subrange(0, i as int));
        out.append(render_row(&group[i], colored).as_str());
        i = i + 1;
    }
    assert(rows.subrange(0, i as int) =~= rows);
    out
}

/// Renders a list of hunks: their rows, with a rule between each two hunks.
pub fn render_report(groups: &Vec<Vec<LineChange>>, colored: bool) -> (r: String)
    ensures
        r@ == report_text(hunks_view(groups@), colored),
{
    let ghost gs = hunks_view(groups@);
    let mut out = String::new();
    let mut g: usize = 0;
    while g < groups.len()
        invariant
            g <= groups@.len(),
            gs == hunks_view(groups@),
            out@ == report_text(gs.subrange(0, g as int), colored),
        decreases groups@.len() - g,
    {
        assert(gs.subrange(0, g + 1).drop_last() =~= gs.subrange(0, g as int));
        if g > 0 {
            let mut k: usize = 0;
            let ghost before = out@;
            while k < 80
                invariant
                    k <= 80,
                    out@ == before + Seq::new(k as nat, |j: int| '-'),
                decreases 80 - k,
            {
                proof {
                    reveal_strlit("-");
                }
                out.append("-");
                assert(out@ =~= before + Seq::new((k + 1) as nat, |j: int| '-'));
                k = k + 1;
            }
            proof {
                reveal_strlit("\n");
            }
            out.append("\n");
            assert(out@ =~= before + rule_line());
        }
        let group = &groups[g];
        let ghost rows = group@.map_values(|c: LineChange| c@);
        assert(rows == gs[g as int]);
        out.append(render_hunk(group, colored).as_str());
        assert(gs.subrange(0, g + 1).last() == rows);
        g = g + 1;
    }
    assert(gs.subrange(0, g as int) =~= gs);
    out
}

/// The report of the diff of two texts, with escape codes where `colored`: the hunks,
/// or every line as an unchanged row where nothing changed.
pub open spec fn diff_report(a: Seq<char>, b: Seq<char>, colored: bool) -> Seq<char> {
    if diff_hunks(a, b, CONTEXT_LINES).len() == 0 {
        hunk_text(all_changes(a, b), colored)
    } else {
        report_text(diff_hunks(a, b, CONTEXT_LINES), colored)
    }
}

/// The line diff of two texts, with three lines of context around each change and
/// escape codes where `colored`. Equal texts show each of their lines once, numbered
/// alike on both sides and marked unchanged.
pub fn diff_text_styled(text1: &str, text2: &str, colored: bool) -> (r: String)
    ensures
        r@ == diff_report(text1@, text2@, colored),
        text1@ == text2@ ==> exists|rows: Seq<ChangeView>|
            unchanged_rows(rows, text1@) && r@ == hunk_text(rows, colored),
{
    let groups = line_hunks(text1, text2, CONTEXT_LINES);
    if groups.len() == 0 {
        let rows = all_line_changes(text1, text2);
        render_hunk(&rows, colored)
    } else {
        render_report(&groups, colored)
    }
}

/// The line diff of two texts, coloured where the terminal takes colours.
pub fn diff_text(text1: &str, text2: &str) -> (r: Result<String, ErrorKind>)
    ensures
        r matches Ok(t) && (t@ == diff_report(text1@, text2@, true) || t@ == diff_report(
            text1@,
            text2@,
            false,
        )),
        text1@ == text2@ ==> (r matches Ok(t) && exists|rows: Seq<ChangeView>|
            unchanged_rows(rows, text1@) && (t@ == hunk_text(rows, true) || t@ == hunk_text(rows, false))),
{
    Ok(diff_text_styled(text1, text2, colors_enabled()))
}

} // verus!
