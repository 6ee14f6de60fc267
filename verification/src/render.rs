//! The run renderer: a sequence of styled runs becomes HTML and plain text.
//!
//! Each run is rendered independently. One wrapping element is opened per
//! active attribute, in the fixed order color, bold, italic, underlined,
//! strikethrough; the run's text follows with a minimal character escaper
//! (newline, space, `<` and `>` only); then exactly as many closing tags as
//! were opened. The plain rendering is the bare concatenation of run texts.

use vstd::prelude::*;

use crate::style::RunView;
use crate::style::StyledRun;

verus! {

/// The hex value for each of the sixteen fixed color names, if `name` is one.
pub open spec fn hex_of_color(name: Seq<char>) -> Option<Seq<char>> {
    if name == "black"@ {
        Some("#000000"@)
    } else if name == "dark_blue"@ {
        Some("#0000aa"@)
    } else if name == "dark_green"@ {
        Some("#00aa00"@)
    } else if name == "dark_aqua"@ {
        Some("#00aaaa"@)
    } else if name == "dark_red"@ {
        Some("#aa0000"@)
    } else if name == "dark_purple"@ {
        Some("#aa00aa"@)
    } else if name == "gold"@ {
        Some("#ffaa00"@)
    } else if name == "gray"@ {
        Some("#aaaaaa"@)
    } else if name == "dark_gray"@ {
        Some("#555555"@)
    } else if name == "blue"@ {
        Some("#5555ff"@)
    } else if name == "green"@ {
        Some("#55ff55"@)
    } else if name == "aqua"@ {
        Some("#55ffff"@)
    } else if name == "red"@ {
        Some("#ff5555"@)
    } else if name == "light_purple"@ {
        Some("#ff55ff"@)
    } else if name == "yellow"@ {
        Some("#ffff55"@)
    } else if name == "white"@ {
        Some("#ffffff"@)
    } else {
        None
    }
}

/// What goes after `color: ` in the style declaration: the resolved hex value
/// for a fixed name, otherwise the color string passed through verbatim.
pub open spec fn color_style_value(name: Seq<char>) -> Seq<char> {
    match hex_of_color(name) {
        Some(h) => h,
        None => name,
    }
}

/// The escaping of one text character: newline becomes a line break element,
/// space a non-breaking-space entity, `<` and `>` their entities; everything
/// else passes through unchanged (ampersand and quotes deliberately so).
pub open spec fn escape_char(c: char) -> Seq<char> {
    if c == '\n' {
        "<br>"@
    } else if c == ' ' {
        "&nbsp;"@
    } else if c == '<' {
        "&lt;"@
    } else if c == '>' {
        "&gt;"@
    } else {
        seq![c]
    }
}

/// The escaping of a whole run text, character by character, left to right.
pub open spec fn escape_text(t: Seq<char>) -> Seq<char>
    decreases t.len(),
{
    if t.len() == 0 {
        Seq::empty()
    } else {
        escape_char(t[0]) + escape_text(t.skip(1))
    }
}

/// The opening tag for a run's color, if it has one.
pub open spec fn color_tag(r: RunView) -> Seq<char> {
    match r.color {
        Some(name) => "<span style=\"color: "@ + color_style_value(name) + ";\">"@,
        None => Seq::empty(),
    }
}

/// The opening tags a run produces, in the fixed attribute order.
/// An obfuscated flag has no visual rendering and opens nothing.
pub open spec fn open_tags(r: RunView) -> Seq<char> {
    color_tag(r) + (if r.bold == Some(true) {
        "<span style=\"font-weight: bold;\">"@
    } else {
        Seq::empty()
    }) + (if r.italic == Some(true) {
        "<span style=\"font-style: italic;\">"@
    } else {
        Seq::empty()
    }) + (if r.underlined == Some(true) {
        "<span style=\"text-decoration: underline;\">"@
    } else {
        Seq::empty()
    }) + (if r.strikethrough == Some(true) {
        "<span style=\"text-decoration: line-through;\">"@
    } else {
        Seq::empty()
    })
}

/// How many wrapping elements a run opens (and must close).
pub open spec fn span_count(r: RunView) -> nat {
    (if r.color is Some {
        1nat
    } else {
        0nat
    }) + (if r.bold == Some(true) {
        1nat
    } else {
        0nat
    }) + (if r.italic == Some(true) {
        1nat
    } else {
        0nat
    }) + (if r.underlined == Some(true) {
        1nat
    } else {
        0nat
    }) + (if r.strikethrough == Some(true) {
        1nat
    } else {
        0nat
    })
}

/// `n` closing tags in a row.
pub open spec fn close_tags(n: nat) -> Seq<char>
    decreases n,
{
    if n == 0 {
        Seq::empty()
    } else {
        "</span>"@ + close_tags((n - 1) as nat)
    }
}

/// The full HTML for one run: open tags, escaped text, matching close tags.
pub open spec fn render_run_view(r: RunView) -> Seq<char> {
    open_tags(r) + escape_text(r.text) + close_tags(span_count(r))
}

/// The HTML for a run sequence: each run rendered independently, in order.
pub open spec fn render_html(runs: Seq<RunView>) -> Seq<char>
    decreases runs.len(),
{
    if runs.len() == 0 {
        Seq::empty()
    } else {
        render_run_view(runs[0]) + render_html(runs.skip(1))
    }
}

/// The plain rendering: run texts concatenated in order, nothing else.
pub open spec fn plain_concat(runs: Seq<RunView>) -> Seq<char>
    decreases runs.len(),
{
    if runs.len() == 0 {
        Seq::empty()
    } else {
        runs[0].text + plain_concat(runs.skip(1))
    }
}

proof fn lemma_escape_snoc(t: Seq<char>, c: char)
    ensures
        escape_text(t.push(c)) == escape_text(t) + escape_char(c),
    decreases t.len(),
{
    if t.len() == 0 {
        assert(t.push(c)[0] == c);
        assert(t.push(c).skip(1) =~= Seq::<char>::empty());
        assert(escape_text(t.push(c)) == escape_char(c) + escape_text(t.push(c).skip(1)));
        assert(escape_text(t.push(c).skip(1)) == Seq::<char>::empty());
        assert(escape_char(c) + Seq::<char>::empty() =~= escape_char(c));
        assert(Seq::<char>::empty() + escape_char(c) =~= escape_char(c));
        assert(escape_text(t) == Seq::<char>::empty());
        assert(escape_text(t.push(c)) =~= escape_text(t) + escape_char(c));
    } else {
        assert(t.push(c)[0] == t[0]);
        assert(t.push(c).skip(1) =~= t.skip(1).push(c));
        lemma_escape_snoc(t.skip(1), c);
        assert(escape_char(t[0]) + (escape_text(t.skip(1)) + escape_char(c)) =~= (escape_char(t[0])
            + escape_text(t.skip(1))) + escape_char(c));
    }
}

proof fn lemma_close_snoc(n: nat)
    ensures
        close_tags(n + 1) == close_tags(n) + "</span>"@,
    decreases n,
{
    if n == 0 {
        assert("</span>"@ + Seq::<char>::empty() =~= "</span>"@);
        assert(Seq::<char>::empty() + "</span>"@ =~= "</span>"@);
    } else {
        lemma_close_snoc((n - 1) as nat);
        assert("</span>"@ + (close_tags((n - 1) as nat) + "</span>"@) =~= ("</span>"@ + close_tags(
            (n - 1) as nat,
        )) + "</span>"@);
    }
}

proof fn lemma_render_html_snoc(runs: Seq<RunView>, r: RunView)
    ensures
        render_html(runs.push(r)) == render_html(runs) + render_run_view(r),
    decreases runs.len(),
{
    if runs.len() == 0 {
        assert(runs.push(r)[0] == r);
        assert(runs.push(r).skip(1) =~= Seq::<RunView>::empty());
        assert(render_html(runs.push(r)) == render_run_view(r) + render_html(
            runs.push(r).skip(1),
        ));
        assert(render_html(runs.push(r).skip(1)) == Seq::<char>::empty());
        assert(render_html(runs) == Seq::<char>::empty());
        assert(render_run_view(r) + Seq::<char>::empty() =~= render_run_view(r));
        assert(Seq::<char>::empty() + render_run_view(r) =~= render_run_view(r));
        assert(render_html(runs.push(r)) =~= render_html(runs) + render_run_view(r));
    } else {
        assert(runs.push(r)[0] == runs[0]);
        assert(runs.push(r).skip(1) =~= runs.skip(1).push(r));
        lemma_render_html_snoc(runs.skip(1), r);
        assert(render_run_view(runs[0]) + (render_html(runs.skip(1)) + render_run_view(r)) =~= (
        render_run_view(runs[0]) + render_html(runs.skip(1))) + render_run_view(r));
        assert(render_html(runs.push(r)) =~= render_html(runs) + render_run_view(r));
    }
}

proof fn lemma_plain_snoc(runs: Seq<RunView>, r: RunView)
    ensures
        plain_concat(runs.push(r)) == plain_concat(runs) + r.text,
    decreases runs.len(),
{
    if runs.len() == 0 {
        assert(runs.push(r)[0] == r);
        assert(runs.push(r).skip(1) =~= Seq::<RunView>::empty());
        assert(plain_concat(runs.push(r)) == r.text + plain_concat(runs.push(r).skip(1)));
        assert(plain_concat(runs.push(r).skip(1)) == Seq::<char>::empty());
        assert(plain_concat(runs) == Seq::<char>::empty());
        assert(r.text + Seq::<char>::empty() =~= r.text);
        assert(Seq::<char>::empty() + r.text =~= r.text);
        assert(plain_concat(runs.push(r)) =~= plain_concat(runs) + r.text);
    } else {
        assert(runs.push(r)[0] == runs[0]);
        assert(runs.push(r).skip(1) =~= runs.skip(1).push(r));
        lemma_plain_snoc(runs.skip(1), r);
        assert(runs[0].text + (plain_concat(runs.skip(1)) + r.text) =~= (runs[0].text
            + plain_concat(runs.skip(1))) + r.text);
        assert(plain_concat(runs.push(r)) =~= plain_concat(runs) + r.text);
    }
}

/// Equality of an owned string against a fixed name.
fn str_eq(a: &String, b: &str) -> (r: bool)
    ensures
        r == (a@ == b@),
{
    *a == String::from_str(b)
}

/// The resolved style value for a color name: hex for the sixteen fixed
/// names, the name itself verbatim otherwise.
pub fn color_value_string(name: &String) -> (r: String)
    ensures
        r@ == color_style_value(name@),
{
    if str_eq(name, "black") {
        String::from_str("#000000")
    } else if str_eq(name, "dark_blue") {
        String::from_str("#0000aa")
    } else if str_eq(name, "dark_green") {
        String::from_str("#00aa00")
    } else if str_eq(name, "dark_aqua") {
        String::from_str("#00aaaa")
    } else if str_eq(name, "dark_red") {
        String::from_str("#aa0000")
    } else if str_eq(name, "dark_purple") {
        String::from_str("#aa00aa")
    } else if str_eq(name, "gold") {
        String::from_str("#ffaa00")
    } else if str_eq(name, "gray") {
        String::from_str("#aaaaaa")
    } else if str_eq(name, "dark_gray") {
        String::from_str("#555555")
    } else if str_eq(name, "blue") {
        String::from_str("#5555ff")
    } else if str_eq(name, "green") {
        String::from_str("#55ff55")
    } else if str_eq(name, "aqua") {
        String::from_str("#55ffff")
    } else if str_eq(name, "red") {
        String::from_str("#ff5555")
    } else if str_eq(name, "light_purple") {
        String::from_str("#ff55ff")
    } else if str_eq(name, "yellow") {
        String::from_str("#ffff55")
    } else if str_eq(name, "white") {
        String::from_str("#ffffff")
    } else {
        name.clone()
    }
}

/// Appends a run's opening tags in the fixed attribute order and reports how
/// many were opened.
#[verifier::rlimit(100)]
fn append_open_tags(run: &StyledRun, out: &mut String) -> (spans: usize)
    ensures
        final(out)@ == old(out)@ + open_tags(run@),
        spans == span_count(run@),
{
    let ghost o0 = old(out)@;
    let ghost part_color = color_tag(run@);
    let ghost part_bold: Seq<char> = if run@.bold == Some(true) {
        "<span style=\"font-weight: bold;\">"@
    } else {
        Seq::<char>::empty()
    };
    let ghost part_italic: Seq<char> = if run@.italic == Some(true) {
        "<span style=\"font-style: italic;\">"@
    } else {
        Seq::<char>::empty()
    };
    let ghost part_underline: Seq<char> = if run@.underlined == Some(true) {
        "<span style=\"text-decoration: underline;\">"@
    } else {
        Seq::<char>::empty()
    };
    let ghost part_strike: Seq<char> = if run@.strikethrough == Some(true) {
        "<span style=\"text-decoration: line-through;\">"@
    } else {
        Seq::<char>::empty()
    };
    let mut spans: usize = 0;
    if let Some(color) = &run.color {
        spans = spans + 1;
        out.append("<span style=\"color: ");
        let v = color_value_string(color);
        out.append(v.as_str());
        out.append(";\">");
    }
    proof {
        assert(out@ =~= o0 + part_color);
    }
    if let Some(true) = run.bold {
        spans = spans + 1;
        out.append("<span style=\"font-weight: bold;\">");
    }
    proof {
        assert(out@ =~= o0 + part_color + part_bold);
    }
    if let Some(true) = run.italic {
        spans = spans + 1;
        out.append("<span style=\"font-style: italic;\">");
    }
    proof {
        assert(out@ =~= o0 + part_color + part_bold + part_italic);
    }
    if let Some(true) = run.underlined {
        spans = spans + 1;
        out.append("<span style=\"text-decoration: underline;\">");
    }
    proof {
        assert(out@ =~= o0 + part_color + part_bold + part_italic + part_underline);
    }
    if let Some(true) = run.strikethrough {
        spans = spans + 1;
        out.append("<span style=\"text-decoration: line-through;\">");
    }
    proof {
        assert(out@ =~= o0 + part_color + part_bold + part_italic + part_underline + part_strike);
        assert(open_tags(run@) == part_color + part_bold + part_italic + part_underline + part_strike);
        assert(o0 + part_color + part_bold + part_italic + part_underline + part_strike =~= o0 + (part_color + part_bold + part_italic + part_underline + part_strike));
    }
    spans
}

/// Appends the escaped form of a run's text, character by character.
fn append_escaped(t: &str, out: &mut String)
    ensures
        final(out)@ == old(out)@ + escape_text(t@),
{
    let ghost base = old(out)@;
    let m = t.unicode_len();
    let mut j: usize = 0;
    proof {
        assert(t@.subrange(0, 0) =~= Seq::<char>::empty());
        assert(base + Seq::<char>::empty() =~= base);
    }
    while j < m
        invariant
            m == t@.len(),
            j <= m,
            out@ == base + escape_text(t@.subrange(0, j as int)),
        decreases m - j,
    {
        let ghost j0 = j as int;
        let c = t.get_char(j);
        if c == '\n' {
            out.append("<br>");
        } else if c == ' ' {
            out.append("&nbsp;");
        } else if c == '<' {
            out.append("&lt;");
        } else if c == '>' {
            out.append("&gt;");
        } else {
            let piece = t.substring_char(j, j + 1);
            out.append(piece);
            proof {
                assert(t@.subrange(j0, j0 + 1) =~= seq![t@[j0]]);
            }
        }
        j = j + 1;
        proof {
            lemma_escape_snoc(t@.subrange(0, j0), t@[j0]);
            assert(t@.subrange(0, j0).push(t@[j0]) =~= t@.subrange(0, j0 + 1));
            assert(out@ =~= base + escape_text(t@.subrange(0, j0 + 1)));
        }
    }
    proof {
        assert(t@.subrange(0, m as int) =~= t@);
    }
}

/// Appends `spans` closing tags, one per element the run opened.
fn append_close_tags(spans: usize, out: &mut String)
    ensures
        final(out)@ == old(out)@ + close_tags(spans as nat),
{
    let ghost base = old(out)@;
    let mut k: usize = 0;
    proof {
        assert(base + Seq::<char>::empty() =~= base);
    }
    while k < spans
        invariant
            k <= spans,
            out@ == base + close_tags(k as nat),
        decreases spans - k,
    {
        let ghost k0 = k as nat;
        out.append("</span>");
        k = k + 1;
        proof {
            lemma_close_snoc(k0);
            assert(out@ =~= base + close_tags(k0 + 1));
        }
    }
}

/// Appends the HTML for one run: its open tags, its escaped text, and the
/// matching closing tags, in well-formed nesting order.
fn render_run_html(run: &StyledRun, out: &mut String)
    ensures
        final(out)@ == old(out)@ + render_run_view(run@),
{
    let ghost o0 = old(out)@;
    let spans = append_open_tags(run, out);
    append_escaped(run.text.as_str(), out);
    append_close_tags(spans, out);
    proof {
        assert(out@ =~= o0 + (open_tags(run@) + escape_text(run@.text) + close_tags(
            span_count(run@),
        )));
    }
}

/// The two derived representations of a run sequence.
pub struct Rendered {
    pub html: String,
    pub plain: String,
}

/// Renders a sequence of styled runs to HTML and to the plain concatenation
/// of the run texts. Rendering never fails: any run renders to some string.
pub fn render(runs: &Vec<StyledRun>) -> (r: Rendered)
    ensures
        r.html@ == render_html(runs.deep_view()),
        r.plain@ == plain_concat(runs.deep_view()),
{
    let mut html = String::new();
    let mut plain = String::new();
    let mut idx: usize = 0;
    proof {
        assert(runs.deep_view().take(0) =~= Seq::<RunView>::empty());
    }
    while idx < runs.len()
        invariant
            idx <= runs@.len(),
            runs.deep_view().len() == runs@.len(),
            html@ == render_html(runs.deep_view().take(idx as int)),
            plain@ == plain_concat(runs.deep_view().take(idx as int)),
        decreases runs@.len() - idx,
    {
        let ghost i0 = idx as int;
        let ghost dv = runs.deep_view();
        let run = &runs[idx];
        proof {
            assert(dv[i0] == run@);
        }
        render_run_html(run, &mut html);
        plain.append(run.text.as_str());
        idx = idx + 1;
        proof {
            lemma_render_html_snoc(dv.take(i0), dv[i0]);
            lemma_plain_snoc(dv.take(i0), dv[i0]);
            assert(dv.take(i0).push(dv[i0]) =~= dv.take(i0 + 1));
        }
    }
    proof {
        assert(runs.deep_view().take(runs@.len() as int) =~= runs.deep_view());
    }
    Rendered { html, plain }
}

} // verus!
