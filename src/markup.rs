//! The scanner for formatting codes and the plain-text and HTML encoders.
use vstd::prelude::*;
use crate::codes::{
    declaration, digit_for, digit_of, hex, is_selector, selector_check, style_for, style_of,
    color_of_number, CodeToHex, Extras, MARKER,
};
use crate::text::{chars_of, push_char, push_str};

verus! {

/// The colour and the style in force at some point of a scan. A code sets one
/// of the two and leaves the other as it was.
#[derive(Clone, Copy, Debug, PartialEq, Eq, Structural)]
pub struct StyleState {
    pub color: Option<CodeToHex>,
    pub style: Option<Extras>,
}

/// A span of literal text with the state that was in force over it.
#[derive(Clone, Debug, PartialEq)]
pub struct TextRun {
    pub text: String,
    pub color: Option<CodeToHex>,
    pub style: Option<Extras>,
}

/// What a run is: its characters, its colour and its style.
pub ghost struct Run {
    pub text: Seq<char>,
    pub color: Option<CodeToHex>,
    pub style: Option<Extras>,
}

impl View for TextRun {
    type V = Run;

    open spec fn view(&self) -> Run {
        Run { text: self.text@, color: self.color, style: self.style }
    }
}

/// The state before any code.
pub open spec fn plain_state() -> StyleState {
    StyleState { color: None, style: None }
}

/// Whether a code (marker, then selector) starts at position `i` of `s`.
pub open spec fn is_code_at(s: Seq<char>, i: int) -> bool {
    0 <= i && i + 1 < s.len() && s[i] == MARKER && is_selector(s[i + 1])
}

/// Whether `s` holds a code anywhere.
pub open spec fn has_code(s: Seq<char>) -> bool {
    exists|i: int| is_code_at(s, i)
}

/// The state after the code with selector `c`: a digit sets the colour, a
/// style letter the style.
pub open spec fn apply_selector(st: StyleState, c: char) -> StyleState {
    match digit_of(c) {
        Some(d) => StyleState { color: Some(color_of_number(d as int)), style: st.style },
        None => StyleState { color: st.color, style: style_of(c) },
    }
}

/// The run made of the pending text `acc`, or nothing when it is empty.
pub open spec fn flush(acc: Seq<char>, st: StyleState) -> Seq<Run> {
    if acc.len() == 0 {
        Seq::empty()
    } else {
        seq![Run { text: acc, color: st.color, style: st.style }]
    }
}

/// The runs of `s` from position `i` on, with `acc` read since the last code
/// and `st` in force.
pub open spec fn scan_from(s: Seq<char>, i: int, acc: Seq<char>, st: StyleState) -> Seq<Run>
    decreases s.len() - i,
{
    if i < 0 || i >= s.len() {
        flush(acc, st)
    } else if is_code_at(s, i) {
        flush(acc, st) + scan_from(s, i + 2, Seq::empty(), apply_selector(st, s[i + 1]))
    } else {
        scan_from(s, i + 1, acc.push(s[i]), st)
    }
}

/// The runs of a whole string, in order.
pub open spec fn runs_of(s: Seq<char>) -> Seq<Run> {
    scan_from(s, 0, Seq::empty(), plain_state())
}

/// `s` with every code taken out.
pub open spec fn strip_codes(s: Seq<char>) -> Seq<char>
    decreases s.len(),
{
    if s.len() == 0 {
        s
    } else if is_code_at(s, 0) {
        strip_codes(s.skip(2))
    } else {
        seq![s[0]] + strip_codes(s.skip(1))
    }
}

/// Splits a string into its runs of literal text, each with the colour and
/// style in force over it; empty runs are left out.
pub fn scan(text: &String) -> (runs: Vec<TextRun>)
    ensures
        runs@.map_values(|r: TextRun| r@) == runs_of(text@),
{
    let cs = chars_of(text.as_str());
    let n = cs.len();
    let mut runs: Vec<TextRun> = Vec::new();
    let mut acc = String::new();
    let mut st = StyleState { color: None, style: None };
    let mut i: usize = 0;
    while i < n
        invariant
            cs@ == text@,
            n == cs@.len(),
            i <= n + 1,
            runs_of(text@) == runs@.map_values(|r: TextRun| r@) + scan_from(text@, i as int, acc@, st),
        decreases n + 1 - i,
    {
        let c = cs[i];
        if c == MARKER && i + 1 < n && selector_check(cs[i + 1]) {
            let sel = cs[i + 1];
            let ghost old_runs = runs@;
            let ghost pending = acc@;
            if !acc.as_str().is_empty() {
                runs.push(TextRun { text: acc, color: st.color, style: st.style });
                assert(runs@.map_values(|r: TextRun| r@) =~= old_runs.map_values(|r: TextRun| r@)
                    + flush(pending, st));
            } else {
                assert(runs@.map_values(|r: TextRun| r@) =~= old_runs.map_values(|r: TextRun| r@)
                    + flush(acc@, st));
            }
            acc = String::new();
            match digit_for(sel) {
                Some(d) => {
                    st = StyleState { color: Some(CodeToHex::from_number(d)), style: st.style };
                },
                None => {
                    st = StyleState { color: st.color, style: style_for(sel) };
                },
            }
            i = i + 2;
        } else {
            push_char(&mut acc, c);
            i = i + 1;
        }
    }
    let ghost before = runs@;
    let ghost pending = acc@;
    if !acc.as_str().is_empty() {
        runs.push(TextRun { text: acc, color: st.color, style: st.style });
    }
    assert(runs@.map_values(|r: TextRun| r@) =~= before.map_values(|r: TextRun| r@) + scan_from(
        text@,
        i as int,
        pending,
        st,
    ));
    runs
}

/// Takes every code out of `text` and keeps everything else, line breaks
/// included.
pub fn clean_tags(text: &String) -> (r: String)
    ensures
        r@ == strip_codes(text@),
{
    let cs = chars_of(text.as_str());
    let n = cs.len();
    let mut out = String::new();
    let mut i: usize = 0;
    assert(text@.skip(0) =~= text@);
    assert(out@ + strip_codes(text@) =~= strip_codes(text@));
    while i < n
        invariant
            cs@ == text@,
            n == cs@.len(),
            i <= n,
            strip_codes(text@) == out@ + strip_codes(text@.skip(i as int)),
        decreases n - i,
    {
        let ghost rest = text@.skip(i as int);
        let c = cs[i];
        if c == MARKER && i + 1 < n && selector_check(cs[i + 1]) {
            assert(is_code_at(rest, 0));
            assert(rest.skip(2) =~= text@.skip(i + 2));
            i = i + 2;
        } else {
            assert(!is_code_at(rest, 0));
            assert(rest.skip(1) =~= text@.skip(i + 1));
            let ghost before = out@;
            push_char(&mut out, c);
            assert(before + strip_codes(rest) =~= out@ + strip_codes(text@.skip(i + 1)));
            i = i + 1;
        }
    }
    assert(text@.skip(n as int) =~= Seq::<char>::empty());
    out
}

/// What one character becomes in HTML.
pub open spec fn escape_char(c: char) -> Seq<char> {
    if c == '&' {
        "&amp;"@
    } else if c == '<' {
        "&lt;"@
    } else if c == '>' {
        "&gt;"@
    } else if c == '"' {
        "&quot;"@
    } else if c == '\'' {
        "&#39;"@
    } else if c == '\n' {
        "<br/>"@
    } else {
        seq![c]
    }
}

/// `s` escaped for HTML, character by character.
pub open spec fn escape(s: Seq<char>) -> Seq<char>
    decreases s.len(),
{
    if s.len() == 0 {
        Seq::empty()
    } else {
        escape(s.drop_last()) + escape_char(s.last())
    }
}

/// The opening `color:` part of a span's style, empty without a colour.
pub open spec fn color_part(c: Option<CodeToHex>) -> Seq<char> {
    match c {
        Some(c) => "color:"@ + hex(c) + ";"@,
        None => Seq::empty(),
    }
}

/// The declaration part of a span's style, empty without a style.
pub open spec fn style_part(e: Option<Extras>) -> Seq<char> {
    match e {
        Some(e) => declaration(e),
        None => Seq::empty(),
    }
}

/// The HTML of one run: its escaped text, in a span when it has a colour or a
/// style.
pub open spec fn run_html(r: Run) -> Seq<char> {
    if r.color is None && r.style is None {
        escape(r.text)
    } else {
        "<span style=\""@ + color_part(r.color) + style_part(r.style) + "\">"@ + escape(r.text)
            + "</span>"@
    }
}

/// The HTML of a sequence of runs, one after another.
pub open spec fn runs_html(rs: Seq<Run>) -> Seq<char>
    decreases rs.len(),
{
    if rs.len() == 0 {
        Seq::empty()
    } else {
        runs_html(rs.drop_last()) + run_html(rs.last())
    }
}

/// The HTML of a string with formatting codes.
pub open spec fn html_of(s: Seq<char>) -> Seq<char> {
    runs_html(runs_of(s))
}

/// Appends `text` escaped for HTML: `&`, `<`, `>`, `"` and `'` as entities, a
/// line break as `<br/>`.
fn push_escaped(out: &mut String, text: &String)
    ensures
        final(out)@ == old(out)@ + escape(text@),
{
    let cs = chars_of(text.as_str());
    let n = cs.len();
    let mut i: usize = 0;
    while i < n
        invariant
            cs@ == text@,
            n == cs@.len(),
            i <= n,
            out@ == old(out)@ + escape(text@.take(i as int)),
        decreases n - i,
    {
        let c = cs[i];
        if c == '&' {
            push_str(out, "&amp;");
        } else if c == '<' {
            push_str(out, "&lt;");
        } else if c == '>' {
            push_str(out, "&gt;");
        } else if c == '"' {
            push_str(out, "&quot;");
        } else if c == '\'' {
            push_str(out, "&#39;");
        } else if c == '\n' {
            push_str(out, "<br/>");
        } else {
            push_char(out, c);
        }
        assert(text@.take(i + 1).drop_last() =~= text@.take(i as int));
        i = i + 1;
    }
    assert(text@.take(n as int) =~= text@);
}

/// `text` escaped for HTML.
pub fn html_string_formatting(text: &String) -> (r: String)
    ensures
        r@ == escape(text@),
{
    let mut out = String::new();
    push_escaped(&mut out, text);
    out
}

/// Appends the HTML of one run.
fn push_run_html(out: &mut String, run: &TextRun)
    ensures
        final(out)@ == old(out)@ + run_html(run@),
{
    if run.color.is_none() && run.style.is_none() {
        push_escaped(out, &run.text);
    } else {
        push_str(out, "<span style=\"");
        match run.color {
            Some(c) => {
                push_str(out, "color:");
                push_str(out, c.get());
                push_str(out, ";");
            },
            None => {},
        }
        match run.style {
            Some(e) => {
                push_str(out, e.get());
            },
            None => {},
        }
        push_str(out, "\">");
        push_escaped(out, &run.text);
        push_str(out, "</span>");
        assert(final(out)@ =~= old(out)@ + run_html(run@));
    }
}

/// The HTML of a string with formatting codes: each run escaped, and wrapped
/// in a span that carries its colour and style when it has either.
pub fn text_to_html(text: &String) -> (r: String)
    ensures
        r@ == html_of(text@),
{
    let runs = scan(text);
    let ghost rs = runs@.map_values(|r: TextRun| r@);
    let mut out = String::new();
    let mut i: usize = 0;
    while i < runs.len()
        invariant
            rs == runs@.map_values(|r: TextRun| r@),
            rs == runs_of(text@),
            i <= runs.len(),
            out@ == runs_html(rs.take(i as int)),
        decreases runs.len() - i,
    {
        push_run_html(&mut out, &runs[i]);
        assert(rs.take(i + 1).drop_last() =~= rs.take(i as int));
        i = i + 1;
    }
    assert(rs.take(runs.len() as int) =~= rs);
    out
}

} // verus!
