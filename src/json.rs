//! Chat-component trees: a JSON value whose object fields keep their order,
//! the encoder from text with formatting codes, and the renderer back to HTML.
use vstd::prelude::*;
use crate::codes::{
    declaration, digit_for, digit_of, hex, style_for, style_of, color_of_number, CodeToHex, Extras,
    MARKER,
};
use crate::markup::{html_of, runs_of, scan, text_to_html, Run, TextRun};
use crate::text::{decimal, push_decimal, push_str};

verus! {

/// A JSON value. An object is a list of fields in their order.
#[derive(Debug)]
pub enum Json {
    Null,
    Bool(bool),
    Number(u64),
    Str(String),
    Array(Vec<Json>),
    Object(Vec<(String, Json)>),
}

/// What a JSON value is, with strings as character sequences.
pub ghost enum JsonModel {
    Null,
    Bool(bool),
    Number(u64),
    Str(Seq<char>),
    Array(Seq<JsonModel>),
    Object(Seq<(Seq<char>, JsonModel)>),
}

/// The model of a value.
pub open spec fn model_of(j: Json) -> JsonModel
    decreases j, 0nat,
{
    match j {
        Json::Null => JsonModel::Null,
        Json::Bool(b) => JsonModel::Bool(b),
        Json::Number(n) => JsonModel::Number(n),
        Json::Str(s) => JsonModel::Str(s@),
        Json::Array(items) => JsonModel::Array(items_model(items@)),
        Json::Object(fields) => JsonModel::Object(fields_model(fields@)),
    }
}

/// The models of a sequence of values.
pub open spec fn items_model(items: Seq<Json>) -> Seq<JsonModel>
    decreases items, items.len(),
{
    if items.len() == 0 {
        Seq::empty()
    } else {
        items_model(items.subrange(0, items.len() - 1)).push(model_of(items[items.len() - 1]))
    }
}

/// The models of a sequence of fields, keys as character sequences.
pub open spec fn fields_model(fields: Seq<(String, Json)>) -> Seq<(Seq<char>, JsonModel)>
    decreases fields, fields.len(),
{
    if fields.len() == 0 {
        Seq::empty()
    } else {
        let last = fields[fields.len() - 1];
        fields_model(fields.subrange(0, fields.len() - 1)).push((last.0@, model_of(last.1)))
    }
}

impl View for Json {
    type V = JsonModel;

    open spec fn view(&self) -> JsonModel {
        model_of(*self)
    }
}

/// The style field of a node: the style's declaration as the key, `true` as
/// the value; none without a style.
pub open spec fn style_field(e: Option<Extras>) -> Seq<(Seq<char>, JsonModel)> {
    match e {
        Some(e) => seq![(declaration(e), JsonModel::Bool(true))],
        None => Seq::empty(),
    }
}

/// The `color` field of a node; none without a colour.
pub open spec fn color_field(c: Option<CodeToHex>) -> Seq<(Seq<char>, JsonModel)> {
    match c {
        Some(c) => seq![("color"@, JsonModel::Str(hex(c)))],
        None => Seq::empty(),
    }
}

/// The node of one run: its `text`, then its style flag, then its `color`.
pub open spec fn node_of(r: Run) -> JsonModel {
    JsonModel::Object(seq![("text"@, JsonModel::Str(r.text))] + style_field(r.style) + color_field(
        r.color,
    ))
}

/// The tree of a string with formatting codes: an empty `text` and, under
/// `extra`, one node for each run, in order.
pub open spec fn tree_of(s: Seq<char>) -> JsonModel {
    JsonModel::Object(
        seq![
            ("text"@, JsonModel::Str(Seq::empty())),
            ("extra"@, JsonModel::Array(runs_of(s).map_values(|r: Run| node_of(r)))),
        ],
    )
}

/// The models of a sequence of values, one for each, in order.
pub proof fn lemma_items_model(items: Seq<Json>)
    ensures
        items_model(items) == items.map_values(|j: Json| j@),
    decreases items.len(),
{
    if items.len() > 0 {
        let init = items.subrange(0, items.len() - 1);
        lemma_items_model(init);
        assert(items_model(items) =~= items.map_values(|j: Json| j@));
    } else {
        assert(items_model(items) =~= items.map_values(|j: Json| j@));
    }
}

/// The models of a sequence of fields, one for each, in order.
pub proof fn lemma_fields_model(fields: Seq<(String, Json)>)
    ensures
        fields_model(fields) == fields.map_values(|f: (String, Json)| (f.0@, f.1@)),
    decreases fields.len(),
{
    if fields.len() > 0 {
        let init = fields.subrange(0, fields.len() - 1);
        lemma_fields_model(init);
        assert(fields_model(fields) =~= fields.map_values(|f: (String, Json)| (f.0@, f.1@)));
    } else {
        assert(fields_model(fields) =~= fields.map_values(|f: (String, Json)| (f.0@, f.1@)));
    }
}

/// An array value holding `items`.
fn array_value(items: Vec<Json>) -> (r: Json)
    ensures
        r@ == JsonModel::Array(items@.map_values(|j: Json| j@)),
{
    proof {
        lemma_items_model(items@);
    }
    Json::Array(items)
}

/// An object value holding `fields`, in their order.
fn object_value(fields: Vec<(String, Json)>) -> (r: Json)
    ensures
        r@ == JsonModel::Object(fields@.map_values(|f: (String, Json)| (f.0@, f.1@))),
{
    proof {
        lemma_fields_model(fields@);
    }
    Json::Object(fields)
}

/// A string value holding `t`.
fn str_value(t: &str) -> (r: Json)
    ensures
        r@ == JsonModel::Str(t@),
{
    Json::Str(t.to_owned())
}

/// The node of one run.
fn run_node(run: TextRun) -> (r: Json)
    ensures
        r@ == node_of(run@),
{
    let ghost rv = run@;
    let mut fields: Vec<(String, Json)> = Vec::new();
    fields.push(("text".to_owned(), Json::Str(run.text)));
    let ghost head = seq![("text"@, JsonModel::Str(rv.text))];
    match run.style {
        Some(e) => {
            fields.push((e.get().to_owned(), Json::Bool(true)));
        },
        None => {},
    }
    let ghost with_style = head + style_field(rv.style);
    match run.color {
        Some(c) => {
            fields.push(("color".to_owned(), str_value(c.get())));
        },
        None => {},
    }
    let ghost all = with_style + color_field(rv.color);
    assert(fields@.len() == all.len());
    assert forall|k: int| 0 <= k < fields@.len() implies (#[trigger] fields@[k].0@, fields@[k].1@)
        == all[k] by {
        if k == 0 {
            assert(all[0] == head[0]);
        } else if k == 1 && rv.style is Some {
            assert(all[1] == with_style[1]);
        }
    }
    let r = object_value(fields);
    assert(r@->Object_0 =~= all);
    r
}

/// The chat-component tree of a string with formatting codes: an empty
/// `text`, and under `extra` one node for each run of literal text, with the
/// run's style flag and colour.
pub fn text_to_json(text: &String) -> (r: Json)
    ensures
        r@ == tree_of(text@),
{
    let mut runs = scan(text);
    let ghost rs = runs@.map_values(|r: TextRun| r@);
    let ghost nodes = rs.map_values(|r: Run| node_of(r));
    let mut extra: Vec<Json> = Vec::new();
    let mut rest: Vec<TextRun> = Vec::new();
    // Taking the runs from the back lets each one be moved into its node.
    while runs.len() > 0
        invariant
            rs == runs_of(text@),
            nodes == rs.map_values(|r: Run| node_of(r)),
            rs.len() == runs@.len() + extra@.len(),
            forall|k: int| 0 <= k < runs@.len() ==> #[trigger] runs@[k]@ == rs[k],
            forall|k: int|
                0 <= k < extra@.len() ==> #[trigger] extra@[k]@ == nodes[rs.len() - 1 - k],
        decreases runs.len(),
    {
        let run = runs.pop().unwrap();
        let node = run_node(run);
        extra.push(node);
    }
    let mut ordered: Vec<Json> = Vec::new();
    while extra.len() > 0
        invariant
            nodes.len() == rs.len(),
            rs.len() == extra@.len() + ordered@.len(),
            forall|k: int|
                0 <= k < extra@.len() ==> #[trigger] extra@[k]@ == nodes[rs.len() - 1 - k],
            forall|k: int| 0 <= k < ordered@.len() ==> #[trigger] ordered@[k]@ == nodes[k],
        decreases extra.len(),
    {
        let node = extra.pop().unwrap();
        ordered.push(node);
    }
    let ghost items = ordered@;
    let arr = array_value(ordered);
    assert(arr@->Array_0 =~= nodes) by {
        assert forall|k: int| 0 <= k < nodes.len() implies arr@->Array_0[k] == nodes[k] by {
            assert(items[k]@ == nodes[k]);
        }
    }
    let empty = str_value("");
    let mut fields: Vec<(String, Json)> = Vec::new();
    fields.push(("text".to_owned(), empty));
    fields.push(("extra".to_owned(), arr));
    let r = object_value(fields);
    proof {
        reveal_strlit("");
        assert(""@ =~= Seq::<char>::empty());
        assert(r@->Object_0 =~= tree_of(text@)->Object_0);
    }
    r
}

/// The colour register after a one-character key: the colour its selector
/// names, white for any other character.
pub open spec fn key_color(c: char) -> Seq<char> {
    match digit_of(c) {
        Some(d) => hex(color_of_number(d as int)),
        None => hex(CodeToHex::White),
    }
}

/// The style register after a two-character key: the declaration of the style
/// that a marker and a style selector name, empty for anything else.
pub open spec fn key_style(k: Seq<char>) -> Seq<char> {
    if k[0] == MARKER && style_of(k[1]) is Some {
        declaration(style_of(k[1])->0)
    } else {
        Seq::empty()
    }
}

/// A field's HTML in a span for the style, then in one for the colour, each
/// only when its register is set.
pub open spec fn wrap_field(color: Seq<char>, style: Seq<char>, inner: Seq<char>) -> Seq<char> {
    let styled = if style.len() == 0 {
        inner
    } else {
        "<span style=\""@ + style + "\">"@ + inner + "</span>"@
    };
    if color.len() == 0 {
        styled
    } else {
        "<span style=\"color:"@ + color + ";\">"@ + styled + "</span>"@
    }
}

/// The HTML of a tree: the fields of an object rendered in order; nothing for
/// any other value.
pub open spec fn render(v: JsonModel) -> Seq<char>
    decreases v,
{
    match v {
        JsonModel::Object(fields) => render_fields(fields, Seq::empty(), Seq::empty()),
        _ => Seq::empty(),
    }
}

/// The HTML of a list of fields with the given colour and style registers. A
/// one-character key sets the colour, a two-character key the style; the
/// value of any other key is rendered: a string or a number as text with
/// formatting codes, an object as a tree, anything else as nothing.
pub open spec fn render_fields(
    fields: Seq<(Seq<char>, JsonModel)>,
    color: Seq<char>,
    style: Seq<char>,
) -> Seq<char>
    decreases fields,
{
    if fields.len() == 0 {
        Seq::empty()
    } else {
        let key = fields[0].0;
        let value = fields[0].1;
        let rest = fields.subrange(1, fields.len() as int);
        if key.len() == 1 {
            render_fields(rest, key_color(key[0]), style)
        } else if key.len() == 2 {
            render_fields(rest, color, key_style(key))
        } else {
            let inner = match value {
                JsonModel::Str(t) => html_of(t),
                JsonModel::Number(n) => html_of(decimal(n as nat)),
                JsonModel::Object(_) => render(value),
                _ => Seq::empty(),
            };
            wrap_field(color, style, inner) + render_fields(rest, color, style)
        }
    }
}

/// The colour register after a one-character key.
fn color_for_key(c: char) -> (r: String)
    ensures
        r@ == key_color(c),
{
    match digit_for(c) {
        Some(d) => CodeToHex::from_number(d).get().to_owned(),
        None => CodeToHex::White.get().to_owned(),
    }
}

/// The style register after a two-character key.
fn style_for_key(c0: char, c1: char) -> (r: String)
    ensures
        r@ == key_style(seq![c0, c1]),
{
    match style_for(c1) {
        Some(e) => {
            if c0 == MARKER {
                e.get().to_owned()
            } else {
                String::new()
            }
        },
        None => String::new(),
    }
}

/// Appends a field's HTML, wrapped for the registers.
fn push_wrapped(out: &mut String, color: &String, style: &String, inner: String)
    ensures
        final(out)@ == old(out)@ + wrap_field(color@, style@, inner@),
{
    let styled = if style.as_str().is_empty() {
        inner
    } else {
        let mut w = String::new();
        push_str(&mut w, "<span style=\"");
        push_str(&mut w, style.as_str());
        push_str(&mut w, "\">");
        push_str(&mut w, inner.as_str());
        push_str(&mut w, "</span>");
        w
    };
    if color.as_str().is_empty() {
        push_str(out, styled.as_str());
    } else {
        push_str(out, "<span style=\"color:");
        push_str(out, color.as_str());
        push_str(out, ";\">");
        push_str(out, styled.as_str());
        push_str(out, "</span>");
    }
}

/// The HTML of a chat-component tree, read field by field in order: see
/// `render_fields`.
pub fn json_to_html(json: &Json) -> (r: String)
    ensures
        r@ == render(json@),
    decreases json,
{
    match json {
        Json::Object(fields) => {
            let ghost fm = fields@.map_values(|f: (String, Json)| (f.0@, f.1@));
            proof {
                lemma_fields_model(fields@);
            }
            let mut out = String::new();
            let mut color = String::new();
            let mut style = String::new();
            let mut i: usize = 0;
            assert(fm.subrange(0, fm.len() as int) =~= fm);
            while i < fields.len()
                invariant
                    json is Object && json->Object_0 == *fields,
                    json@ == JsonModel::Object(fm),
                    fm == fields@.map_values(|f: (String, Json)| (f.0@, f.1@)),
                    i <= fields.len(),
                    render(json@) == out@ + render_fields(
                        fm.subrange(i as int, fm.len() as int),
                        color@,
                        style@,
                    ),
                decreases fields.len() - i,
            {
                let ghost rest = fm.subrange(i as int, fm.len() as int);
                assert(rest.subrange(1, rest.len() as int) =~= fm.subrange(i + 1, fm.len() as int));
                assert(rest[0] == (fields@[i as int].0@, fields@[i as int].1@));
                let key = fields[i].0.as_str();
                let n = key.unicode_len();
                if n == 1 {
                    color = color_for_key(key.get_char(0));
                    assert(key@[0] == fm[i as int].0[0]);
                } else if n == 2 {
                    let c0 = key.get_char(0);
                    let c1 = key.get_char(1);
                    style = style_for_key(c0, c1);
                    assert(key@ =~= seq![c0, c1]);
                } else {
                    let value = &fields[i].1;
                    let inner = match value {
                        Json::Str(t) => text_to_html(t),
                        Json::Number(v) => {
                            let mut d = String::new();
                            push_decimal(&mut d, *v);
                            text_to_html(&d)
                        },
                        Json::Object(_) => {
                            proof {
                                let ghost fv = json->Object_0;
                                assert(decreases_to!(json => fv));
                                assert(decreases_to!(fv => fv[i as int]));
                                assert(decreases_to!(fv[i as int] => fv[i as int].1));
                            }
                            json_to_html(value)
                        },
                        _ => String::new(),
                    };
                    push_wrapped(&mut out, &color, &style, inner);
                }
                i = i + 1;
            }
            out
        },
        _ => String::new(),
    }
}

/// The HTML of a chat-component tree; the same as `json_to_html`.
pub fn json_render(json: &Json) -> (r: String)
    ensures
        r@ == render(json@),
{
    json_to_html(json)
}

} // verus!
