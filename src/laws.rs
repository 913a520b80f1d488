//! What holds of the encoders across all inputs.
use vstd::prelude::*;
use crate::codes::{is_selector, MARKER};
use crate::json::{node_of, tree_of, JsonModel};
use crate::markup::{
    apply_selector, escape, flush, has_code, html_of, is_code_at, plain_state, run_html, runs_html,
    runs_of, scan_from, strip_codes, Run, StyleState,
};

verus! {

/// Whether, once the codes that stand one after another at the start of `t`
/// are taken out, a selector comes first.
pub open spec fn selector_after_codes(t: Seq<char>) -> bool
    decreases t.len(),
{
    if is_code_at(t, 0) {
        selector_after_codes(t.skip(2))
    } else {
        t.len() > 0 && is_selector(t[0])
    }
}

/// Whether taking the codes out of `s` brings a marker next to a selector: a
/// marker followed by one or more codes and then by a selector.
pub open spec fn joins_code(s: Seq<char>) -> bool {
    exists|i: int| joins_at(s, i)
}

/// Whether the marker at position `i` of `s` is followed by one or more codes
/// and then by a selector.
pub open spec fn joins_at(s: Seq<char>, i: int) -> bool {
    0 <= i < s.len() && s[i] == MARKER && is_code_at(s, i + 1) && selector_after_codes(s.skip(i + 1))
}

proof fn lemma_first_after_strip(t: Seq<char>)
    ensures
        (strip_codes(t).len() > 0 && is_selector(strip_codes(t)[0])) == selector_after_codes(t),
    decreases t.len(),
{
    if is_code_at(t, 0) {
        lemma_first_after_strip(t.skip(2));
    }
}

proof fn lemma_code_shift(s: Seq<char>, k: int, i: int)
    requires
        0 <= k <= s.len(),
        0 <= i,
    ensures
        is_code_at(s.skip(k), i) == is_code_at(s, i + k),
{
}

proof fn lemma_joins_suffix(s: Seq<char>, k: int)
    requires
        0 <= k <= s.len(),
        joins_code(s.skip(k)),
    ensures
        joins_code(s),
{
    let t = s.skip(k);
    let i = choose|i: int| joins_at(t, i);
    lemma_code_shift(s, k, i + 1);
    assert(t.skip(i + 1) =~= s.skip(i + k + 1));
    assert(joins_at(s, i + k));
}

proof fn lemma_no_code_strips_to_itself(t: Seq<char>)
    requires
        !has_code(t),
    ensures
        strip_codes(t) == t,
    decreases t.len(),
{
    if t.len() > 0 {
        assert(!is_code_at(t, 0));
        assert forall|i: int| !is_code_at(t.skip(1), i) by {
            if i >= 0 {
                lemma_code_shift(t, 1, i);
            }
        }
        lemma_no_code_strips_to_itself(t.skip(1));
        assert(seq![t[0]] + t.skip(1) =~= t);
    }
}

/// Taking the codes out of a string leaves a code behind exactly when a marker
/// in it is followed by codes and then a selector (as in `"§§aa"`, which
/// gives `"§a"`); on every other string the plain text holds no code.
pub proof fn lemma_plain_text_has_no_code(s: Seq<char>)
    ensures
        has_code(strip_codes(s)) == joins_code(s),
    decreases s.len(),
{
    if s.len() == 0 {
        assert(!has_code(strip_codes(s)));
        assert(!joins_code(s));
    } else if is_code_at(s, 0) {
        lemma_plain_text_has_no_code(s.skip(2));
        if joins_code(s.skip(2)) {
            lemma_joins_suffix(s, 2);
        }
        if joins_code(s) {
            let i = choose|i: int| joins_at(s, i);
            // Position 1 holds a selector, never a marker.
            assert(i >= 2);
            lemma_code_shift(s, 2, i - 1);
            assert(s.skip(2).skip(i - 1) =~= s.skip(i + 1));
            assert(joins_at(s.skip(2), i - 2));
        }
    } else {
        let rest = s.skip(1);
        let r = strip_codes(rest);
        lemma_plain_text_has_no_code(rest);
        lemma_first_after_strip(rest);
        let out = seq![s[0]] + r;
        assert(strip_codes(s) == out);
        if joins_code(rest) {
            lemma_joins_suffix(s, 1);
            let j = choose|j: int| is_code_at(r, j);
            assert(is_code_at(out, j + 1));
        }
        if joins_code(s) {
            let i = choose|i: int| joins_at(s, i);
            if i == 0 {
                assert(is_code_at(out, 0));
            } else {
                lemma_code_shift(s, 1, i);
                assert(rest.skip(i) =~= s.skip(i + 1));
                assert(joins_at(rest, i - 1));
                let j = choose|j: int| is_code_at(r, j);
                assert(is_code_at(out, j + 1));
            }
        }
        if has_code(out) {
            let j = choose|j: int| is_code_at(out, j);
            if j == 0 {
                // A marker that starts no code in `s` and is followed, in the
                // plain text, by a selector: codes come between the two.
                lemma_code_shift(s, 1, 0);
                assert(s.skip(1).skip(0) =~= s.skip(1));
                assert(is_code_at(s, 1));
                assert(joins_at(s, 0));
            } else {
                assert(is_code_at(r, j - 1));
            }
        }
    }
}

/// Taking the codes out twice gives what taking them out once gives, on every
/// string where taking them out once leaves no code behind.
pub proof fn lemma_plain_text_idempotent(s: Seq<char>)
    requires
        !joins_code(s),
    ensures
        strip_codes(strip_codes(s)) == strip_codes(s),
{
    lemma_plain_text_has_no_code(s);
    lemma_no_code_strips_to_itself(strip_codes(s));
}

proof fn lemma_scan_without_codes(s: Seq<char>, i: int)
    requires
        !has_code(s),
        0 <= i <= s.len(),
    ensures
        scan_from(s, i, s.take(i), plain_state()) == flush(s, plain_state()),
    decreases s.len() - i,
{
    if i < s.len() {
        assert(!is_code_at(s, i));
        assert(s.take(i).push(s[i]) =~= s.take(i + 1));
        lemma_scan_without_codes(s, i + 1);
    } else {
        assert(s.take(i) =~= s);
    }
}

/// On a string without codes: the plain text is the string itself, the HTML
/// is the string escaped with no span, and, when the string is not empty, the
/// tree holds one node with the whole string as its text.
pub proof fn lemma_text_without_codes(s: Seq<char>)
    requires
        !has_code(s),
    ensures
        strip_codes(s) == s,
        html_of(s) == escape(s),
        s.len() > 0 ==> tree_of(s) == JsonModel::Object(
            seq![
                ("text"@, JsonModel::Str(Seq::empty())),
                (
                    "extra"@,
                    JsonModel::Array(seq![JsonModel::Object(seq![("text"@, JsonModel::Str(s))])]),
                ),
            ],
        ),
{
    lemma_no_code_strips_to_itself(s);
    assert(s.take(0) =~= Seq::<char>::empty());
    lemma_scan_without_codes(s, 0);
    let rs = runs_of(s);
    if s.len() > 0 {
        let run = Run { text: s, color: None, style: None };
        assert(rs == seq![run]);
        assert(rs.drop_last() =~= Seq::<Run>::empty());
        assert(runs_html(rs.drop_last()) == Seq::<char>::empty());
        assert(runs_html(rs) =~= run_html(run));
        assert(node_of(run)->Object_0 =~= seq![("text"@, JsonModel::Str(s))]);
        assert(rs.map_values(|r: Run| node_of(r)) =~= seq![node_of(run)]);
    } else {
        assert(s =~= Seq::<char>::empty());
        assert(escape(s) =~= Seq::<char>::empty());
    }
}

proof fn lemma_scan_literal(s: Seq<char>, i: int, j: int, acc: Seq<char>, st: StyleState)
    requires
        0 <= i <= j <= s.len(),
        forall|k: int| i <= k < j ==> !is_code_at(s, k),
    ensures
        scan_from(s, i, acc, st) == scan_from(s, j, acc + s.subrange(i, j), st),
    decreases j - i,
{
    if i < j {
        assert(!is_code_at(s, i));
        lemma_scan_literal(s, i + 1, j, acc.push(s[i]), st);
        assert(acc.push(s[i]) + s.subrange(i + 1, j) =~= acc + s.subrange(i, j));
    } else {
        assert(acc + s.subrange(i, j) =~= acc);
    }
}

/// A code sets one register and leaves the other as it was, and the state
/// holds over all the text up to the next code: after a code, text without
/// codes, a second code and more text without codes, the first run carries
/// the first code's state and the second run the state that the second code
/// makes of it.
pub proof fn lemma_state_carries_over(c1: char, u: Seq<char>, c2: char, v: Seq<char>)
    requires
        is_selector(c1),
        is_selector(c2),
        u.len() > 0,
        v.len() > 0,
        !has_code(u),
        !has_code(v),
    ensures
        ({
            let st1 = apply_selector(plain_state(), c1);
            let st2 = apply_selector(st1, c2);
            &&& runs_of(seq![MARKER, c1] + u + seq![MARKER, c2] + v) == seq![
                Run { text: u, color: st1.color, style: st1.style },
                Run { text: v, color: st2.color, style: st2.style },
            ]
            &&& (st2.color == st1.color || st2.style == st1.style)
        }),
{
    let st1 = apply_selector(plain_state(), c1);
    let st2 = apply_selector(st1, c2);
    let s = seq![MARKER, c1] + u + seq![MARKER, c2] + v;
    let m: int = 2 + u.len() as int;
    let n: int = s.len() as int;
    assert(s[0] == MARKER && s[1] == c1);
    assert(s[m] == MARKER && s[m + 1] == c2);
    assert(is_code_at(s, 0));
    assert(is_code_at(s, m));
    assert(!is_selector(MARKER));
    assert forall|k: int| 2 <= k < m implies !is_code_at(s, k) by {
        assert(s[k] == u[k - 2]);
        if k + 1 < m {
            assert(s[k + 1] == u[k - 1]);
            assert(!is_code_at(u, k - 2));
        }
    }
    assert forall|k: int| m + 2 <= k < n implies !is_code_at(s, k) by {
        assert(s[k] == v[k - m - 2]);
        if k + 1 < n {
            assert(s[k + 1] == v[k - m - 1]);
            assert(!is_code_at(v, k - m - 2));
        }
    }
    lemma_scan_literal(s, 2, m, Seq::empty(), st1);
    lemma_scan_literal(s, m + 2, n, Seq::empty(), st2);
    assert(Seq::<char>::empty() + s.subrange(2, m) =~= u);
    assert(Seq::<char>::empty() + s.subrange(m + 2, n) =~= v);
    assert(flush(Seq::empty(), plain_state()) =~= Seq::<Run>::empty());
    assert(runs_of(s) =~= seq![
        Run { text: u, color: st1.color, style: st1.style },
        Run { text: v, color: st2.color, style: st2.style },
    ]);
}

/// The texts of a sequence of runs, one after another.
pub open spec fn texts(rs: Seq<Run>) -> Seq<char>
    decreases rs.len(),
{
    if rs.len() == 0 {
        Seq::empty()
    } else {
        rs[0].text + texts(rs.skip(1))
    }
}

proof fn lemma_texts_append(a: Seq<Run>, b: Seq<Run>)
    ensures
        texts(a + b) == texts(a) + texts(b),
    decreases a.len(),
{
    if a.len() == 0 {
        assert(a + b =~= b);
        assert(texts(a) + texts(b) =~= texts(b));
    } else {
        lemma_texts_append(a.skip(1), b);
        assert((a + b).skip(1) =~= a.skip(1) + b);
        assert(texts(a + b) =~= texts(a) + texts(b));
    }
}

proof fn lemma_texts_of_scan(s: Seq<char>, i: int, acc: Seq<char>, st: StyleState)
    requires
        0 <= i <= s.len(),
    ensures
        texts(scan_from(s, i, acc, st)) == acc + strip_codes(s.skip(i)),
    decreases s.len() - i,
{
    let f = flush(acc, st);
    if acc.len() > 0 {
        assert(texts(f.skip(1)) == Seq::<char>::empty());
        assert(texts(f) =~= acc);
    } else {
        assert(texts(f) =~= acc);
    }
    if i == s.len() {
        assert(s.skip(i) =~= Seq::<char>::empty());
        assert(acc + strip_codes(s.skip(i)) =~= acc);
    } else if is_code_at(s, i) {
        lemma_texts_of_scan(s, i + 2, Seq::empty(), apply_selector(st, s[i + 1]));
        lemma_texts_append(f, scan_from(s, i + 2, Seq::empty(), apply_selector(st, s[i + 1])));
        lemma_code_shift(s, i, 0);
        assert(s.skip(i).skip(2) =~= s.skip(i + 2));
        assert(Seq::<char>::empty() + strip_codes(s.skip(i + 2)) =~= strip_codes(s.skip(i + 2)));
    } else {
        lemma_texts_of_scan(s, i + 1, acc.push(s[i]), st);
        lemma_code_shift(s, i, 0);
        assert(s.skip(i).skip(1) =~= s.skip(i + 1));
        assert(acc.push(s[i]) + strip_codes(s.skip(i + 1)) =~= acc + (seq![s[i]] + strip_codes(
            s.skip(i + 1),
        )));
    }
}

/// The plain text of a string is the texts of its runs, one after another.
pub proof fn lemma_plain_text_is_run_texts(s: Seq<char>)
    ensures
        strip_codes(s) == texts(runs_of(s)),
{
    lemma_texts_of_scan(s, 0, Seq::empty(), plain_state());
    assert(s.skip(0) =~= s);
    assert(Seq::<char>::empty() + strip_codes(s) =~= strip_codes(s));
}

} // verus!
