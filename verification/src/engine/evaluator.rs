//! Condition expressions of the form `fieldPath operator value`, evaluated
//! against a JSON context.
//!
//! Comparisons of JSON numbers read both sides as `f64`; the library leaves
//! those, and the rendering of arrays and objects as JSON text, to its caller
//! by returning what is to be compared instead of a verdict.

use vstd::prelude::*;
use crate::json_value::{clone_json, find_member, items_data, lemma_items_data_index, member_value, JsonData, JsonValue};
use crate::model::elements::ConditionExpression;
use crate::text::{chars_of, contains, contains_chars, is_ws, string_of, trim, trim_chars, trim_end, trim_start};
use crate::words::{
    chars_eq_ignore_ascii_case, eq_ignore_ascii_case, join, join_from, pieces, split_pieces, split_words, strip,
    strip_char, strip_end, strip_start, texts, words, words_state,
};

verus! {

/// The lowercase form of a text, as `str::to_lowercase` gives it (full
/// Unicode case mapping).
pub uninterp spec fn lowercase(s: Seq<char>) -> Seq<char>;

/// Calls `str::to_lowercase`; its result is named `lowercase`.
#[verifier::external_body]
fn to_lowercase(s: &str) -> (r: String)
    ensures
        r@ == lowercase(s@),
{
    s.to_lowercase()
}

/// An ordering comparison between numbers.
#[derive(Debug, Clone, Copy, PartialEq, Eq, Structural)]
pub enum NumericOp {
    /// `>`
    Greater,
    /// `<`
    Less,
    /// `>=`
    GreaterOrEqual,
    /// `<=`
    LessOrEqual,
}

/// What a condition comes to: a verdict, or the comparison that decides it
/// where that comparison reads numbers as `f64` or renders JSON as text.
#[derive(Debug)]
pub enum ConditionOutcome {
    /// The condition holds (`true`) or not.
    Decided(bool),
    /// Holds when the JSON number `number` and `operand`, both read as `f64`,
    /// differ by less than `f64::EPSILON` (never when `operand` is no
    /// number); the verdict is inverted when `negated`.
    NumberEquals { number: String, operand: String, negated: bool },
    /// Holds when the JSON number `number` and `operand`, both read as `f64`,
    /// compare as `op` says (never when `operand` is no number).
    NumberOrder { number: String, operand: String, op: NumericOp },
    /// Holds when the compact JSON text of `value` equals `operand` without
    /// regard to ASCII case; the verdict is inverted when `negated`.
    TextEquals { value: JsonValue, operand: String, negated: bool },
}

/// The content of a condition outcome.
pub enum OutcomeView {
    Decided(bool),
    NumberEquals { number: Seq<char>, operand: Seq<char>, negated: bool },
    NumberOrder { number: Seq<char>, operand: Seq<char>, op: NumericOp },
    TextEquals { value: JsonData, operand: Seq<char>, negated: bool },
}

impl View for ConditionOutcome {
    type V = OutcomeView;

    open spec fn view(&self) -> OutcomeView {
        match self {
            ConditionOutcome::Decided(b) => OutcomeView::Decided(*b),
            ConditionOutcome::NumberEquals { number, operand, negated } => OutcomeView::NumberEquals {
                number: number@,
                operand: operand@,
                negated: *negated,
            },
            ConditionOutcome::NumberOrder { number, operand, op } => OutcomeView::NumberOrder {
                number: number@,
                operand: operand@,
                op: *op,
            },
            ConditionOutcome::TextEquals { value, operand, negated } => OutcomeView::TextEquals {
                value: value@,
                operand: operand@,
                negated: *negated,
            },
        }
    }
}

/// The value at the dotted path whose segments are `parts`, from `v`: each
/// segment names a member of the object reached so far.
pub open spec fn resolve_path(parts: Seq<Seq<char>>, v: JsonData) -> Option<JsonData>
    decreases parts.len(),
{
    if parts.len() == 0 {
        Some(v)
    } else {
        match v {
            JsonData::Object(members) => match member_value(members, parts[0]) {
                Some(x) => resolve_path(parts.drop_first(), x),
                None => None,
            },
            _ => None,
        }
    }
}

/// What `field = operand` comes to (`field != operand` when `negated`).
pub open spec fn equality_outcome(field: JsonData, operand: Seq<char>, negated: bool) -> OutcomeView {
    match field {
        JsonData::String(s) => OutcomeView::Decided(eq_ignore_ascii_case(s, operand) != negated),
        JsonData::Number(n) => OutcomeView::NumberEquals { number: n, operand, negated },
        JsonData::Bool(b) => OutcomeView::Decided(
            ((operand == "true"@ && b) || (operand == "false"@ && !b)) != negated,
        ),
        JsonData::Null => OutcomeView::Decided(
            (eq_ignore_ascii_case(operand, "null"@) || operand.len() == 0) != negated,
        ),
        _ => OutcomeView::TextEquals { value: field, operand, negated },
    }
}

/// What an ordering of `field` against `operand` comes to: only a number
/// can be ordered.
pub open spec fn order_outcome(field: JsonData, operand: Seq<char>, op: NumericOp) -> OutcomeView {
    match field {
        JsonData::Number(n) => OutcomeView::NumberOrder { number: n, operand, op },
        _ => OutcomeView::Decided(false),
    }
}

/// Whether `field contains operand` holds: a string contains it as a
/// substring, both lowercased; an array holds a string equal to it without
/// regard to ASCII case.
pub open spec fn contains_holds(field: JsonData, operand: Seq<char>) -> bool {
    match field {
        JsonData::String(s) => contains(lowercase(s), lowercase(operand)),
        JsonData::Array(items) => exists|i: int|
            0 <= i < items.len() && (#[trigger] items[i] matches JsonData::String(t) && eq_ignore_ascii_case(
                t,
                operand,
            )),
        _ => false,
    }
}

/// What `field op operand` comes to for the operator `op`.
pub open spec fn operator_outcome(op: Seq<char>, field: JsonData, operand: Seq<char>) -> OutcomeView {
    if op == "="@ || op == "=="@ {
        equality_outcome(field, operand, false)
    } else if op == "!="@ {
        equality_outcome(field, operand, true)
    } else if op == ">"@ {
        order_outcome(field, operand, NumericOp::Greater)
    } else if op == "<"@ {
        order_outcome(field, operand, NumericOp::Less)
    } else if op == ">="@ {
        order_outcome(field, operand, NumericOp::GreaterOrEqual)
    } else if op == "<="@ {
        order_outcome(field, operand, NumericOp::LessOrEqual)
    } else if op == "contains"@ {
        OutcomeView::Decided(contains_holds(field, operand))
    } else {
        OutcomeView::Decided(false)
    }
}

/// The operand of an expression with words `ws`: the words from the third
/// on, joined with spaces, without double and then single quotes at either end.
pub open spec fn operand_of(ws: Seq<Seq<char>>) -> Seq<char> {
    strip(strip(join(ws.skip(2), seq![' ']), '"'), '\'')
}

/// What the expression `expression` comes to against `context`. Its words
/// are a field path, an operator and the operand; an expression of fewer
/// words, or whose field is missing, does not hold.
pub open spec fn expression_outcome(expression: Seq<char>, context: JsonData) -> OutcomeView {
    let ws = words(trim(expression));
    if ws.len() < 3 {
        OutcomeView::Decided(false)
    } else {
        match resolve_path(pieces(ws[0], '.'), context) {
            Some(field) => operator_outcome(ws[1], field, operand_of(ws)),
            None => OutcomeView::Decided(false),
        }
    }
}

/// What a condition with body `body` comes to against `context`: an empty
/// (or all white space) body does not hold.
pub open spec fn condition_outcome(body: Seq<char>, context: JsonData) -> OutcomeView {
    if trim(body).len() == 0 {
        OutcomeView::Decided(false)
    } else {
        expression_outcome(body, context)
    }
}

/// The value at the dotted path `path` in `context`, if every segment but
/// the last names a member of an object and the last one names a member.
pub fn resolve_field_path(path: &str, context: &JsonValue) -> (r: Option<JsonValue>)
    ensures
        match r {
            Some(v) => resolve_path(pieces(path@, '.'), context@) == Some(v@),
            None => resolve_path(pieces(path@, '.'), context@) is None,
        },
{
    let parts = split_pieces(&chars_of(path), '.');
    let ghost ps = texts(parts@);
    let mut cur: &JsonValue = context;
    let mut i: usize = 0;
    proof {
        assert(ps.skip(0) =~= ps);
    }
    while i < parts.len()
        invariant
            ps == texts(parts@),
            ps == pieces(path@, '.'),
            i <= parts.len(),
            resolve_path(ps, context@) == resolve_path(ps.skip(i as int), cur@),
        decreases parts.len() - i,
    {
        proof {
            assert(ps.skip(i as int).drop_first() =~= ps.skip(i + 1));
            assert(ps.skip(i as int)[0] == parts@[i as int]@);
        }
        match cur {
            JsonValue::Object(members) => {
                match find_member(members, &parts[i]) {
                    Some(k) => {
                        cur = &members[k].1;
                    },
                    None => {
                        return None;
                    },
                }
            },
            _ => {
                return None;
            },
        }
        i = i + 1;
    }
    proof {
        assert(ps.skip(parts.len() as int) =~= Seq::<Seq<char>>::empty());
    }
    Some(clone_json(cur))
}

/// Whether `w` is the text `lit`.
fn is_word(w: &Vec<char>, lit: &str) -> (r: bool)
    ensures
        r == (w@ == lit@),
{
    crate::text::chars_eq(w, &chars_of(lit))
}

/// What `field = operand` (`!=` when `negated`) comes to.
fn compare_eq(field: &JsonValue, operand: &Vec<char>, negated: bool) -> (r: ConditionOutcome)
    ensures
        r@ == equality_outcome(field@, operand@, negated),
{
    match field {
        JsonValue::String(s) => ConditionOutcome::Decided(
            chars_eq_ignore_ascii_case(&chars_of(s.as_str()), operand) != negated,
        ),
        JsonValue::Number(n) => ConditionOutcome::NumberEquals {
            number: n.clone(),
            operand: string_of(operand),
            negated,
        },
        JsonValue::Bool(b) => {
            let t = is_word(operand, "true");
            let f = is_word(operand, "false");
            ConditionOutcome::Decided(((t && *b) || (f && !*b)) != negated)
        },
        JsonValue::Null => {
            let null = chars_of("null");
            ConditionOutcome::Decided(
                (chars_eq_ignore_ascii_case(operand, &null) || operand.len() == 0) != negated,
            )
        },
        _ => ConditionOutcome::TextEquals { value: clone_json(field), operand: string_of(operand), negated },
    }
}

/// What an ordering of `field` against `operand` comes to.
fn compare_num(field: &JsonValue, operand: &Vec<char>, op: NumericOp) -> (r: ConditionOutcome)
    ensures
        r@ == order_outcome(field@, operand@, op),
{
    match field {
        JsonValue::Number(n) => ConditionOutcome::NumberOrder { number: n.clone(), operand: string_of(operand), op },
        _ => ConditionOutcome::Decided(false),
    }
}

/// Whether `field contains operand` holds.
fn compare_contains(field: &JsonValue, operand: &Vec<char>) -> (r: bool)
    ensures
        r == contains_holds(field@, operand@),
{
    match field {
        JsonValue::String(s) => {
            let hay = to_lowercase(s.as_str());
            let needle = to_lowercase(string_of(operand).as_str());
            contains_chars(&chars_of(hay.as_str()), &chars_of(needle.as_str()))
        },
        JsonValue::Array(items) => {
            proof {
                lemma_items_data_index(items@);
            }
            let ghost d = items_data(items@);
            let mut i: usize = 0;
            while i < items.len()
                invariant
                    *field == JsonValue::Array(*items),
                    d == items_data(items@),
                    d.len() == items.len(),
                    forall|j: int| 0 <= j < items.len() ==> #[trigger] d[j] == items@[j]@,
                    i <= items.len(),
                    forall|j: int|
                        0 <= j < i ==> !(#[trigger] d[j] matches JsonData::String(t) && eq_ignore_ascii_case(
                            t,
                            operand@,
                        )),
                decreases items.len() - i,
            {
                match &items[i] {
                    JsonValue::String(t) => {
                        if chars_eq_ignore_ascii_case(&chars_of(t.as_str()), operand) {
                            proof {
                                assert(d[i as int] matches JsonData::String(u) && eq_ignore_ascii_case(u, operand@));
                                assert(field@ == JsonData::Array(d));
                            }
                            return true;
                        }
                    },
                    _ => {},
                }
                proof {
                    assert(d[i as int] == items@[i as int]@);
                }
                i = i + 1;
            }
            false
        },
        _ => false,
    }
}

/// The verdict of a `TextEquals` outcome, given `rendered`, the compact
/// JSON text of its value: whether that text equals `operand` without
/// regard to ASCII case, inverted when `negated`.
pub fn text_equals_verdict(rendered: &str, operand: &str, negated: bool) -> (r: bool)
    ensures
        r == (eq_ignore_ascii_case(rendered@, operand@) != negated),
{
    chars_eq_ignore_ascii_case(&chars_of(rendered), &chars_of(operand)) != negated
}

/// What the expression `expression` comes to against `context`.
pub fn evaluate_expression(expression: &str, context: &JsonValue) -> (r: ConditionOutcome)
    ensures
        r@ == expression_outcome(expression@, context@),
{
    let trimmed = trim_chars(&chars_of(expression));
    let ws = split_words(&trimmed);
    proof {
        assert(texts(ws@).len() == ws@.len());
    }
    if ws.len() < 3 {
        return ConditionOutcome::Decided(false);
    }
    let joined = join_from(&ws, 2);
    let operand = strip_char(&strip_char(&joined, '"'), '\'');
    let path = string_of(&ws[0]);
    proof {
        assert(texts(ws@)[0] == ws@[0]@);
        assert(texts(ws@)[1] == ws@[1]@);
    }
    let field = match resolve_field_path(path.as_str(), context) {
        Some(v) => v,
        None => {
            return ConditionOutcome::Decided(false);
        },
    };
    let op = &ws[1];
    if is_word(op, "=") || is_word(op, "==") {
        compare_eq(&field, &operand, false)
    } else if is_word(op, "!=") {
        compare_eq(&field, &operand, true)
    } else if is_word(op, ">") {
        compare_num(&field, &operand, NumericOp::Greater)
    } else if is_word(op, "<") {
        compare_num(&field, &operand, NumericOp::Less)
    } else if is_word(op, ">=") {
        compare_num(&field, &operand, NumericOp::GreaterOrEqual)
    } else if is_word(op, "<=") {
        compare_num(&field, &operand, NumericOp::LessOrEqual)
    } else if is_word(op, "contains") {
        ConditionOutcome::Decided(compare_contains(&field, &operand))
    } else {
        ConditionOutcome::Decided(false)
    }
}

/// What the condition `condition` comes to against `context`: a condition
/// with an empty (or all white space) body does not hold.
pub fn evaluate_condition(condition: &ConditionExpression, context: &JsonValue) -> (r: ConditionOutcome)
    ensures
        r@ == condition_outcome(condition.body@, context@),
{
    let body = trim_chars(&chars_of(condition.body.as_str()));
    if body.len() == 0 {
        return ConditionOutcome::Decided(false);
    }
    evaluate_expression(condition.body.as_str(), context)
}

/// `!=` comes to the opposite of `=`: a verdict is inverted, and a
/// comparison left to the caller is the same comparison, marked inverted.
pub proof fn law_not_equal_negates_equal(field: JsonData, operand: Seq<char>)
    ensures
        match (equality_outcome(field, operand, false), equality_outcome(field, operand, true)) {
            (OutcomeView::Decided(a), OutcomeView::Decided(b)) => b == !a,
            (
                OutcomeView::NumberEquals { number: n1, operand: o1, negated: false },
                OutcomeView::NumberEquals { number: n2, operand: o2, negated: true },
            ) => n1 == n2 && o1 == o2,
            (
                OutcomeView::TextEquals { value: v1, operand: o1, negated: false },
                OutcomeView::TextEquals { value: v2, operand: o2, negated: true },
            ) => v1 == v2 && o1 == o2,
            _ => false,
        },
{
}

/// Whether `w` is a word: not empty and without white space.
pub open spec fn plain_word(w: Seq<char>) -> bool {
    w.len() > 0 && forall|i: int| 0 <= i < w.len() ==> !is_ws(#[trigger] w[i])
}

/// Reading characters that are not white space goes on with the word
/// being read.
pub proof fn lemma_words_state_word(p: Seq<char>, w: Seq<char>)
    requires
        forall|i: int| 0 <= i < w.len() ==> !is_ws(#[trigger] w[i]),
    ensures
        words_state(p + w) == (words_state(p).0, words_state(p).1 + w),
    decreases w.len(),
{
    if w.len() == 0 {
        assert(p + w =~= p);
        assert(words_state(p).1 + w =~= words_state(p).1);
    } else {
        let init = w.drop_last();
        assert forall|i: int| 0 <= i < init.len() implies !is_ws(#[trigger] init[i]) by {
            assert(init[i] == w[i]);
        }
        lemma_words_state_word(p, init);
        assert((p + w).drop_last() =~= p + init);
        assert((p + w).last() == w.last());
        assert(!is_ws(w[w.len() - 1]));
        assert((words_state(p).1 + init).push(w.last()) =~= words_state(p).1 + w);
    }
}

/// Words joined with single spaces: reading them ends the words but the
/// last, which is still being read.
pub proof fn lemma_words_state_join(ws: Seq<Seq<char>>)
    requires
        ws.len() > 0,
        forall|i: int| 0 <= i < ws.len() ==> plain_word(#[trigger] ws[i]),
    ensures
        words_state(join(ws, seq![' '])) == (ws.drop_last(), ws.last()),
        join(ws, seq![' ']).len() > 0,
        join(ws, seq![' '])[0] == ws[0][0],
        join(ws, seq![' ']).last() == ws.last().last(),
    decreases ws.len(),
{
    assert(plain_word(ws[0]));
    assert(plain_word(ws[ws.len() - 1]));
    if ws.len() == 1 {
        let e = Seq::<char>::empty();
        lemma_words_state_word(e, ws[0]);
        assert(e + ws[0] =~= ws[0]);
        assert(words_state(e) == (Seq::<Seq<char>>::empty(), e));
        assert(e + ws[0] =~= ws[0]);
        assert(ws.drop_last() =~= Seq::<Seq<char>>::empty());
    } else {
        let init = ws.drop_last();
        assert forall|i: int| 0 <= i < init.len() implies plain_word(#[trigger] init[i]) by {
            assert(init[i] == ws[i]);
        }
        lemma_words_state_join(init);
        let j = join(init, seq![' ']);
        let sp = j + seq![' '];
        assert(sp.drop_last() =~= j);
        assert(sp.last() == ' ');
        assert(is_ws(' '));
        assert(init.last().len() > 0);
        assert(words_state(sp) == (init.drop_last().push(init.last()), Seq::<char>::empty()));
        assert(init.drop_last().push(init.last()) =~= init);
        lemma_words_state_word(sp, ws.last());
        assert(Seq::<char>::empty() + ws.last() =~= ws.last());
        assert(join(ws, seq![' ']) == sp + ws.last());
        assert((sp + ws.last())[0] == j[0]);
        assert((sp + ws.last()).last() == ws.last().last());
    }
}

/// The operand an expression compares is all of its words after the
/// operator, joined with single spaces: for a field path `f` that leads to
/// the string `s`, the expression whose words are `f`, an equality operator
/// (`=`, `==` or `!=`) and then `vs` holds just when `s` is (for `!=`: is
/// not) those words with a space between each two, without regard to ASCII
/// case, when they do not begin or end with a quote.
pub proof fn law_operand_is_rest_of_expression(
    f: Seq<char>,
    op: Seq<char>,
    vs: Seq<Seq<char>>,
    s: Seq<char>,
    context: JsonData,
)
    requires
        plain_word(f),
        op == "="@ || op == "=="@ || op == "!="@,
        vs.len() > 0,
        forall|i: int| 0 <= i < vs.len() ==> plain_word(#[trigger] vs[i]),
        vs[0][0] != '"' && vs[0][0] != '\'',
        vs.last().last() != '"' && vs.last().last() != '\'',
        resolve_path(pieces(f, '.'), context) == Some(JsonData::String(s)),
    ensures
        expression_outcome(join(seq![f, op] + vs, seq![' ']), context) == OutcomeView::Decided(
            eq_ignore_ascii_case(s, join(vs, seq![' '])) != (op == "!="@),
        ),
{
    reveal_strlit("=");
    reveal_strlit("==");
    reveal_strlit("!=");
    assert("="@.len() == 1 && "=="@.len() == 2 && "!="@.len() == 2);
    assert("!="@[0] != "=="@[0]);
    assert(plain_word(op)) by {
        assert(forall|i: int| 0 <= i < op.len() ==> op[i] == '=' || op[i] == '!');
    }
    let ws = seq![f, op] + vs;
    assert forall|i: int| 0 <= i < ws.len() implies plain_word(#[trigger] ws[i]) by {
        if i > 1 {
            assert(ws[i] == vs[i - 2]);
        }
    }
    lemma_words_state_join(ws);
    lemma_words_state_join(vs);
    let e = join(ws, seq![' ']);
    assert(plain_word(ws[0]));
    assert(!is_ws(e[0]));
    assert(!is_ws(e.last())) by {
        assert(ws.last() == vs.last());
        assert(plain_word(ws[ws.len() - 1]));
    }
    assert(trim_start(e) == e);
    assert(trim_end(e) == e);
    assert(trim(e) == e);
    assert(ws.drop_last().push(ws.last()) =~= ws);
    assert(words(e) == ws);
    assert(ws[0] == f && ws[1] == op);
    assert(ws.skip(2) =~= vs);
    let t = join(vs, seq![' ']);
    assert(strip_start(t, '"') == t);
    assert(strip_end(t, '"') == t);
    assert(strip_start(t, '\'') == t);
    assert(strip_end(t, '\'') == t);
    assert(operand_of(ws) == t);
}

} // verus!
