//! The arguments of the `#[flowstate(...)]` attribute.
//!
//! On a workflow:
//! `#[flowstate(result = Path, state_trait = Ident, name = expr, is_async = bool, ctx.field = expr, ...)]`,
//! where `result` is required. On a state:
//! `#[flowstate(name = expr, ctx.field = expr, ...)]`. Arguments are
//! separated by commas, a trailing comma is allowed, and each named
//! argument may appear once. An expression runs up to the next comma that
//! is not inside a turbofish (`f::<A, B>()`) or a closure's parameters
//! (`|a, b| a + b`); a
//! context field is an identifier followed by `.field`, `.0` or `::name`
//! parts, and its key is the text of those tokens.
use crate::derive::error::{ArgName, DeriveError};
use crate::derive::model::Token;
use vstd::prelude::*;
use vstd::string::{StrSliceExecFns, StringExecFns};

verus! {

/// Appends `c` to `s`, through `String::push`.
#[verifier::external_body]
pub(crate) fn push_char(s: &mut String, c: char)
    ensures
        final(s)@ == old(s)@.push(c),
{
    s.push(c)
}

/// The token is the punctuation character `c`.
pub open spec fn punct_is(t: Token, c: char) -> bool {
    t matches Token::Punct(ch, _) && ch == c
}

/// The token is the punctuation character `c`, not joined to the next.
pub open spec fn lone_punct(t: Token, c: char) -> bool {
    t matches Token::Punct(ch, joint) && ch == c && !joint
}

/// The token is an identifier.
pub open spec fn is_ident(t: Token) -> bool {
    t is Ident
}

/// The token is the identifier `name`.
pub open spec fn ident_is(t: Token, name: Seq<char>) -> bool {
    t matches Token::Ident(s) && s@ == name
}

/// The token is a literal made of digits and dots, such as a tuple index.
pub open spec fn is_index_literal(t: Token) -> bool {
    t matches Token::Literal(s) && s@.len() > 0 && (forall|k: int|
        0 <= k < s@.len() ==> ('0' <= #[trigger] s@[k] <= '9' || s@[k] == '.'))
}

/// The tokens at `i` and `i + 1` form `::`.
pub open spec fn path_sep_at(ts: Seq<Token>, i: int) -> bool {
    0 <= i && i + 1 < ts.len() && (ts[i] matches Token::Punct(':', true)) && (
    ts[i + 1] matches Token::Punct(':', false))
}

/// The text of a token.
pub open spec fn token_text(t: Token) -> Seq<char> {
    match t {
        Token::Ident(s) => s@,
        Token::Punct(c, _) => seq![c],
        Token::Literal(s) => s@,
        Token::Group(_, s) => s@,
    }
}

/// The text of the tokens in `lo..hi`, written one after the other.
pub open spec fn tokens_text(ts: Seq<Token>, lo: int, hi: int) -> Seq<char>
    decreases hi - lo,
{
    if hi <= lo {
        Seq::empty()
    } else {
        tokens_text(ts, lo, hi - 1) + token_text(ts[hi - 1])
    }
}

/// The tokens at `i` to `i + 2` open a turbofish: `::<`.
pub open spec fn turbofish_at(ts: Seq<Token>, i: int) -> bool {
    0 <= i && i + 2 < ts.len() && (ts[i] matches Token::Punct(':', true)) && (
    ts[i + 1] matches Token::Punct(':', _)) && punct_is(ts[i + 2], '<')
}

/// The tokens at `i` and `i + 1` form `->`.
pub open spec fn arrow_at(ts: Seq<Token>, i: int) -> bool {
    0 <= i && i + 1 < ts.len() && (ts[i] matches Token::Punct('-', true)) && punct_is(
        ts[i + 1],
        '>',
    )
}

/// Where an expression that continues at `i`, inside `depth` open
/// turbofish angle brackets, ends: at the next comma outside them, or at
/// the end. Groups are single tokens, so commas inside them never count.
pub open spec fn expr_end_at(ts: Seq<Token>, i: int, depth: nat) -> int
    decreases ts.len() - i,
{
    if i < 0 || i >= ts.len() {
        ts.len() as int
    } else if depth == 0 && punct_is(ts[i], ',') {
        i
    } else if turbofish_at(ts, i) {
        expr_end_at(ts, i + 3, depth + 1)
    } else if depth > 0 && arrow_at(ts, i) {
        expr_end_at(ts, i + 2, depth)
    } else if depth > 0 && punct_is(ts[i], '<') {
        expr_end_at(ts, i + 1, depth + 1)
    } else if depth > 0 && punct_is(ts[i], '>') {
        expr_end_at(ts, i + 1, (depth - 1) as nat)
    } else {
        expr_end_at(ts, i + 1, depth)
    }
}

/// Where an expression that starts at `i` ends: at the next comma that
/// is not inside a turbofish's angle brackets, or at the end.
pub open spec fn expr_end(ts: Seq<Token>, i: int) -> int {
    expr_end_at(ts, closure_head_end(ts, i), 0)
}

/// The position of the first `|` at or after `i`, or the end.
pub open spec fn next_bar(ts: Seq<Token>, i: int) -> int
    decreases ts.len() - i,
{
    if i < 0 || i >= ts.len() {
        ts.len() as int
    } else if punct_is(ts[i], '|') {
        i
    } else {
        next_bar(ts, i + 1)
    }
}

/// Where the head of a closure that starts at `i` ends: after `move`, if
/// any, and the parameters between two bars, whose commas belong to the
/// closure. Where no closure starts at `i`, `i` itself.
pub open spec fn closure_head_end(ts: Seq<Token>, i: int) -> int {
    let k = if 0 <= i < ts.len() && ident_is(ts[i], "move"@) {
        i + 1
    } else {
        i
    };
    if 0 <= k < ts.len() && lone_punct(ts[k], '|') {
        let b = next_bar(ts, k + 1);
        if b < ts.len() {
            b + 1
        } else {
            ts.len() as int
        }
    } else {
        i
    }
}

/// Where the `::name` parts after a path's first identifier, at `i`, end.
pub open spec fn path_segments_end(ts: Seq<Token>, i: int) -> int
    decreases ts.len() - i,
{
    if i >= 0 && path_sep_at(ts, i) && i + 2 < ts.len() && is_ident(ts[i + 2]) {
        path_segments_end(ts, i + 3)
    } else {
        i
    }
}

/// Where generic arguments end that are open `depth` deep at `i`: just
/// after the `>` that closes them.
pub open spec fn angle_end(ts: Seq<Token>, i: int, depth: int) -> Option<int>
    decreases ts.len() - i,
{
    if i < 0 || i >= ts.len() {
        None
    } else if arrow_at(ts, i) {
        angle_end(ts, i + 2, depth)
    } else if punct_is(ts[i], '<') {
        angle_end(ts, i + 1, depth + 1)
    } else if punct_is(ts[i], '>') {
        if depth <= 1 {
            Some(i + 1)
        } else {
            angle_end(ts, i + 1, depth - 1)
        }
    } else {
        angle_end(ts, i + 1, depth)
    }
}

/// Where a path's first identifier stands when the path starts at `i`:
/// after a leading `::`, if there is one.
pub open spec fn path_first(ts: Seq<Token>, i: int) -> int {
    if path_sep_at(ts, i) {
        i + 2
    } else {
        i
    }
}

/// Where a path that starts at `i` ends: an optional leading `::`,
/// identifiers joined by `::`, then generic arguments in angle brackets, if
/// any.
pub open spec fn path_end(ts: Seq<Token>, i: int) -> Option<int> {
    let f = path_first(ts, i);
    if 0 <= f < ts.len() && is_ident(ts[f]) {
        let j = path_segments_end(ts, f + 1);
        if j < ts.len() && punct_is(ts[j], '<') {
            angle_end(ts, j + 1, 1)
        } else {
            Some(j)
        }
    } else {
        None
    }
}

/// Where a context field that continues at `i` ends: `.field`, `.0` and
/// `::name` parts.
pub open spec fn field_end(ts: Seq<Token>, i: int) -> int
    decreases ts.len() - i,
{
    if i >= 0 && i + 1 < ts.len() && lone_punct(ts[i], '.') && (is_ident(ts[i + 1])
        || is_index_literal(ts[i + 1])) {
        field_end(ts, i + 2)
    } else if i >= 0 && path_sep_at(ts, i) && i + 2 < ts.len() && is_ident(ts[i + 2]) {
        field_end(ts, i + 3)
    } else {
        i
    }
}

/// A range of token positions.
#[derive(Clone, Copy, Debug, PartialEq, Eq, Structural)]
pub struct TokenRange {
    pub start: usize,
    pub end: usize,
}

/// One `ctx.field = value` argument: the field's text and the value's
/// tokens.
#[derive(Debug, PartialEq, Eq)]
pub struct FieldAssignment {
    pub field: String,
    pub value: TokenRange,
}

/// The view of a [`FieldAssignment`].
pub struct FieldAssignmentView {
    pub field: Seq<char>,
    pub value: TokenRange,
}

impl View for FieldAssignment {
    type V = FieldAssignmentView;

    open spec fn view(&self) -> FieldAssignmentView {
        FieldAssignmentView { field: self.field@, value: self.value }
    }
}

/// The `ctx.field = value` argument whose `.` is at `i`: the assignment and
/// the position after it, or why it is not one.
pub open spec fn ctx_outcome(ts: Seq<Token>, i: int) -> Result<(FieldAssignmentView, int), DeriveError> {
    if !(0 <= i < ts.len() && punct_is(ts[i], '.')) {
        Err(DeriveError::ExpectedPunct { at: i as usize, punct: '.' })
    } else if !(i + 1 < ts.len() && is_ident(ts[i + 1])) {
        Err(DeriveError::ExpectedField { at: (i + 1) as usize })
    } else {
        let e = field_end(ts, i + 2);
        if !(e < ts.len() && lone_punct(ts[e], '=')) {
            Err(DeriveError::ExpectedPunct { at: e as usize, punct: '=' })
        } else {
            let ve = expr_end(ts, e + 1);
            if ve == e + 1 {
                Err(DeriveError::ExpectedExpression { at: (e + 1) as usize })
            } else {
                Ok(
                    (
                        FieldAssignmentView {
                            field: tokens_text(ts, i + 1, e),
                            value: TokenRange { start: (e + 1) as usize, end: ve as usize },
                        },
                        ve,
                    ),
                )
            }
        }
    }
}

proof fn lemma_expr_end(ts: Seq<Token>, i: int, depth: nat)
    requires
        0 <= i <= ts.len(),
    ensures
        i <= expr_end_at(ts, i, depth) <= ts.len(),
    decreases ts.len() - i,
{
    if i < ts.len() {
        if depth == 0 && punct_is(ts[i], ',') {
        } else if turbofish_at(ts, i) {
            lemma_expr_end(ts, i + 3, depth + 1);
        } else if depth > 0 && arrow_at(ts, i) {
            lemma_expr_end(ts, i + 2, depth);
        } else if depth > 0 && punct_is(ts[i], '<') {
            lemma_expr_end(ts, i + 1, depth + 1);
        } else if depth > 0 && punct_is(ts[i], '>') {
            lemma_expr_end(ts, i + 1, (depth - 1) as nat);
        } else {
            lemma_expr_end(ts, i + 1, depth);
        }
    }
}

proof fn lemma_next_bar(ts: Seq<Token>, i: int)
    requires
        0 <= i <= ts.len(),
    ensures
        i <= next_bar(ts, i) <= ts.len(),
    decreases ts.len() - i,
{
    if i < ts.len() && !punct_is(ts[i], '|') {
        lemma_next_bar(ts, i + 1);
    }
}

proof fn lemma_expr_end_bounds(ts: Seq<Token>, i: int)
    requires
        0 <= i <= ts.len(),
    ensures
        i <= closure_head_end(ts, i) <= ts.len(),
        i <= expr_end(ts, i) <= ts.len(),
{
    let k = if 0 <= i < ts.len() && ident_is(ts[i], "move"@) {
        i + 1
    } else {
        i
    };
    if 0 <= k < ts.len() && lone_punct(ts[k], '|') {
        lemma_next_bar(ts, k + 1);
    }
    lemma_expr_end(ts, closure_head_end(ts, i), 0);
}

proof fn lemma_field_end(ts: Seq<Token>, i: int)
    requires
        0 <= i <= ts.len(),
    ensures
        i <= field_end(ts, i) <= ts.len(),
    decreases ts.len() - i,
{
    if i + 1 < ts.len() && lone_punct(ts[i], '.') && (is_ident(ts[i + 1]) || is_index_literal(
        ts[i + 1],
    )) {
        lemma_field_end(ts, i + 2);
    } else if path_sep_at(ts, i) && i + 2 < ts.len() && is_ident(ts[i + 2]) {
        lemma_field_end(ts, i + 3);
    }
}

proof fn lemma_path_segments_end(ts: Seq<Token>, i: int)
    requires
        0 <= i <= ts.len(),
    ensures
        i <= path_segments_end(ts, i) <= ts.len(),
    decreases ts.len() - i,
{
    if path_sep_at(ts, i) && i + 2 < ts.len() && is_ident(ts[i + 2]) {
        lemma_path_segments_end(ts, i + 3);
    }
}

proof fn lemma_angle_end(ts: Seq<Token>, i: int, depth: int)
    requires
        0 <= i,
    ensures
        angle_end(ts, i, depth) matches Some(e) ==> i < e <= ts.len(),
    decreases ts.len() - i,
{
    if 0 <= i < ts.len() {
        if arrow_at(ts, i) {
            lemma_angle_end(ts, i + 2, depth);
        } else if punct_is(ts[i], '<') {
            lemma_angle_end(ts, i + 1, depth + 1);
        } else if punct_is(ts[i], '>') {
            if depth > 1 {
                lemma_angle_end(ts, i + 1, depth - 1);
            }
        } else {
            lemma_angle_end(ts, i + 1, depth);
        }
    }
}

/// Whether the tokens at `i` to `i + 2` open a turbofish.
fn is_turbofish(ts: &Vec<Token>, i: usize) -> (r: bool)
    ensures
        r == turbofish_at(ts@, i as int),
{
    if i < ts.len() && ts.len() - i > 2 {
        let first = match &ts[i] {
            Token::Punct(':', true) => true,
            _ => false,
        };
        let second = match &ts[i + 1] {
            Token::Punct(':', _) => true,
            _ => false,
        };
        let third = match &ts[i + 2] {
            Token::Punct('<', _) => true,
            _ => false,
        };
        first && second && third
    } else {
        false
    }
}

/// Whether the tokens at `i` and `i + 1` form `->`.
fn is_arrow(ts: &Vec<Token>, i: usize) -> (r: bool)
    ensures
        r == arrow_at(ts@, i as int),
{
    if i < ts.len() && ts.len() - i > 1 {
        let first = match &ts[i] {
            Token::Punct('-', true) => true,
            _ => false,
        };
        let second = match &ts[i + 1] {
            Token::Punct('>', _) => true,
            _ => false,
        };
        first && second
    } else {
        false
    }
}

/// Where the head of a closure that starts at `i` ends.
fn find_closure_head_end(ts: &Vec<Token>, i: usize) -> (r: usize)
    requires
        i <= ts@.len(),
    ensures
        r == closure_head_end(ts@, i as int),
{
    let is_move = i < ts.len() && match &ts[i] {
        Token::Ident(name) => str_eq_lit(name, "move"),
        _ => false,
    };
    assert(is_move == (0 <= i < ts@.len() && ident_is(ts@[i as int], "move"@)));
    let k = if is_move {
        i + 1
    } else {
        i
    };
    let bar = k < ts.len() && match &ts[k] {
        Token::Punct('|', false) => true,
        _ => false,
    };
    assert(bar == (0 <= k < ts@.len() && lone_punct(ts@[k as int], '|')));
    if !bar {
        assert(closure_head_end(ts@, i as int) == i);
        return i;
    }
    let mut b = k + 1;
    while b < ts.len()
        invariant
            k + 1 <= b <= ts@.len(),
            next_bar(ts@, k + 1) == next_bar(ts@, b as int),
            k == (if 0 <= i < ts@.len() && ident_is(ts@[i as int], "move"@) {
                i + 1
            } else {
                i as int
            }),
            0 <= k < ts@.len() && lone_punct(ts@[k as int], '|'),
        decreases ts.len() - b,
    {
        if let Token::Punct('|', _) = &ts[b] {
            assert(next_bar(ts@, b as int) == b);
            assert(closure_head_end(ts@, i as int) == b + 1);
            return b + 1;
        }
        b = b + 1;
    }
    assert(next_bar(ts@, b as int) == ts@.len());
    assert(closure_head_end(ts@, i as int) == ts@.len());
    ts.len()
}

/// Where the expression that starts at `i` ends.
fn find_expr_end(ts: &Vec<Token>, i: usize) -> (r: usize)
    requires
        i <= ts@.len(),
    ensures
        r == expr_end(ts@, i as int),
        i <= r <= ts@.len(),
{
    proof {
        lemma_expr_end_bounds(ts@, i as int);
    }
    let h = find_closure_head_end(ts, i);
    proof {
        lemma_expr_end(ts@, h as int, 0);
    }
    let mut j = h;
    let mut depth: usize = 0;
    while j < ts.len()
        invariant
            i <= h <= j <= ts@.len(),
            depth <= j,
            expr_end(ts@, i as int) == expr_end_at(ts@, j as int, depth as nat),
        decreases ts.len() - j,
    {
        let comma = match &ts[j] {
            Token::Punct(',', _) => true,
            _ => false,
        };
        let open = match &ts[j] {
            Token::Punct('<', _) => true,
            _ => false,
        };
        let close = match &ts[j] {
            Token::Punct('>', _) => true,
            _ => false,
        };
        if depth == 0 && comma {
            return j;
        } else if is_turbofish(ts, j) {
            depth = depth + 1;
            j = j + 3;
        } else if depth > 0 && is_arrow(ts, j) {
            j = j + 2;
        } else if depth > 0 && open {
            depth = depth + 1;
            j = j + 1;
        } else if depth > 0 && close {
            depth = depth - 1;
            j = j + 1;
        } else {
            j = j + 1;
        }
    }
    j
}

/// Whether the tokens at `i` and `i + 1` form `::`.
fn is_path_sep(ts: &Vec<Token>, i: usize) -> (r: bool)
    ensures
        r == path_sep_at(ts@, i as int),
{
    if i < ts.len() && ts.len() - i > 1 {
        let first = match &ts[i] {
            Token::Punct(':', true) => true,
            _ => false,
        };
        let second = match &ts[i + 1] {
            Token::Punct(':', false) => true,
            _ => false,
        };
        first && second
    } else {
        false
    }
}

fn token_is_ident(t: &Token) -> (r: bool)
    ensures
        r == is_ident(*t),
{
    match t {
        Token::Ident(_) => true,
        _ => false,
    }
}

fn token_is_index_literal(t: &Token) -> (r: bool)
    ensures
        r == is_index_literal(*t),
{
    match t {
        Token::Literal(s) => {
            let chars = s.as_str();
            let count = chars.unicode_len();
            if count == 0 {
                return false;
            }
            let mut all = true;
            let mut k: usize = 0;
            while k < count
                invariant
                    count == s@.len(),
                    chars@ == s@,
                    k <= count,
                    all == (forall|m: int| 0 <= m < k ==> ('0' <= #[trigger] s@[m] <= '9' || s@[m] == '.')),
                decreases count - k,
            {
                let c = chars.get_char(k);
                if !(('0' <= c && c <= '9') || c == '.') {
                    all = false;
                }
                k = k + 1;
            }
            all
        },
        _ => false,
    }
}

/// Where the `::name` parts after a path's first identifier, at `i`, end.
fn find_path_segments_end(ts: &Vec<Token>, i: usize) -> (r: usize)
    requires
        i <= ts@.len(),
    ensures
        r == path_segments_end(ts@, i as int),
        i <= r <= ts@.len(),
{
    proof {
        lemma_path_segments_end(ts@, i as int);
    }
    let mut j = i;
    while j < ts.len() && ts.len() - j > 2 && is_path_sep(ts, j) && token_is_ident(&ts[j + 2])
        invariant
            i <= j <= ts@.len(),
            path_segments_end(ts@, i as int) == path_segments_end(ts@, j as int),
        decreases ts.len() - j,
    {
        j = j + 3;
    }
    j
}

/// Where generic arguments end that are open `depth` deep at `i`.
fn find_angle_end(ts: &Vec<Token>, i: usize) -> (r: Option<usize>)
    requires
        i <= ts@.len(),
    ensures
        r matches Some(e) ==> angle_end(ts@, i as int, 1) == Some(e as int),
        r is None ==> angle_end(ts@, i as int, 1) is None,
{
    let mut j = i;
    let mut d: u128 = 1;
    while j < ts.len()
        invariant
            i <= j <= ts@.len(),
            1 <= d <= 1 + (j - i),
            angle_end(ts@, i as int, 1) == angle_end(ts@, j as int, d as int),
        decreases ts.len() - j,
    {
        if is_arrow(ts, j) {
            j = j + 2;
            continue;
        }
        match &ts[j] {
            Token::Punct('<', _) => {
                d = d + 1;
            },
            Token::Punct('>', _) => {
                if d <= 1 {
                    return Some(j + 1);
                }
                d = d - 1;
            },
            _ => {},
        }
        j = j + 1;
    }
    None
}

/// Where a path that starts at `i` ends, if one starts there.
fn find_path_end(ts: &Vec<Token>, i: usize) -> (r: Option<usize>)
    requires
        i <= ts@.len(),
    ensures
        r matches Some(e) ==> path_end(ts@, i as int) == Some(e as int) && i < e <= ts@.len(),
        r is None ==> path_end(ts@, i as int) is None,
{
    let f = if is_path_sep(ts, i) && ts.len() - i >= 2 {
        i + 2
    } else {
        i
    };
    if f < ts.len() && token_is_ident(&ts[f]) {
        let j = find_path_segments_end(ts, f + 1);
        let opens = j < ts.len() && match &ts[j] {
            Token::Punct('<', _) => true,
            _ => false,
        };
        if opens {
            proof {
                lemma_angle_end(ts@, j + 1, 1);
            }
            find_angle_end(ts, j + 1)
        } else {
            Some(j)
        }
    } else {
        None
    }
}

/// Where a context field that continues at `i` ends.
fn find_field_end(ts: &Vec<Token>, i: usize) -> (r: usize)
    requires
        i <= ts@.len(),
    ensures
        r == field_end(ts@, i as int),
        i <= r <= ts@.len(),
{
    proof {
        lemma_field_end(ts@, i as int);
    }
    let mut j = i;
    loop
        invariant
            i <= j <= ts@.len(),
            field_end(ts@, i as int) == field_end(ts@, j as int),
        decreases ts.len() - j,
    {
        let dotted = j < ts.len() && ts.len() - j > 1 && match &ts[j] {
            Token::Punct('.', false) => true,
            _ => false,
        } && (token_is_ident(&ts[j + 1]) || token_is_index_literal(&ts[j + 1]));
        if dotted {
            j = j + 2;
        } else if j < ts.len() && ts.len() - j > 2 && is_path_sep(ts, j) && token_is_ident(&ts[j + 2]) {
            j = j + 3;
        } else {
            return j;
        }
    }
}

/// The text of the tokens in `lo..hi`.
fn text_of(ts: &Vec<Token>, lo: usize, hi: usize) -> (r: String)
    requires
        lo <= hi <= ts@.len(),
    ensures
        r@ == tokens_text(ts@, lo as int, hi as int),
{
    let mut text = String::new();
    let mut k = lo;
    while k < hi
        invariant
            lo <= k <= hi <= ts@.len(),
            text@ == tokens_text(ts@, lo as int, k as int),
        decreases hi - k,
    {
        match &ts[k] {
            Token::Ident(s) => text.append(s.as_str()),
            Token::Punct(c, _) => push_char(&mut text, *c),
            Token::Literal(s) => text.append(s.as_str()),
            Token::Group(_, s) => text.append(s.as_str()),
        }
        proof {
            assert(tokens_text(ts@, lo as int, k + 1) == tokens_text(ts@, lo as int, k as int)
                + token_text(ts@[k as int]));
        }
        k = k + 1;
    }
    text
}

/// Parses the `ctx.field = value` argument whose `.` is at `i`.
fn parse_ctx(ts: &Vec<Token>, i: usize) -> (r: Result<(FieldAssignment, usize), DeriveError>)
    requires
        i <= ts@.len(),
    ensures
        match ctx_outcome(ts@, i as int) {
            Ok((a, next)) => r matches Ok((b, n)) && b@ == a && n == next && i < n <= ts@.len(),
            Err(e) => r matches Err(e2) && e2 == e,
        },
{
    let is_dot = i < ts.len() && match &ts[i] {
        Token::Punct('.', _) => true,
        _ => false,
    };
    if !is_dot {
        return Err(DeriveError::ExpectedPunct { at: i, punct: '.' });
    }
    if !(ts.len() - i > 1 && token_is_ident(&ts[i + 1])) {
        return Err(DeriveError::ExpectedField { at: i + 1 });
    }
    let e = find_field_end(ts, i + 2);
    let is_eq = e < ts.len() && match &ts[e] {
        Token::Punct('=', false) => true,
        _ => false,
    };
    if !is_eq {
        return Err(DeriveError::ExpectedPunct { at: e, punct: '=' });
    }
    proof {
        lemma_expr_end_bounds(ts@, e + 1);
    }
    let ve = find_expr_end(ts, e + 1);
    if ve == e + 1 {
        return Err(DeriveError::ExpectedExpression { at: e + 1 });
    }
    let field = text_of(ts, i + 1, e);
    Ok((FieldAssignment { field, value: TokenRange { start: e + 1, end: ve } }, ve))
}

/// The arguments of a workflow's `#[flowstate(...)]`, as positions in its
/// tokens.
pub struct WorkflowArgsView {
    pub result_type: Option<TokenRange>,
    pub state_trait_ident: Option<int>,
    pub name_expr: Option<TokenRange>,
    pub is_async: Option<bool>,
    pub ctx_key_value_pairs: Seq<FieldAssignmentView>,
}

/// The arguments of a workflow's `#[flowstate(...)]`: the result type, the
/// name of the state trait to generate, the workflow's name, whether its
/// steps are async (`false` when not given) and what the workflow records
/// in its context.
#[derive(Debug)]
pub struct WorkflowArgs {
    pub result_type: TokenRange,
    pub state_trait_ident: Option<usize>,
    pub name_expr: Option<TokenRange>,
    pub is_async: bool,
    pub ctx_key_value_pairs: Vec<FieldAssignment>,
}

/// The views of assignments.
pub open spec fn assignments_view(s: Seq<FieldAssignment>) -> Seq<FieldAssignmentView> {
    s.map_values(|a: FieldAssignment| a@)
}

/// What the workflow argument whose identifier is at `i` adds to `acc`,
/// and the position after it; or why it is refused.
pub open spec fn workflow_arg_step(ts: Seq<Token>, i: int, acc: WorkflowArgsView) -> Result<
    (WorkflowArgsView, int),
    DeriveError,
> {
    let name = ts[i]->Ident_0;
    if name@ == "is_async"@ {
        if acc.is_async is Some {
            Err(DeriveError::DuplicateAttributeArgument { name: ArgName::IsAsync })
        } else if !(i + 1 < ts.len() && punct_is(ts[i + 1], '=')) {
            Err(DeriveError::ExpectedPunct { at: (i + 1) as usize, punct: '=' })
        } else if !(i + 2 < ts.len() && (ident_is(ts[i + 2], "true"@) || ident_is(
            ts[i + 2],
            "false"@,
        ))) {
            Err(DeriveError::ExpectedBool { at: (i + 2) as usize })
        } else {
            Ok((WorkflowArgsView { is_async: Some(ident_is(ts[i + 2], "true"@)), ..acc }, i + 3))
        }
    } else if name@ == "result"@ {
        if acc.result_type is Some {
            Err(DeriveError::DuplicateAttributeArgument { name: ArgName::Result })
        } else if !(i + 1 < ts.len() && punct_is(ts[i + 1], '=')) {
            Err(DeriveError::ExpectedPunct { at: (i + 1) as usize, punct: '=' })
        } else {
            match path_end(ts, i + 2) {
                None => Err(DeriveError::ExpectedPath { at: (i + 2) as usize }),
                Some(e) => Ok(
                    (
                        WorkflowArgsView {
                            result_type: Some(TokenRange { start: (i + 2) as usize, end: e as usize }),
                            ..acc
                        },
                        e,
                    ),
                ),
            }
        }
    } else if name@ == "state_trait"@ {
        if acc.state_trait_ident is Some {
            Err(DeriveError::DuplicateAttributeArgument { name: ArgName::StateTrait })
        } else if !(i + 1 < ts.len() && punct_is(ts[i + 1], '=')) {
            Err(DeriveError::ExpectedPunct { at: (i + 1) as usize, punct: '=' })
        } else if !(i + 2 < ts.len() && is_ident(ts[i + 2])) {
            Err(DeriveError::ExpectedIdent { at: (i + 2) as usize })
        } else {
            Ok((WorkflowArgsView { state_trait_ident: Some(i + 2), ..acc }, i + 3))
        }
    } else if name@ == "name"@ {
        if acc.name_expr is Some {
            Err(DeriveError::DuplicateAttributeArgument { name: ArgName::Name })
        } else if !(i + 1 < ts.len() && punct_is(ts[i + 1], '=')) {
            Err(DeriveError::ExpectedPunct { at: (i + 1) as usize, punct: '=' })
        } else if expr_end(ts, i + 2) == i + 2 {
            Err(DeriveError::ExpectedExpression { at: (i + 2) as usize })
        } else {
            Ok(
                (
                    WorkflowArgsView {
                        name_expr: Some(
                            TokenRange { start: (i + 2) as usize, end: expr_end(ts, i + 2) as usize },
                        ),
                        ..acc
                    },
                    expr_end(ts, i + 2),
                ),
            )
        }
    } else if name@ == "ctx"@ {
        match ctx_outcome(ts, i + 1) {
            Ok((a, next)) => Ok(
                (
                    WorkflowArgsView {
                        ctx_key_value_pairs: acc.ctx_key_value_pairs.push(a),
                        ..acc
                    },
                    next,
                ),
            ),
            Err(e) => Err(e),
        }
    } else {
        Err(DeriveError::UnknownAttributeArgument { name })
    }
}

/// The workflow arguments from position `i` on, given those before it:
/// each argument an identifier with what its kind takes, arguments
/// separated by commas, a trailing comma allowed, `result` required.
pub open spec fn workflow_args_from(ts: Seq<Token>, i: int, acc: WorkflowArgsView) -> Result<
    WorkflowArgsView,
    DeriveError,
>
    decreases ts.len() - i,
{
    if i < 0 || i >= ts.len() {
        if acc.result_type is None {
            Err(DeriveError::MissingAttributeArgument { name: ArgName::Result })
        } else {
            Ok(acc)
        }
    } else if !is_ident(ts[i]) {
        Err(DeriveError::ExpectedIdent { at: i as usize })
    } else {
        match workflow_arg_step(ts, i, acc) {
            Err(e) => Err(e),
            Ok((acc2, j)) => if j <= i {
                Err(DeriveError::ExpectedIdent { at: i as usize })
            } else if j >= ts.len() {
                workflow_args_from(ts, ts.len() as int, acc2)
            } else if punct_is(ts[j], ',') {
                workflow_args_from(ts, j + 1, acc2)
            } else {
                Err(DeriveError::ExpectedPunct { at: j as usize, punct: ',' })
            },
        }
    }
}

/// The arguments of a workflow's `#[flowstate(...)]`.
pub open spec fn workflow_args_outcome(ts: Seq<Token>) -> Result<WorkflowArgsView, DeriveError> {
    workflow_args_from(
        ts,
        0,
        WorkflowArgsView {
            result_type: None,
            state_trait_ident: None,
            name_expr: None,
            is_async: None,
            ctx_key_value_pairs: Seq::empty(),
        },
    )
}

/// The exec counterpart of the arguments gathered so far.
pub open spec fn gathered(
    result_type: Option<TokenRange>,
    state_trait_ident: Option<usize>,
    name_expr: Option<TokenRange>,
    is_async: Option<bool>,
    ctx: Seq<FieldAssignment>,
) -> WorkflowArgsView {
    WorkflowArgsView {
        result_type,
        state_trait_ident: match state_trait_ident {
            Some(p) => Some(p as int),
            None => None,
        },
        name_expr,
        is_async,
        ctx_key_value_pairs: assignments_view(ctx),
    }
}

/// Parses the arguments of a workflow's `#[flowstate(...)]`.
pub fn parse_workflow_args(ts: &Vec<Token>) -> (r: Result<WorkflowArgs, DeriveError>)
    ensures
        match workflow_args_outcome(ts@) {
            Ok(v) => r matches Ok(a) && v == gathered(
                Some(a.result_type),
                a.state_trait_ident,
                a.name_expr,
                v.is_async,
                a.ctx_key_value_pairs@,
            ) && a.is_async == (v.is_async == Some(true)),
            Err(e) => r matches Err(e2) && e2 == e,
        },
{
    let mut result_type: Option<TokenRange> = None;
    let mut state_trait_ident: Option<usize> = None;
    let mut name_expr: Option<TokenRange> = None;
    let mut is_async: Option<bool> = None;
    let mut ctx: Vec<FieldAssignment> = Vec::new();
    let mut i: usize = 0;
    proof {
        assert(assignments_view(ctx@) =~= Seq::<FieldAssignmentView>::empty());
    }
    while i < ts.len()
        invariant
            i <= ts@.len(),
            workflow_args_outcome(ts@) == workflow_args_from(
                ts@,
                i as int,
                gathered(result_type, state_trait_ident, name_expr, is_async, ctx@),
            ),
        decreases ts.len() - i,
    {
        let ghost acc = gathered(result_type, state_trait_ident, name_expr, is_async, ctx@);
        let name = match &ts[i] {
            Token::Ident(name) => name,
            _ => return Err(DeriveError::ExpectedIdent { at: i }),
        };
        let next: usize;
        if str_eq_lit(name, "is_async") {
            if is_async.is_some() {
                return Err(DeriveError::DuplicateAttributeArgument { name: ArgName::IsAsync });
            }
            if !punct_at(ts, i + 1, '=') {
                return Err(DeriveError::ExpectedPunct { at: i + 1, punct: '=' });
            }
            let value = if ts.len() - i > 2 {
                match &ts[i + 2] {
                    Token::Ident(v) => if str_eq_lit(v, "true") {
                        Some(true)
                    } else if str_eq_lit(v, "false") {
                        Some(false)
                    } else {
                        None
                    },
                    _ => None,
                }
            } else {
                None
            };
            if value.is_none() {
                return Err(DeriveError::ExpectedBool { at: i + 2 });
            }
            is_async = value;
            next = i + 3;
        } else if str_eq_lit(name, "result") {
            if result_type.is_some() {
                return Err(DeriveError::DuplicateAttributeArgument { name: ArgName::Result });
            }
            if !punct_at(ts, i + 1, '=') {
                return Err(DeriveError::ExpectedPunct { at: i + 1, punct: '=' });
            }
            match find_path_end(ts, i + 2) {
                None => return Err(DeriveError::ExpectedPath { at: i + 2 }),
                Some(e) => {
                    result_type = Some(TokenRange { start: i + 2, end: e });
                    next = e;
                },
            }
        } else if str_eq_lit(name, "state_trait") {
            if state_trait_ident.is_some() {
                return Err(DeriveError::DuplicateAttributeArgument { name: ArgName::StateTrait });
            }
            if !punct_at(ts, i + 1, '=') {
                return Err(DeriveError::ExpectedPunct { at: i + 1, punct: '=' });
            }
            if !(ts.len() - i > 2 && token_is_ident(&ts[i + 2])) {
                return Err(DeriveError::ExpectedIdent { at: i + 2 });
            }
            state_trait_ident = Some(i + 2);
            next = i + 3;
        } else if str_eq_lit(name, "name") {
            if name_expr.is_some() {
                return Err(DeriveError::DuplicateAttributeArgument { name: ArgName::Name });
            }
            if !punct_at(ts, i + 1, '=') {
                return Err(DeriveError::ExpectedPunct { at: i + 1, punct: '=' });
            }
            let e = find_expr_end(ts, i + 2);
            if e == i + 2 {
                return Err(DeriveError::ExpectedExpression { at: i + 2 });
            }
            name_expr = Some(TokenRange { start: i + 2, end: e });
            next = e;
        } else if str_eq_lit(name, "ctx") {
            match parse_ctx(ts, i + 1) {
                Ok((assignment, after)) => {
                    let ghost before = ctx@;
                    ctx.push(assignment);
                    proof {
                        assert(assignments_view(ctx@) =~= assignments_view(before).push(
                            assignment@,
                        ));
                    }
                    next = after;
                },
                Err(e) => return Err(e),
            }
        } else {
            return Err(DeriveError::UnknownAttributeArgument { name: name.clone() });
        }
        let ghost acc2 = gathered(result_type, state_trait_ident, name_expr, is_async, ctx@);
        proof {
            assert(workflow_arg_step(ts@, i as int, acc) == Ok::<(WorkflowArgsView, int), DeriveError>(
                (acc2, next as int),
            ));
            assert(next > i);
        }
        if next >= ts.len() {
            proof {
                assert(workflow_args_from(ts@, i as int, acc) == workflow_args_from(
                    ts@,
                    ts@.len() as int,
                    acc2,
                ));
            }
            i = ts.len();
        } else {
            match &ts[next] {
                Token::Punct(',', _) => {
                    proof {
                        assert(workflow_args_from(ts@, i as int, acc) == workflow_args_from(
                            ts@,
                            next + 1,
                            acc2,
                        ));
                    }
                    i = next + 1;
                },
                _ => {
                    proof {
                        assert(workflow_args_from(ts@, i as int, acc) == Err::<WorkflowArgsView, DeriveError>(
                            DeriveError::ExpectedPunct { at: next, punct: ',' },
                        ));
                    }
                    return Err(DeriveError::ExpectedPunct { at: next, punct: ',' });
                },
            }
        }
    }
    match result_type {
        Some(result_type) => Ok(
            WorkflowArgs {
                result_type,
                state_trait_ident,
                name_expr,
                is_async: match is_async {
                    Some(b) => b,
                    None => false,
                },
                ctx_key_value_pairs: ctx,
            },
        ),
        None => Err(DeriveError::MissingAttributeArgument { name: ArgName::Result }),
    }
}

/// Whether `s` holds the characters of `lit`.
fn str_eq_lit(s: &String, lit: &str) -> (r: bool)
    ensures
        r == (s@ == lit@),
{
    crate::bytes_order::str_eq(s.as_str(), lit)
}

/// Whether the token at `i` is the punctuation character `c`.
fn punct_at(ts: &Vec<Token>, i: usize, c: char) -> (r: bool)
    ensures
        r == (i < ts@.len() && punct_is(ts@[i as int], c)),
{
    if i < ts.len() {
        match &ts[i] {
            Token::Punct(ch, _) => *ch == c,
            _ => false,
        }
    } else {
        false
    }
}

/// The arguments of a state's `#[flowstate(...)]`, as positions in its
/// tokens.
pub struct StateArgsView {
    pub name_expr: Option<TokenRange>,
    pub ctx_key_value_pairs: Seq<FieldAssignmentView>,
}

/// The arguments of a state's `#[flowstate(...)]`: the state's name and
/// what the state records in its context.
#[derive(Debug)]
pub struct StateArgs {
    pub name_expr: Option<TokenRange>,
    pub ctx_key_value_pairs: Vec<FieldAssignment>,
}

/// What the state argument whose identifier is at `i` adds to `acc`, and
/// the position after it; or why it is refused.
pub open spec fn state_arg_step(ts: Seq<Token>, i: int, acc: StateArgsView) -> Result<
    (StateArgsView, int),
    DeriveError,
> {
    let name = ts[i]->Ident_0;
    if name@ == "name"@ {
        if acc.name_expr is Some {
            Err(DeriveError::DuplicateAttributeArgument { name: ArgName::Name })
        } else if !(i + 1 < ts.len() && punct_is(ts[i + 1], '=')) {
            Err(DeriveError::ExpectedPunct { at: (i + 1) as usize, punct: '=' })
        } else if expr_end(ts, i + 2) == i + 2 {
            Err(DeriveError::ExpectedExpression { at: (i + 2) as usize })
        } else {
            Ok(
                (
                    StateArgsView {
                        name_expr: Some(
                            TokenRange { start: (i + 2) as usize, end: expr_end(ts, i + 2) as usize },
                        ),
                        ..acc
                    },
                    expr_end(ts, i + 2),
                ),
            )
        }
    } else if name@ == "ctx"@ {
        match ctx_outcome(ts, i + 1) {
            Ok((a, next)) => Ok(
                (
                    StateArgsView {
                        ctx_key_value_pairs: acc.ctx_key_value_pairs.push(a),
                        ..acc
                    },
                    next,
                ),
            ),
            Err(e) => Err(e),
        }
    } else {
        Err(DeriveError::UnknownAttributeArgument { name })
    }
}

/// The state arguments from position `i` on, given those before it.
pub open spec fn state_args_from(ts: Seq<Token>, i: int, acc: StateArgsView) -> Result<
    StateArgsView,
    DeriveError,
>
    decreases ts.len() - i,
{
    if i < 0 || i >= ts.len() {
        Ok(acc)
    } else if !is_ident(ts[i]) {
        Err(DeriveError::ExpectedIdent { at: i as usize })
    } else {
        match state_arg_step(ts, i, acc) {
            Err(e) => Err(e),
            Ok((acc2, j)) => if j <= i {
                Err(DeriveError::ExpectedIdent { at: i as usize })
            } else if j >= ts.len() {
                state_args_from(ts, ts.len() as int, acc2)
            } else if punct_is(ts[j], ',') {
                state_args_from(ts, j + 1, acc2)
            } else {
                Err(DeriveError::ExpectedPunct { at: j as usize, punct: ',' })
            },
        }
    }
}

/// The arguments of a state's `#[flowstate(...)]`.
pub open spec fn state_args_outcome(ts: Seq<Token>) -> Result<StateArgsView, DeriveError> {
    state_args_from(ts, 0, StateArgsView { name_expr: None, ctx_key_value_pairs: Seq::empty() })
}

/// Parses the arguments of a state's `#[flowstate(...)]`.
pub fn parse_state_args(ts: &Vec<Token>) -> (r: Result<StateArgs, DeriveError>)
    ensures
        match state_args_outcome(ts@) {
            Ok(v) => r matches Ok(a) && v == (StateArgsView {
                name_expr: a.name_expr,
                ctx_key_value_pairs: assignments_view(a.ctx_key_value_pairs@),
            }),
            Err(e) => r matches Err(e2) && e2 == e,
        },
{
    let mut name_expr: Option<TokenRange> = None;
    let mut ctx: Vec<FieldAssignment> = Vec::new();
    let mut i: usize = 0;
    proof {
        assert(assignments_view(ctx@) =~= Seq::<FieldAssignmentView>::empty());
    }
    while i < ts.len()
        invariant
            i <= ts@.len(),
            state_args_outcome(ts@) == state_args_from(
                ts@,
                i as int,
                StateArgsView { name_expr, ctx_key_value_pairs: assignments_view(ctx@) },
            ),
        decreases ts.len() - i,
    {
        let ghost acc = StateArgsView { name_expr, ctx_key_value_pairs: assignments_view(ctx@) };
        let name = match &ts[i] {
            Token::Ident(name) => name,
            _ => return Err(DeriveError::ExpectedIdent { at: i }),
        };
        let next: usize;
        if str_eq_lit(name, "name") {
            if name_expr.is_some() {
                return Err(DeriveError::DuplicateAttributeArgument { name: ArgName::Name });
            }
            if !punct_at(ts, i + 1, '=') {
                return Err(DeriveError::ExpectedPunct { at: i + 1, punct: '=' });
            }
            let e = find_expr_end(ts, i + 2);
            if e == i + 2 {
                return Err(DeriveError::ExpectedExpression { at: i + 2 });
            }
            name_expr = Some(TokenRange { start: i + 2, end: e });
            next = e;
        } else if str_eq_lit(name, "ctx") {
            match parse_ctx(ts, i + 1) {
                Ok((assignment, after)) => {
                    let ghost before = ctx@;
                    ctx.push(assignment);
                    proof {
                        assert(assignments_view(ctx@) =~= assignments_view(before).push(
                            assignment@,
                        ));
                    }
                    next = after;
                },
                Err(e) => return Err(e),
            }
        } else {
            return Err(DeriveError::UnknownAttributeArgument { name: name.clone() });
        }
        let ghost acc2 = StateArgsView { name_expr, ctx_key_value_pairs: assignments_view(ctx@) };
        proof {
            assert(state_arg_step(ts@, i as int, acc) == Ok::<(StateArgsView, int), DeriveError>(
                (acc2, next as int),
            ));
            assert(next > i);
        }
        if next >= ts.len() {
            proof {
                assert(state_args_from(ts@, i as int, acc) == state_args_from(
                    ts@,
                    ts@.len() as int,
                    acc2,
                ));
            }
            i = ts.len();
        } else {
            match &ts[next] {
                Token::Punct(',', _) => {
                    proof {
                        assert(state_args_from(ts@, i as int, acc) == state_args_from(
                            ts@,
                            next + 1,
                            acc2,
                        ));
                    }
                    i = next + 1;
                },
                _ => {
                    proof {
                        assert(state_args_from(ts@, i as int, acc) == Err::<StateArgsView, DeriveError>(
                            DeriveError::ExpectedPunct { at: next, punct: ',' },
                        ));
                    }
                    return Err(DeriveError::ExpectedPunct { at: next, punct: ',' });
                },
            }
        }
    }
    Ok(StateArgs { name_expr, ctx_key_value_pairs: ctx })
}

/// The positions that workflow arguments hold lie within `ts`.
pub open spec fn workflow_args_within(a: WorkflowArgsView, ts: Seq<Token>) -> bool {
    &&& a.result_type matches Some(r) ==> r.start <= r.end <= ts.len()
    &&& a.name_expr matches Some(r) ==> r.start <= r.end <= ts.len()
    &&& a.state_trait_ident matches Some(p) ==> 0 <= p < ts.len()
}

/// The positions that state arguments hold lie within `ts`.
pub open spec fn state_args_within(a: StateArgsView, ts: Seq<Token>) -> bool {
    &&& a.name_expr matches Some(r) ==> r.start <= r.end <= ts.len()
    &&& forall|k: int|
        0 <= k < a.ctx_key_value_pairs.len() ==> (#[trigger] a.ctx_key_value_pairs[k]).value.start
            <= a.ctx_key_value_pairs[k].value.end <= ts.len()
}

proof fn lemma_path_end_within(ts: Seq<Token>, i: int)
    requires
        0 <= i,
        ts.len() <= usize::MAX,
    ensures
        path_end(ts, i) matches Some(e) ==> i < e <= ts.len(),
{
    let f = path_first(ts, i);
    if 0 <= f < ts.len() && is_ident(ts[f]) {
        lemma_path_segments_end(ts, f + 1);
        let j = path_segments_end(ts, f + 1);
        if j < ts.len() && punct_is(ts[j], '<') {
            lemma_angle_end(ts, j + 1, 1);
        }
    }
}

proof fn lemma_ctx_within(ts: Seq<Token>, i: int)
    requires
        0 <= i,
        ts.len() <= usize::MAX,
    ensures
        ctx_outcome(ts, i) matches Ok((a, next)) ==> a.value.start <= a.value.end <= ts.len() && i
            < next <= ts.len(),
{
    if 0 <= i < ts.len() && punct_is(ts[i], '.') && i + 1 < ts.len() && is_ident(ts[i + 1]) {
        lemma_field_end(ts, i + 2);
        let e = field_end(ts, i + 2);
        if e < ts.len() && lone_punct(ts[e], '=') {
            lemma_expr_end_bounds(ts, e + 1);
        }
    }
}

/// Parsed workflow arguments hold positions within their tokens.
pub proof fn lemma_workflow_args_within(ts: Seq<Token>, i: int, acc: WorkflowArgsView)
    requires
        0 <= i,
        ts.len() <= usize::MAX,
        workflow_args_within(acc, ts),
    ensures
        workflow_args_from(ts, i, acc) matches Ok(v) ==> workflow_args_within(v, ts),
    decreases ts.len() - i,
{
    if 0 <= i < ts.len() && is_ident(ts[i]) {
        lemma_path_end_within(ts, i + 2);
        lemma_ctx_within(ts, i + 1);
        if i + 2 <= ts.len() {
            lemma_expr_end_bounds(ts, i + 2);
        }
        if let Ok((acc2, j)) = workflow_arg_step(ts, i, acc) {
            assert(workflow_args_within(acc2, ts));
            if j > i {
                if j >= ts.len() {
                    lemma_workflow_args_within(ts, ts.len() as int, acc2);
                } else if punct_is(ts[j], ',') {
                    lemma_workflow_args_within(ts, j + 1, acc2);
                }
            }
        }
    }
}

/// Parsed state arguments hold positions within their tokens.
pub proof fn lemma_state_args_within(ts: Seq<Token>, i: int, acc: StateArgsView)
    requires
        0 <= i,
        ts.len() <= usize::MAX,
        state_args_within(acc, ts),
    ensures
        state_args_from(ts, i, acc) matches Ok(v) ==> state_args_within(v, ts),
    decreases ts.len() - i,
{
    if 0 <= i < ts.len() && is_ident(ts[i]) {
        lemma_ctx_within(ts, i + 1);
        if i + 2 <= ts.len() {
            lemma_expr_end_bounds(ts, i + 2);
        }
        if let Ok((acc2, j)) = state_arg_step(ts, i, acc) {
            assert(state_args_within(acc2, ts)) by {
                if ts[i]->Ident_0@ == "ctx"@ {
                    let a = ctx_outcome(ts, i + 1)->Ok_0.0;
                    assert forall|k: int| 0 <= k < acc2.ctx_key_value_pairs.len() implies (
                    #[trigger] acc2.ctx_key_value_pairs[k]).value.start
                        <= acc2.ctx_key_value_pairs[k].value.end <= ts.len() by {
                        if k < acc.ctx_key_value_pairs.len() {
                            assert(acc2.ctx_key_value_pairs[k] == acc.ctx_key_value_pairs[k]);
                        }
                    }
                }
            }
            if j > i {
                if j >= ts.len() {
                    lemma_state_args_within(ts, ts.len() as int, acc2);
                } else if punct_is(ts[j], ',') {
                    lemma_state_args_within(ts, j + 1, acc2);
                }
            }
        }
    }
}

} // verus!
