//! Reading a prerequisite or corequisite statement into a logical
//! expression over course identifiers.
//!
//! The grammar is small on purpose. After an optional heading that ends in
//! a colon, a statement is made of identifiers (`COMP 202` or `COMP202`:
//! four capital letters, then three digits and any further capital letters
//! or digits), the words `and`, `or` and `not` in any case, and round
//! brackets; blanks and full stops separate words. `not` binds tightest,
//! then `and`, then `or`. A statement outside this grammar is kept as it is
//! written, as a single leaf.

use crate::listing::{Requirements, RequirementsView};
use crate::requirement::{node_view, node_views, ReqNode, ReqNodeView};
use crate::text::{concat2, to_chars};
use crate::value::{combine, union, Value};
use vstd::prelude::*;
use vstd::string::StrSliceExecFns;

verus! {

/// A word or bracket of a statement.
#[derive(Clone, Debug, PartialEq, Eq)]
pub enum Token {
    Id(String),
    And,
    Or,
    Not,
    Open,
    Close,
}

/// The mathematical value of a [`Token`].
pub enum TokenView {
    Id(Seq<char>),
    And,
    Or,
    Not,
    Open,
    Close,
}

impl DeepView for Token {
    type V = TokenView;

    open spec fn deep_view(&self) -> TokenView {
        match self {
            Token::Id(s) => TokenView::Id(s@),
            Token::And => TokenView::And,
            Token::Or => TokenView::Or,
            Token::Not => TokenView::Not,
            Token::Open => TokenView::Open,
            Token::Close => TokenView::Close,
        }
    }
}

/// Whether a character only separates words.
pub open spec fn is_blank(c: char) -> bool {
    c == ' ' || c == '\t' || c == '\n' || c == '\r' || c == '.'
}

/// Whether a character ends the word before it.
pub open spec fn is_break(c: char) -> bool {
    is_blank(c) || c == '(' || c == ')'
}

/// Whether a character is a capital letter from `A` to `Z`.
pub open spec fn is_capital(c: char) -> bool {
    'A' <= c <= 'Z'
}

/// Whether a character is a digit from `0` to `9`.
pub open spec fn is_digit(c: char) -> bool {
    '0' <= c <= '9'
}

/// The end of the word that starts at `from`: the position of the first
/// break at or after `from`, or the length of `s`.
pub open spec fn word_end(s: Seq<char>, from: int) -> int
    decreases s.len() - from,
{
    if from >= s.len() {
        s.len() as int
    } else if is_break(s[from]) {
        from
    } else {
        word_end(s, from + 1)
    }
}

/// The position of the first character at or after `from` that is not a
/// blank, or the length of `s`.
pub open spec fn blank_end(s: Seq<char>, from: int) -> int
    decreases s.len() - from,
{
    if from >= s.len() {
        s.len() as int
    } else if !is_blank(s[from]) {
        from
    } else {
        blank_end(s, from + 1)
    }
}

/// Whether a word is a subject: four capital letters.
pub open spec fn is_subject(w: Seq<char>) -> bool {
    w.len() == 4 && forall|i: int| 0 <= i < 4 ==> is_capital(#[trigger] w[i])
}

/// Whether a word is a course code: three digits, then capital letters and
/// digits only.
pub open spec fn is_code(w: Seq<char>) -> bool {
    &&& w.len() >= 3
    &&& forall|i: int| 0 <= i < 3 ==> is_digit(#[trigger] w[i])
    &&& forall|i: int| 3 <= i < w.len() ==> is_capital(#[trigger] w[i]) || is_digit(w[i])
}

/// Whether a word is a subject with a code right behind it.
pub open spec fn is_joined(w: Seq<char>) -> bool {
    w.len() >= 7 && is_subject(w.take(4)) && is_code(w.skip(4))
}

/// Whether a word is `and`, in any case.
pub open spec fn is_and(w: Seq<char>) -> bool {
    w.len() == 3 && (w[0] == 'a' || w[0] == 'A') && (w[1] == 'n' || w[1] == 'N') && (w[2] == 'd'
        || w[2] == 'D')
}

/// Whether a word is `or`, in any case.
pub open spec fn is_or(w: Seq<char>) -> bool {
    w.len() == 2 && (w[0] == 'o' || w[0] == 'O') && (w[1] == 'r' || w[1] == 'R')
}

/// Whether a word is `not`, in any case.
pub open spec fn is_not(w: Seq<char>) -> bool {
    w.len() == 3 && (w[0] == 'n' || w[0] == 'N') && (w[1] == 'o' || w[1] == 'O') && (w[2] == 't'
        || w[2] == 'T')
}

/// `rest` with `acc` put before it, where there is a rest.
pub open spec fn after<A>(acc: Seq<A>, rest: Option<Seq<A>>) -> Option<Seq<A>> {
    match rest {
        Some(r) => Some(acc + r),
        None => None,
    }
}

/// The tokens of `s` from position `from` on, or `None` where a word is
/// none that the grammar knows.
pub open spec fn lex(s: Seq<char>, from: int) -> Option<Seq<TokenView>>
    decreases s.len() - from,
{
    if from < 0 || from >= s.len() {
        Some(Seq::empty())
    } else if is_blank(s[from]) {
        lex(s, from + 1)
    } else if s[from] == '(' {
        after(seq![TokenView::Open], lex(s, from + 1))
    } else if s[from] == ')' {
        after(seq![TokenView::Close], lex(s, from + 1))
    } else {
        let end = word_end(s, from);
        let w = s.subrange(from, end);
        if !(from < end <= s.len()) {
            None
        } else if is_and(w) {
            after(seq![TokenView::And], lex(s, end))
        } else if is_or(w) {
            after(seq![TokenView::Or], lex(s, end))
        } else if is_not(w) {
            after(seq![TokenView::Not], lex(s, end))
        } else if is_joined(w) {
            after(seq![TokenView::Id(w)], lex(s, end))
        } else if is_subject(w) {
            let start = blank_end(s, end);
            let stop = word_end(s, start);
            let code = s.subrange(start, stop);
            if end <= start < stop <= s.len() && is_code(code) {
                after(seq![TokenView::Id(w + code)], lex(s, stop))
            } else {
                None
            }
        } else {
            None
        }
    }
}

/// Where the expression of a statement starts: behind the first colon, or
/// at the start where there is no colon.
pub open spec fn heading_end(s: Seq<char>, from: int) -> int
    decreases s.len() - from,
{
    if from >= s.len() {
        0
    } else if s[from] == ':' {
        from + 1
    } else {
        heading_end(s, from + 1)
    }
}

/// The expression with the given children under `AND`; a single child
/// stands for itself.
pub open spec fn and_of(children: Seq<ReqNodeView>) -> ReqNodeView {
    if children.len() == 1 {
        children[0]
    } else {
        ReqNodeView::And(children)
    }
}

/// The expression with the given children under `OR`; a single child
/// stands for itself.
pub open spec fn or_of(children: Seq<ReqNodeView>) -> ReqNodeView {
    if children.len() == 1 {
        children[0]
    } else {
        ReqNodeView::Or(children)
    }
}

/// Reads an identifier, a negation or a bracketed expression at `pos`;
/// gives the expression and the position behind it.
pub open spec fn parse_unary(t: Seq<TokenView>, pos: int) -> Option<(ReqNodeView, int)>
    decreases t.len() - pos, 0int,
{
    if pos < 0 || pos >= t.len() {
        None
    } else {
        match t[pos] {
            TokenView::Id(s) => Some((ReqNodeView::Identifier(s), pos + 1)),
            TokenView::Not => match parse_unary(t, pos + 1) {
                Some((n, p)) => Some((ReqNodeView::Not(Box::new(n)), p)),
                None => None,
            },
            TokenView::Open => match parse_or(t, pos + 1) {
                Some((n, p)) => if 0 <= p < t.len() && t[p] == TokenView::Close {
                    Some((n, p + 1))
                } else {
                    None
                },
                None => None,
            },
            _ => None,
        }
    }
}

/// Reads the operands that follow `and` from `pos` on, after the operands
/// `acc`.
pub open spec fn and_rest(t: Seq<TokenView>, pos: int, acc: Seq<ReqNodeView>) -> Option<
    (Seq<ReqNodeView>, int),
>
    decreases t.len() - pos, 1int,
{
    if 0 <= pos < t.len() && t[pos] == TokenView::And {
        match parse_unary(t, pos + 1) {
            Some((n, p)) => if pos < p <= t.len() {
                and_rest(t, p, acc.push(n))
            } else {
                None
            },
            None => None,
        }
    } else {
        Some((acc, pos))
    }
}

/// Reads operands joined by `and` at `pos`.
pub open spec fn parse_and(t: Seq<TokenView>, pos: int) -> Option<(ReqNodeView, int)>
    decreases t.len() - pos, 2int,
{
    match parse_unary(t, pos) {
        Some((n, p)) => if pos <= p <= t.len() {
            match and_rest(t, p, seq![n]) {
                Some((children, q)) => Some((and_of(children), q)),
                None => None,
            }
        } else {
            None
        },
        None => None,
    }
}

/// Reads the operands that follow `or` from `pos` on, after the operands
/// `acc`.
pub open spec fn or_rest(t: Seq<TokenView>, pos: int, acc: Seq<ReqNodeView>) -> Option<
    (Seq<ReqNodeView>, int),
>
    decreases t.len() - pos, 3int,
{
    if 0 <= pos < t.len() && t[pos] == TokenView::Or {
        match parse_and(t, pos + 1) {
            Some((n, p)) => if pos < p <= t.len() {
                or_rest(t, p, acc.push(n))
            } else {
                None
            },
            None => None,
        }
    } else {
        Some((acc, pos))
    }
}

/// Reads operands joined by `or` at `pos`.
pub open spec fn parse_or(t: Seq<TokenView>, pos: int) -> Option<(ReqNodeView, int)>
    decreases t.len() - pos, 4int,
{
    match parse_and(t, pos) {
        Some((n, p)) => if pos <= p <= t.len() {
            match or_rest(t, p, seq![n]) {
                Some((children, q)) => Some((or_of(children), q)),
                None => None,
            }
        } else {
            None
        },
        None => None,
    }
}

/// The expression that the tokens spell, where they spell one and nothing
/// is left over.
pub open spec fn parse(t: Seq<TokenView>) -> Option<ReqNodeView> {
    match parse_or(t, 0) {
        Some((n, p)) => if p == t.len() {
            Some(n)
        } else {
            None
        },
        None => None,
    }
}

/// The identifiers among the tokens, in order.
pub open spec fn token_ids(t: Seq<TokenView>) -> Seq<Seq<char>>
    decreases t.len(),
{
    if t.len() == 0 {
        Seq::empty()
    } else {
        match t.last() {
            TokenView::Id(s) => token_ids(t.drop_last()).push(s),
            _ => token_ids(t.drop_last()),
        }
    }
}

/// What a statement yields: the identifiers it names, each once and in
/// order; its logical expression; and the statement as written.
pub struct Requirement {
    pub ids: Vec<String>,
    pub tree: ReqNode,
    pub raw_text: String,
}

/// The mathematical value of a [`Requirement`].
pub struct RequirementView {
    pub ids: Seq<Seq<char>>,
    pub tree: ReqNodeView,
    pub raw_text: Seq<char>,
}

impl DeepView for Requirement {
    type V = RequirementView;

    open spec fn deep_view(&self) -> RequirementView {
        RequirementView {
            ids: self.ids.deep_view(),
            tree: self.tree.deep_view(),
            raw_text: self.raw_text@,
        }
    }
}

/// What a statement outside the grammar yields: no identifier, and the
/// statement itself as the only leaf.
pub open spec fn unread(text: Seq<char>) -> RequirementView {
    RequirementView { ids: Seq::empty(), tree: ReqNodeView::Identifier(text), raw_text: text }
}

/// What a statement yields.
pub open spec fn requirement_of(text: Seq<char>) -> RequirementView {
    match lex(text, heading_end(text, 0)) {
        Some(tokens) => match parse(tokens) {
            Some(tree) => RequirementView {
                ids: union(Seq::empty(), token_ids(tokens)),
                tree,
                raw_text: text,
            },
            None => unread(text),
        },
        None => unread(text),
    }
}

fn blank(c: char) -> (r: bool)
    ensures
        r == is_blank(c),
{
    c == ' ' || c == '\t' || c == '\n' || c == '\r' || c == '.'
}

fn breaks(c: char) -> (r: bool)
    ensures
        r == is_break(c),
{
    blank(c) || c == '(' || c == ')'
}

fn capital(c: char) -> (r: bool)
    ensures
        r == is_capital(c),
{
    'A' <= c && c <= 'Z'
}

fn digit(c: char) -> (r: bool)
    ensures
        r == is_digit(c),
{
    '0' <= c && c <= '9'
}

/// Finds the end of the word that starts at `from`.
fn find_word_end(cs: &Vec<char>, from: usize) -> (end: usize)
    requires
        from <= cs.len(),
    ensures
        end == word_end(cs@, from as int),
        from <= end <= cs.len(),
        from < cs.len() && !is_break(cs[from as int]) ==> from < end,
{
    let mut end: usize = from;
    while end < cs.len() && !breaks(cs[end])
        invariant
            from <= end <= cs.len(),
            word_end(cs@, from as int) == word_end(cs@, end as int),
            from < cs.len() && !is_break(cs[from as int]) && end == from ==> !is_break(
                cs[end as int],
            ),
        decreases cs.len() - end,
    {
        end += 1;
    }
    end
}

/// Finds the first character at or after `from` that is not a blank.
fn find_blank_end(cs: &Vec<char>, from: usize) -> (end: usize)
    requires
        from <= cs.len(),
    ensures
        end == blank_end(cs@, from as int),
        from <= end <= cs.len(),
{
    let mut end: usize = from;
    while end < cs.len() && blank(cs[end])
        invariant
            from <= end <= cs.len(),
            blank_end(cs@, from as int) == blank_end(cs@, end as int),
        decreases cs.len() - end,
    {
        end += 1;
    }
    end
}

/// Finds where the expression of a statement starts.
fn find_heading_end(cs: &Vec<char>) -> (end: usize)
    ensures
        end == heading_end(cs@, 0),
        end <= cs.len(),
{
    let mut i: usize = 0;
    while i < cs.len()
        invariant
            i <= cs.len(),
            heading_end(cs@, 0) == heading_end(cs@, i as int),
        decreases cs.len() - i,
    {
        if cs[i] == ':' {
            return i + 1;
        }
        i += 1;
    }
    0
}

/// Whether the characters from `from` up to `end` are a subject.
fn subject_at(cs: &Vec<char>, from: usize, end: usize) -> (r: bool)
    requires
        from <= end <= cs.len(),
    ensures
        r == is_subject(cs@.subrange(from as int, end as int)),
{
    let ghost w = cs@.subrange(from as int, end as int);
    if end - from != 4 {
        return false;
    }
    let r = capital(cs[from]) && capital(cs[from + 1]) && capital(cs[from + 2]) && capital(
        cs[from + 3],
    );
    proof {
        assert(w[0] == cs[from as int]);
        assert(w[1] == cs[from + 1]);
        assert(w[2] == cs[from + 2]);
        assert(w[3] == cs[from + 3]);
    }
    r
}

/// Whether the characters from `from` up to `end` are a course code.
fn code_at(cs: &Vec<char>, from: usize, end: usize) -> (r: bool)
    requires
        from <= end <= cs.len(),
    ensures
        r == is_code(cs@.subrange(from as int, end as int)),
{
    let ghost w = cs@.subrange(from as int, end as int);
    if end - from < 3 {
        return false;
    }
    proof {
        assert(w[0] == cs[from as int]);
        assert(w[1] == cs[from + 1]);
        assert(w[2] == cs[from + 2]);
    }
    if !(digit(cs[from]) && digit(cs[from + 1]) && digit(cs[from + 2])) {
        return false;
    }
    let mut i: usize = from + 3;
    while i < end
        invariant
            from + 3 <= i <= end <= cs.len(),
            w == cs@.subrange(from as int, end as int),
            forall|k: int| 3 <= k < i - from ==> is_capital(#[trigger] w[k]) || is_digit(w[k]),
        decreases end - i,
    {
        assert(w[i - from] == cs[i as int]);
        if !(capital(cs[i]) || digit(cs[i])) {
            return false;
        }
        i += 1;
    }
    true
}

/// Whether the characters from `from` up to `end` are a subject with a code
/// right behind it.
fn joined_at(cs: &Vec<char>, from: usize, end: usize) -> (r: bool)
    requires
        from <= end <= cs.len(),
    ensures
        r == is_joined(cs@.subrange(from as int, end as int)),
{
    let ghost w = cs@.subrange(from as int, end as int);
    if end - from < 7 {
        return false;
    }
    proof {
        assert(w.take(4) =~= cs@.subrange(from as int, from + 4));
        assert(w.skip(4) =~= cs@.subrange(from + 4, end as int));
    }
    subject_at(cs, from, from + 4) && code_at(cs, from + 4, end)
}

/// Whether the characters from `from` up to `end` spell `and`.
fn and_at(cs: &Vec<char>, from: usize, end: usize) -> (r: bool)
    requires
        from <= end <= cs.len(),
    ensures
        r == is_and(cs@.subrange(from as int, end as int)),
{
    end - from == 3 && (cs[from] == 'a' || cs[from] == 'A') && (cs[from + 1] == 'n' || cs[from + 1]
        == 'N') && (cs[from + 2] == 'd' || cs[from + 2] == 'D')
}

/// Whether the characters from `from` up to `end` spell `or`.
fn or_at(cs: &Vec<char>, from: usize, end: usize) -> (r: bool)
    requires
        from <= end <= cs.len(),
    ensures
        r == is_or(cs@.subrange(from as int, end as int)),
{
    end - from == 2 && (cs[from] == 'o' || cs[from] == 'O') && (cs[from + 1] == 'r' || cs[from + 1]
        == 'R')
}

/// Whether the characters from `from` up to `end` spell `not`.
fn not_at(cs: &Vec<char>, from: usize, end: usize) -> (r: bool)
    requires
        from <= end <= cs.len(),
    ensures
        r == is_not(cs@.subrange(from as int, end as int)),
{
    end - from == 3 && (cs[from] == 'n' || cs[from] == 'N') && (cs[from + 1] == 'o' || cs[from + 1]
        == 'O') && (cs[from + 2] == 't' || cs[from + 2] == 'T')
}

/// Putting a token behind what was read is putting it before the rest.
proof fn lemma_after_push(acc: Seq<TokenView>, t: TokenView, rest: Option<Seq<TokenView>>)
    ensures
        after(acc, after(seq![t], rest)) == after(acc.push(t), rest),
{
    if rest is Some {
        assert(acc + (seq![t] + rest->0) =~= acc.push(t) + rest->0);
    }
}

/// Splits a statement into tokens from position `start` on; `None` where a
/// word is none that the grammar knows.
pub fn tokenize(text: &str, start: usize) -> (r: Option<Vec<Token>>)
    ensures
        r.deep_view() == lex(text@, start as int),
{
    let cs = to_chars(text);
    let mut tokens: Vec<Token> = Vec::new();
    if start >= cs.len() {
        assert(tokens.deep_view() =~= Seq::empty());
        return Some(tokens);
    }
    let mut pos: usize = start;
    assert(tokens.deep_view() =~= Seq::empty());
    assert(after(Seq::<TokenView>::empty(), lex(cs@, pos as int)) =~= lex(cs@, pos as int)) by {
        if lex(cs@, pos as int) is Some {
            assert(Seq::<TokenView>::empty() + lex(cs@, pos as int)->0 =~= lex(cs@, pos as int)->0);
        }
    }
    while pos < cs.len()
        invariant
            pos <= cs.len(),
            cs@ == text@,
            lex(cs@, start as int) == after(tokens.deep_view(), lex(cs@, pos as int)),
        decreases cs.len() - pos,
    {
        let ghost acc = tokens.deep_view();
        let c = cs[pos];
        if blank(c) {
            pos += 1;
        } else if c == '(' {
            tokens.push(Token::Open);
            proof {
                lemma_after_push(acc, TokenView::Open, lex(cs@, pos + 1));
                assert(tokens.deep_view() =~= acc.push(TokenView::Open));
            }
            pos += 1;
        } else if c == ')' {
            tokens.push(Token::Close);
            proof {
                lemma_after_push(acc, TokenView::Close, lex(cs@, pos + 1));
                assert(tokens.deep_view() =~= acc.push(TokenView::Close));
            }
            pos += 1;
        } else {
            let end = find_word_end(&cs, pos);
            let ghost w = cs@.subrange(pos as int, end as int);
            if and_at(&cs, pos, end) {
                tokens.push(Token::And);
                proof {
                    lemma_after_push(acc, TokenView::And, lex(cs@, end as int));
                    assert(tokens.deep_view() =~= acc.push(TokenView::And));
                }
                pos = end;
            } else if or_at(&cs, pos, end) {
                tokens.push(Token::Or);
                proof {
                    lemma_after_push(acc, TokenView::Or, lex(cs@, end as int));
                    assert(tokens.deep_view() =~= acc.push(TokenView::Or));
                }
                pos = end;
            } else if not_at(&cs, pos, end) {
                tokens.push(Token::Not);
                proof {
                    lemma_after_push(acc, TokenView::Not, lex(cs@, end as int));
                    assert(tokens.deep_view() =~= acc.push(TokenView::Not));
                }
                pos = end;
            } else if joined_at(&cs, pos, end) {
                let id = text.substring_char(pos, end).to_owned();
                tokens.push(Token::Id(id));
                proof {
                    lemma_after_push(acc, TokenView::Id(w), lex(cs@, end as int));
                    assert(tokens.deep_view() =~= acc.push(TokenView::Id(w)));
                }
                pos = end;
            } else if subject_at(&cs, pos, end) {
                let first = find_blank_end(&cs, end);
                let stop = find_word_end(&cs, first);
                if first < stop && code_at(&cs, first, stop) {
                    let ghost code = cs@.subrange(first as int, stop as int);
                    let id = concat2(text.substring_char(pos, end), text.substring_char(first, stop));
                    tokens.push(Token::Id(id));
                    proof {
                        lemma_after_push(acc, TokenView::Id(w + code), lex(cs@, stop as int));
                        assert(tokens.deep_view() =~= acc.push(TokenView::Id(w + code)));
                    }
                    pos = stop;
                } else {
                    return None;
                }
            } else {
                return None;
            }
        }
    }
    proof {
        assert(tokens.deep_view() + Seq::<TokenView>::empty() =~= tokens.deep_view());
    }
    Some(tokens)
}

/// Whether what the parser gave is what the grammar says, and lies within
/// the tokens behind `pos`.
pub open spec fn agrees(
    r: Option<(ReqNode, usize)>,
    expected: Option<(ReqNodeView, int)>,
    pos: int,
    len: int,
) -> bool {
    match expected {
        Some((tree, p)) => r matches Some((n, q)) && node_view(n) == tree && q == p && pos < p
            <= len,
        None => r is None,
    }
}

/// The expression over the operands read, for `and`.
fn make_and(children: Vec<ReqNode>) -> (r: ReqNode)
    requires
        children.len() >= 1,
    ensures
        node_view(r) == and_of(node_views(children@)),
{
    let mut children = children;
    if children.len() == 1 {
        let only = children.remove(0);
        only
    } else {
        ReqNode::And(children)
    }
}

/// The expression over the operands read, for `or`.
fn make_or(children: Vec<ReqNode>) -> (r: ReqNode)
    requires
        children.len() >= 1,
    ensures
        node_view(r) == or_of(node_views(children@)),
{
    let mut children = children;
    if children.len() == 1 {
        let only = children.remove(0);
        only
    } else {
        ReqNode::Or(children)
    }
}

/// Reads an identifier, a negation or a bracketed expression at `pos`.
fn read_unary(tokens: &Vec<Token>, pos: usize) -> (r: Option<(ReqNode, usize)>)
    ensures
        agrees(r, parse_unary(tokens.deep_view(), pos as int), pos as int, tokens.len() as int),
    decreases tokens.len() - pos, 0int,
{
    if pos >= tokens.len() {
        return None;
    }
    assert(tokens.deep_view()[pos as int] == tokens[pos as int].deep_view());
    match &tokens[pos] {
        Token::Id(s) => Some((ReqNode::Identifier(s.copy()), pos + 1)),
        Token::Not => match read_unary(tokens, pos + 1) {
            Some((n, p)) => Some((ReqNode::Not(Box::new(n)), p)),
            None => None,
        },
        Token::Open => match read_or(tokens, pos + 1) {
            Some((n, p)) => {
                if p < tokens.len() {
                    assert(tokens.deep_view()[p as int] == tokens[p as int].deep_view());
                    match &tokens[p] {
                        Token::Close => Some((n, p + 1)),
                        _ => None,
                    }
                } else {
                    None
                }
            },
            None => None,
        },
        _ => None,
    }
}

/// Reads operands joined by `and` at `pos`.
fn read_and(tokens: &Vec<Token>, pos: usize) -> (r: Option<(ReqNode, usize)>)
    ensures
        agrees(r, parse_and(tokens.deep_view(), pos as int), pos as int, tokens.len() as int),
    decreases tokens.len() - pos, 2int,
{
    let ghost t = tokens.deep_view();
    let (first, start) = match read_unary(tokens, pos) {
        Some(found) => found,
        None => {
            return None;
        },
    };
    let ghost all = and_rest(t, start as int, seq![node_view(first)]);
    let mut children: Vec<ReqNode> = Vec::new();
    children.push(first);
    assert(node_views(children@) =~= seq![node_view(first)]);
    let mut p: usize = start;
    loop
        invariant
            t == tokens.deep_view(),
            pos < p <= tokens.len(),
            children.len() >= 1,
            all == and_rest(t, p as int, node_views(children@)),
            parse_and(t, pos as int) == match all {
                Some((nodes, q)) => Some((and_of(nodes), q)),
                None => None,
            },
        ensures
            all matches Some((nodes, q)) && nodes == node_views(children@) && q == p,
        decreases tokens.len() - p,
    {
        if p >= tokens.len() {
            break ;
        }
        assert(t[p as int] == tokens[p as int].deep_view());
        match &tokens[p] {
            Token::And => {},
            _ => {
                break ;
            },
        }
        let ghost before = node_views(children@);
        match read_unary(tokens, p + 1) {
            Some((n, q)) => {
                children.push(n);
                assert(node_views(children@) =~= before.push(node_view(n)));
                p = q;
            },
            None => {
                return None;
            },
        }
    }
    Some((make_and(children), p))
}

/// Reads operands joined by `or` at `pos`.
fn read_or(tokens: &Vec<Token>, pos: usize) -> (r: Option<(ReqNode, usize)>)
    ensures
        agrees(r, parse_or(tokens.deep_view(), pos as int), pos as int, tokens.len() as int),
    decreases tokens.len() - pos, 4int,
{
    let ghost t = tokens.deep_view();
    let (first, start) = match read_and(tokens, pos) {
        Some(found) => found,
        None => {
            return None;
        },
    };
    let ghost all = or_rest(t, start as int, seq![node_view(first)]);
    let mut children: Vec<ReqNode> = Vec::new();
    children.push(first);
    assert(node_views(children@) =~= seq![node_view(first)]);
    let mut p: usize = start;
    loop
        invariant
            t == tokens.deep_view(),
            pos < p <= tokens.len(),
            children.len() >= 1,
            all == or_rest(t, p as int, node_views(children@)),
            parse_or(t, pos as int) == match all {
                Some((nodes, q)) => Some((or_of(nodes), q)),
                None => None,
            },
        ensures
            all matches Some((nodes, q)) && nodes == node_views(children@) && q == p,
        decreases tokens.len() - p,
    {
        if p >= tokens.len() {
            break ;
        }
        assert(t[p as int] == tokens[p as int].deep_view());
        match &tokens[p] {
            Token::Or => {},
            _ => {
                break ;
            },
        }
        let ghost before = node_views(children@);
        match read_and(tokens, p + 1) {
            Some((n, q)) => {
                children.push(n);
                assert(node_views(children@) =~= before.push(node_view(n)));
                p = q;
            },
            None => {
                return None;
            },
        }
    }
    Some((make_or(children), p))
}

/// Reads the expression that the tokens spell; `None` where they spell
/// none or something is left over.
pub fn parse_tokens(tokens: &Vec<Token>) -> (r: Option<ReqNode>)
    ensures
        r.deep_view() == parse(tokens.deep_view()),
{
    match read_or(tokens, 0) {
        Some((n, p)) => if p == tokens.len() {
            Some(n)
        } else {
            None
        },
        None => None,
    }
}

/// Collects the identifiers among the tokens, each once, in order of first
/// occurrence.
pub fn identifiers(tokens: &Vec<Token>) -> (r: Vec<String>)
    ensures
        r.deep_view() == union(Seq::empty(), token_ids(tokens.deep_view())),
{
    let mut all: Vec<String> = Vec::new();
    let mut i: usize = 0;
    assert(all.deep_view() =~= Seq::empty());
    assert(tokens.deep_view().take(0) =~= Seq::empty());
    while i < tokens.len()
        invariant
            i <= tokens.len(),
            all.deep_view() == token_ids(tokens.deep_view().take(i as int)),
        decreases tokens.len() - i,
    {
        let ghost before = all.deep_view();
        proof {
            let upto = tokens.deep_view().take(i as int + 1);
            assert(upto.drop_last() =~= tokens.deep_view().take(i as int));
            assert(upto.last() == tokens[i as int].deep_view());
        }
        match &tokens[i] {
            Token::Id(s) => {
                all.push(s.copy());
                assert(all.deep_view() =~= before.push(s@));
            },
            _ => {},
        }
        i += 1;
    }
    assert(tokens.deep_view().take(tokens.len() as int) =~= tokens.deep_view());
    let empty: Vec<String> = Vec::new();
    assert(empty.deep_view() =~= Seq::empty());
    combine(empty, all)
}

/// Reads a statement of prerequisites or corequisites.
///
/// A statement within the grammar yields its identifiers and its logical
/// expression. Any other statement yields no identifier and itself as a
/// single leaf: reading never fails, and the statement as written is always
/// kept.
pub fn extract_requirements(text: &str) -> (r: Requirement)
    ensures
        r.deep_view() == requirement_of(text@),
{
    let cs = to_chars(text);
    let start = find_heading_end(&cs);
    let read = match tokenize(text, start) {
        Some(tokens) => match parse_tokens(&tokens) {
            Some(tree) => Some((identifiers(&tokens), tree)),
            None => None,
        },
        None => None,
    };
    match read {
        Some((ids, tree)) => Requirement { ids, tree, raw_text: text.to_owned() },
        None => {
            let ids: Vec<String> = Vec::new();
            assert(ids.deep_view() =~= Seq::empty());
            Requirement { ids, tree: ReqNode::Identifier(text.to_owned()), raw_text: text.to_owned() }
        },
    }
}

/// The requirements that the statements of a course page amount to: each
/// statement is kept as written and read into identifiers and expression; a
/// statement that the page lacks leaves its fields empty.
pub open spec fn requirements_of(
    prerequisites: Option<Seq<char>>,
    corequisites: Option<Seq<char>>,
    restrictions: Option<Seq<char>>,
) -> RequirementsView {
    RequirementsView {
        prerequisites_text: prerequisites,
        corequisites_text: corequisites,
        prerequisites: match prerequisites {
            Some(text) => requirement_of(text).ids,
            None => Seq::empty(),
        },
        corequisites: match corequisites {
            Some(text) => requirement_of(text).ids,
            None => Seq::empty(),
        },
        restrictions,
        logical_prerequisites: match prerequisites {
            Some(text) => Some(requirement_of(text).tree),
            None => None,
        },
        logical_corequisites: match corequisites {
            Some(text) => Some(requirement_of(text).tree),
            None => None,
        },
    }
}

/// Reads one optional statement into text, identifiers and expression.
fn read_statement(statement: Option<String>) -> (r: (Option<String>, Vec<String>, Option<ReqNode>))
    ensures
        r.0.deep_view() == statement.deep_view(),
        r.1.deep_view() == match statement.deep_view() {
            Some(text) => requirement_of(text).ids,
            None => Seq::empty(),
        },
        r.2.deep_view() == match statement.deep_view() {
            Some(text) => Some(requirement_of(text).tree),
            None => None,
        },
{
    match statement {
        Some(text) => {
            let read = extract_requirements(text.as_str());
            (Some(read.raw_text), read.ids, Some(read.tree))
        },
        None => {
            let ids: Vec<String> = Vec::new();
            assert(ids.deep_view() =~= Seq::empty());
            (None, ids, None)
        },
    }
}

/// Reads the requirements of a course from the statements of its page.
pub fn read_requirements(
    prerequisites: Option<String>,
    corequisites: Option<String>,
    restrictions: Option<String>,
) -> (r: Requirements)
    ensures
        r.deep_view() == requirements_of(
            prerequisites.deep_view(),
            corequisites.deep_view(),
            restrictions.deep_view(),
        ),
{
    let (prerequisites_text, prerequisites, logical_prerequisites) = read_statement(prerequisites);
    let (corequisites_text, corequisites, logical_corequisites) = read_statement(corequisites);
    Requirements {
        prerequisites_text,
        corequisites_text,
        prerequisites,
        corequisites,
        restrictions,
        logical_prerequisites,
        logical_corequisites,
    }
}

} // verus!
