use vstd::prelude::*;
use vstd::string::*;

verus! {

#[derive(Debug, Clone, Copy, PartialEq, Eq, Hash, Structural)]
pub enum BinaryOperator {
    Addition,
    Subtraction,
    Multiply,
    Modulo,
    Divide,
    BitwiseXor,
    BitwiseAnd,
    BitwiseOr,
    BitwiseShiftLeft,
    BitwiseShiftRight,
    LogicalAnd,
    LogicalOr,
    Equals,
    NotEquals,
    LessThanOrEquals,
    GreaterThanOrEquals,
    LessThan,
    GreaterThan,
    Ternary,
    Assign,
}

#[derive(Debug, Clone, Copy, PartialEq, Eq, Hash, Structural)]
pub enum UnaryOperator {
    Increment,
    Decrement,
    LogicalNot,
    BitwiseNot,
    Negate,
    UnaryAdd,
}

/// `+` and `-`, which are binary or unary depending on where they stand.
#[derive(Debug, Clone, Copy, PartialEq, Eq, Hash, Structural)]
pub enum UnaryOrBinaryOp {
    Addition,
    Subtraction,
}

#[derive(Debug, Clone, Copy, PartialEq, Eq, Hash, Structural)]
pub enum Symbol {
    Binary(BinaryOperator),
    Unary(UnaryOperator),
    Ambiguous(UnaryOrBinaryOp),
    OpenParenthesis,
    CloseParenthesis,
    OpenBrace,
    CloseBrace,
    Colon,
    Semicolon,
    Comma,
}

#[derive(Debug, Clone, Copy, PartialEq, Eq, Hash, Structural)]
pub enum StorageClass {
    Static,
    Extern,
}

/// Type specifiers as written (`signed`, `unsigned` among them) and the
/// types they resolve to.
#[derive(Debug, Clone, Copy, PartialEq, Eq, Hash, Structural)]
pub enum Type {
    Int,
    Long,
    UInt,
    ULong,
    Signed,
    Unsigned,
    Void,
}

#[derive(Debug, Clone, Copy, PartialEq, Eq, Hash, Structural)]
pub enum Keyword {
    Return,
    If,
    Else,
    Do,
    While,
    For,
    Continue,
    Break,
    Type(Type),
    StorageClass(StorageClass),
}

pub type Number = u64;

/// The suffix of an integer literal: none, `l`, `u`, or `ul` (in either
/// order and either case).
#[derive(Debug, Clone, Copy, PartialEq, Eq, Hash, Structural)]
pub enum LiteralSuffix {
    Plain,
    Long,
    Unsigned,
    UnsignedLong,
}

/// A token. Names are interned: `Name(i)` stands for entry `i` of the name
/// table that `lex` returns beside the tokens.
#[derive(Debug, Clone, Copy, PartialEq, Eq, Hash, Structural)]
pub enum Token {
    Keyword(Keyword),
    Symbol(Symbol),
    Name(usize),
    NumberLiteral(Number, LiteralSuffix),
    Invalid,
    EOF,
}

// ---------------------------------------------------------------------------
// The model of the lexer.
// ---------------------------------------------------------------------------

pub open spec fn is_digit(c: char) -> bool {
    '0' <= c && c <= '9'
}

pub open spec fn is_alpha(c: char) -> bool {
    ('a' <= c && c <= 'z') || ('A' <= c && c <= 'Z')
}

pub open spec fn is_ident_start(c: char) -> bool {
    is_alpha(c) || c == '_'
}

pub open spec fn is_ident_continue(c: char) -> bool {
    is_alpha(c) || is_digit(c) || c == '_'
}

/// End of the run of digits that starts at `i`.
pub open spec fn digit_run_end(s: Seq<char>, i: int) -> int
    decreases s.len() - i,
{
    if i < 0 || i >= s.len() || !is_digit(s[i]) {
        i
    } else {
        digit_run_end(s, i + 1)
    }
}

/// End of the run of identifier characters that starts at `i`.
pub open spec fn ident_run_end(s: Seq<char>, i: int) -> int
    decreases s.len() - i,
{
    if i < 0 || i >= s.len() || !is_ident_continue(s[i]) {
        i
    } else {
        ident_run_end(s, i + 1)
    }
}

/// Position just past the first newline at or after `i` (or the end).
pub open spec fn comment_end(s: Seq<char>, i: int) -> int
    decreases s.len() - i,
{
    if i < 0 || i >= s.len() {
        if i < 0 { 0 } else { s.len() as int }
    } else if s[i] == '\n' {
        i + 1
    } else {
        comment_end(s, i + 1)
    }
}

pub open spec fn digit_value(c: char) -> nat {
    (c as int - '0' as int) as nat
}

/// The value of a string of decimal digits.
pub open spec fn digits_value(d: Seq<char>) -> nat
    decreases d.len(),
{
    if d.len() == 0 {
        0
    } else {
        digits_value(d.drop_last()) * 10 + digit_value(d.last())
    }
}

pub open spec fn spec_match_keyword(w: Seq<char>) -> Option<Keyword> {
    if w == seq!['r', 'e', 't', 'u', 'r', 'n'] {
        Some(Keyword::Return)
    } else if w == seq!['i', 'n', 't'] {
        Some(Keyword::Type(Type::Int))
    } else if w == seq!['i', 'f'] {
        Some(Keyword::If)
    } else if w == seq!['e', 'l', 's', 'e'] {
        Some(Keyword::Else)
    } else if w == seq!['d', 'o'] {
        Some(Keyword::Do)
    } else if w == seq!['w', 'h', 'i', 'l', 'e'] {
        Some(Keyword::While)
    } else if w == seq!['f', 'o', 'r'] {
        Some(Keyword::For)
    } else if w == seq!['c', 'o', 'n', 't', 'i', 'n', 'u', 'e'] {
        Some(Keyword::Continue)
    } else if w == seq!['b', 'r', 'e', 'a', 'k'] {
        Some(Keyword::Break)
    } else if w == seq!['s', 't', 'a', 't', 'i', 'c'] {
        Some(Keyword::StorageClass(StorageClass::Static))
    } else if w == seq!['e', 'x', 't', 'e', 'r', 'n'] {
        Some(Keyword::StorageClass(StorageClass::Extern))
    } else if w == seq!['l', 'o', 'n', 'g'] {
        Some(Keyword::Type(Type::Long))
    } else if w == seq!['s', 'i', 'g', 'n', 'e', 'd'] {
        Some(Keyword::Type(Type::Signed))
    } else if w == seq!['u', 'n', 's', 'i', 'g', 'n', 'e', 'd'] {
        Some(Keyword::Type(Type::Unsigned))
    } else {
        None
    }
}

/// Whether the character after position `i` is `c`.
pub open spec fn is_long_char(c: char) -> bool {
    c == 'l' || c == 'L'
}

pub open spec fn is_unsigned_char(c: char) -> bool {
    c == 'u' || c == 'U'
}

/// The suffix of a literal whose digits end at `e`, and the position after it.
pub open spec fn spec_literal_suffix(s: Seq<char>, e: int) -> (LiteralSuffix, int) {
    if 0 <= e < s.len() && is_unsigned_char(s[e]) {
        if e + 1 < s.len() && is_long_char(s[e + 1]) {
            (LiteralSuffix::UnsignedLong, e + 2)
        } else {
            (LiteralSuffix::Unsigned, e + 1)
        }
    } else if 0 <= e < s.len() && is_long_char(s[e]) {
        if e + 1 < s.len() && is_unsigned_char(s[e + 1]) {
            (LiteralSuffix::UnsignedLong, e + 2)
        } else {
            (LiteralSuffix::Long, e + 1)
        }
    } else {
        (LiteralSuffix::Plain, e)
    }
}

pub open spec fn next_is(s: Seq<char>, i: int, c: char) -> bool {
    i + 1 < s.len() && s[i + 1] == c
}

pub open spec fn sym(s: Symbol) -> Option<Token> {
    Some(Token::Symbol(s))
}

pub open spec fn bin(op: BinaryOperator) -> Option<Token> {
    Some(Token::Symbol(Symbol::Binary(op)))
}

/// One step of the lexer at a position that does not start a name or keyword:
/// the token produced (none for blanks and comments) and where the next step starts.
pub open spec fn spec_scan_other(s: Seq<char>, i: int) -> (Option<Token>, int) {
    let c = s[i];
    if c == '{' {
        (sym(Symbol::OpenBrace), i + 1)
    } else if c == '}' {
        (sym(Symbol::CloseBrace), i + 1)
    } else if c == '(' {
        (sym(Symbol::OpenParenthesis), i + 1)
    } else if c == ')' {
        (sym(Symbol::CloseParenthesis), i + 1)
    } else if c == ';' {
        (sym(Symbol::Semicolon), i + 1)
    } else if c == ':' {
        (sym(Symbol::Colon), i + 1)
    } else if c == '?' {
        (bin(BinaryOperator::Ternary), i + 1)
    } else if c == '~' {
        (sym(Symbol::Unary(UnaryOperator::BitwiseNot)), i + 1)
    } else if c == '^' {
        (bin(BinaryOperator::BitwiseXor), i + 1)
    } else if c == '-' {
        if next_is(s, i, '-') {
            (sym(Symbol::Unary(UnaryOperator::Decrement)), i + 2)
        } else {
            (sym(Symbol::Ambiguous(UnaryOrBinaryOp::Subtraction)), i + 1)
        }
    } else if c == '+' {
        if next_is(s, i, '+') {
            (sym(Symbol::Unary(UnaryOperator::Increment)), i + 2)
        } else {
            (sym(Symbol::Ambiguous(UnaryOrBinaryOp::Addition)), i + 1)
        }
    } else if c == '*' {
        (bin(BinaryOperator::Multiply), i + 1)
    } else if c == '/' {
        if next_is(s, i, '/') {
            (None, comment_end(s, i + 1))
        } else {
            (bin(BinaryOperator::Divide), i + 1)
        }
    } else if c == '%' {
        (bin(BinaryOperator::Modulo), i + 1)
    } else if c == '=' {
        if next_is(s, i, '=') {
            (bin(BinaryOperator::Equals), i + 2)
        } else {
            (bin(BinaryOperator::Assign), i + 1)
        }
    } else if c == '!' {
        if next_is(s, i, '=') {
            (bin(BinaryOperator::NotEquals), i + 2)
        } else {
            (sym(Symbol::Unary(UnaryOperator::LogicalNot)), i + 1)
        }
    } else if c == '>' {
        if next_is(s, i, '=') {
            (bin(BinaryOperator::GreaterThanOrEquals), i + 2)
        } else if next_is(s, i, '>') {
            (bin(BinaryOperator::BitwiseShiftRight), i + 2)
        } else {
            (bin(BinaryOperator::GreaterThan), i + 1)
        }
    } else if c == '<' {
        if next_is(s, i, '=') {
            (bin(BinaryOperator::LessThanOrEquals), i + 2)
        } else if next_is(s, i, '<') {
            (bin(BinaryOperator::BitwiseShiftLeft), i + 2)
        } else {
            (bin(BinaryOperator::LessThan), i + 1)
        }
    } else if c == '|' {
        if next_is(s, i, '|') {
            (bin(BinaryOperator::LogicalOr), i + 2)
        } else {
            (bin(BinaryOperator::BitwiseOr), i + 1)
        }
    } else if c == '&' {
        if next_is(s, i, '&') {
            (bin(BinaryOperator::LogicalAnd), i + 2)
        } else {
            (bin(BinaryOperator::BitwiseAnd), i + 1)
        }
    } else if c == ',' {
        (sym(Symbol::Comma), i + 1)
    } else if is_digit(c) {
        let e = digit_run_end(s, i + 1);
        let v = digits_value(s.subrange(i, e));
        let (suffix, e2) = spec_literal_suffix(s, e);
        if v <= u64::MAX {
            (Some(Token::NumberLiteral(v as u64, suffix)), e2)
        } else {
            (Some(Token::Invalid), e2)
        }
    } else if c == ' ' || c == '\n' || c == '\t' {
        (None, i + 1)
    } else {
        (Some(Token::Invalid), i + 1)
    }
}

/// First index at or after `k` where the table holds `w`.
pub open spec fn find_name(t: Seq<Seq<char>>, w: Seq<char>, k: int) -> Option<int>
    decreases t.len() - k,
{
    if k < 0 || k >= t.len() {
        None
    } else if t[k] == w {
        Some(k)
    } else {
        find_name(t, w, k + 1)
    }
}

/// The index of `w` in the table, adding it at the end when it is new.
pub open spec fn intern(t: Seq<Seq<char>>, w: Seq<char>) -> (int, Seq<Seq<char>>) {
    match find_name(t, w, 0) {
        Some(k) => (k, t),
        None => (t.len() as int, t.push(w)),
    }
}

/// One step of the lexer at position `i` (which is inside the source), with name table `t`.
pub open spec fn spec_step(s: Seq<char>, i: int, t: Seq<Seq<char>>) -> (
    Option<Token>,
    int,
    Seq<Seq<char>>,
) {
    if is_ident_start(s[i]) {
        let e = ident_run_end(s, i + 1);
        let w = s.subrange(i, e);
        match spec_match_keyword(w) {
            Some(k) => (Some(Token::Keyword(k)), e, t),
            None => {
                let (id, t2) = intern(t, w);
                (Some(Token::Name(id as usize)), e, t2)
            },
        }
    } else {
        let (o, j) = spec_scan_other(s, i);
        (o, j, t)
    }
}

pub open spec fn step_advances(s: Seq<char>, i: int, t: Seq<Seq<char>>) -> bool {
    i < spec_step(s, i, t).1 <= s.len()
}

/// The tokens of `s` from position `i` on, with name table `t` so far:
/// the tokens (ending in `EOF`) and the final name table.
pub open spec fn spec_lex_from(s: Seq<char>, i: int, t: Seq<Seq<char>>) -> (
    Seq<Token>,
    Seq<Seq<char>>,
)
    decreases s.len() - i,
{
    if i < 0 || i >= s.len() {
        (seq![Token::EOF], t)
    } else {
        let (o, j, t2) = spec_step(s, i, t);
        if j <= i || j > s.len() {
            (seq![Token::EOF], t)
        } else {
            let (rest, t3) = spec_lex_from(s, j, t2);
            match o {
                Some(tok) => (seq![tok] + rest, t3),
                None => (rest, t3),
            }
        }
    }
}

/// The tokens of a source text and its table of names, in order of first appearance.
pub open spec fn spec_lex(s: Seq<char>) -> (Seq<Token>, Seq<Seq<char>>) {
    spec_lex_from(s, 0, Seq::empty())
}

pub open spec fn names_view(v: Seq<String>) -> Seq<Seq<char>> {
    v.map_values(|x: String| x@)
}

// ---------------------------------------------------------------------------
// Lemmas on the model.
// ---------------------------------------------------------------------------

pub proof fn lemma_digit_run_end(s: Seq<char>, i: int)
    requires
        0 <= i <= s.len(),
    ensures
        i <= digit_run_end(s, i) <= s.len(),
        forall|k: int| i <= k < digit_run_end(s, i) ==> is_digit(#[trigger] s[k]),
        digit_run_end(s, i) < s.len() ==> !is_digit(s[digit_run_end(s, i)]),
    decreases s.len() - i,
{
    if i < s.len() && is_digit(s[i]) {
        lemma_digit_run_end(s, i + 1);
    }
}

proof fn lemma_ident_run_end(s: Seq<char>, i: int)
    requires
        0 <= i <= s.len(),
    ensures
        i <= ident_run_end(s, i) <= s.len(),
        forall|k: int| i <= k < ident_run_end(s, i) ==> is_ident_continue(#[trigger] s[k]),
        ident_run_end(s, i) < s.len() ==> !is_ident_continue(s[ident_run_end(s, i)]),
    decreases s.len() - i,
{
    if i < s.len() && is_ident_continue(s[i]) {
        lemma_ident_run_end(s, i + 1);
    }
}

proof fn lemma_comment_end(s: Seq<char>, i: int)
    requires
        0 <= i <= s.len(),
    ensures
        i <= comment_end(s, i) <= s.len(),
    decreases s.len() - i,
{
    if i < s.len() && s[i] != '\n' {
        lemma_comment_end(s, i + 1);
    }
}

proof fn lemma_step_advances(s: Seq<char>, i: int, t: Seq<Seq<char>>)
    requires
        0 <= i < s.len(),
    ensures
        step_advances(s, i, t),
{
    lemma_digit_run_end(s, i + 1);
    lemma_ident_run_end(s, i + 1);
    lemma_comment_end(s, i + 1);
}

proof fn lemma_digits_value_grows(d: Seq<char>, c: char)
    requires
        is_digit(c),
    ensures
        digits_value(d.push(c)) == digits_value(d) * 10 + digit_value(c),
{
    assert(d.push(c).drop_last() =~= d);
}

// ---------------------------------------------------------------------------
// Laws of the lexer.
// ---------------------------------------------------------------------------

/// No name occurs twice in the table.
pub open spec fn distinct_names(t: Seq<Seq<char>>) -> bool {
    forall|a: int, b: int| 0 <= a < b < t.len() ==> t[a] != t[b]
}

/// Every `Name` token stands for an entry of the table.
pub open spec fn names_in_table(toks: Seq<Token>, t: Seq<Seq<char>>) -> bool {
    forall|k: int| 0 <= k < toks.len() ==> (#[trigger] toks[k] matches Token::Name(id) ==> id < t.len())
}

proof fn lemma_find_name(t: Seq<Seq<char>>, w: Seq<char>, k: int)
    requires
        0 <= k,
    ensures
        find_name(t, w, k) matches Some(j) ==> k <= j < t.len() && t[j] == w,
        find_name(t, w, k) is None ==> forall|j: int| k <= j < t.len() ==> t[j] != w,
    decreases t.len() - k,
{
    if k < t.len() && t[k] != w {
        lemma_find_name(t, w, k + 1);
    }
}

proof fn lemma_intern(t: Seq<Seq<char>>, w: Seq<char>)
    requires
        distinct_names(t),
    ensures
        distinct_names(intern(t, w).1),
        0 <= intern(t, w).0 < intern(t, w).1.len(),
        intern(t, w).1[intern(t, w).0] == w,
        t.len() <= intern(t, w).1.len(),
        forall|k: int| 0 <= k < t.len() ==> #[trigger] intern(t, w).1[k] == t[k],
{
    lemma_find_name(t, w, 0);
}

/// The lexer from position `i` with table `t`: the tokens end in `EOF`, the
/// table only grows, keeps its names distinct, and every name token stands
/// for an entry of it.
pub proof fn lemma_lex_from(s: Seq<char>, i: int, t: Seq<Seq<char>>)
    requires
        distinct_names(t),
    ensures
        spec_lex_from(s, i, t).0.len() >= 1,
        spec_lex_from(s, i, t).0.last() == Token::EOF,
        distinct_names(spec_lex_from(s, i, t).1),
        names_in_table(spec_lex_from(s, i, t).0, spec_lex_from(s, i, t).1),
        t.len() <= spec_lex_from(s, i, t).1.len(),
        forall|k: int| 0 <= k < t.len() ==> #[trigger] spec_lex_from(s, i, t).1[k] == t[k],
    decreases s.len() - i,
{
    if 0 <= i < s.len() {
        let (o, j, t2) = spec_step(s, i, t);
        if is_ident_start(s[i]) {
            let e = ident_run_end(s, i + 1);
            let w = s.subrange(i, e);
            if spec_match_keyword(w) is None {
                lemma_intern(t, w);
            }
        }
        if i < j <= s.len() {
            lemma_lex_from(s, j, t2);
            let (rest, t3) = spec_lex_from(s, j, t2);
            match o {
                Some(tok) => {
                    let toks = seq![tok] + rest;
                    assert(toks.last() == rest.last());
                    assert forall|k: int| 0 <= k < toks.len() implies (#[trigger] toks[k] matches Token::Name(
                        id,
                    ) ==> id < t3.len()) by {
                        if k > 0 {
                            assert(toks[k] == rest[k - 1]);
                        }
                    }
                },
                None => {},
            }
        }
    }
}

/// The tokens of any text end in `EOF`; the table of names holds each name
/// once, and every name token stands for one of its entries.
pub proof fn lemma_lex(s: Seq<char>)
    ensures
        spec_lex(s).0.len() >= 1,
        spec_lex(s).0.last() == Token::EOF,
        distinct_names(spec_lex(s).1),
        names_in_table(spec_lex(s).0, spec_lex(s).1),
{
    lemma_lex_from(s, 0, Seq::empty());
}

// ---------------------------------------------------------------------------
// Executable lexer.
// ---------------------------------------------------------------------------

fn char_is_digit(c: char) -> (b: bool)
    ensures
        b == is_digit(c),
{
    '0' <= c && c <= '9'
}

fn char_is_ident_start(c: char) -> (b: bool)
    ensures
        b == is_ident_start(c),
{
    ('a' <= c && c <= 'z') || ('A' <= c && c <= 'Z') || c == '_'
}

fn char_is_ident_continue(c: char) -> (b: bool)
    ensures
        b == is_ident_continue(c),
{
    ('a' <= c && c <= 'z') || ('A' <= c && c <= 'Z') || ('0' <= c && c <= '9') || c == '_'
}

/// Whether `w[from..to]` spells `k`.
fn word_equals(w: &Vec<char>, from: usize, to: usize, k: &[char]) -> (b: bool)
    requires
        from <= to <= w.len(),
    ensures
        b == (w@.subrange(from as int, to as int) == k@),
{
    if to - from != k.len() {
        return false;
    }
    let mut j: usize = 0;
    while j < k.len()
        invariant
            to - from == k.len(),
            from <= to <= w.len(),
            0 <= j <= k.len(),
            forall|m: int| 0 <= m < j ==> w@[from + m] == k@[m],
        decreases k.len() - j,
    {
        if w[from + j] != k[j] {
            assert(w@.subrange(from as int, to as int)[j as int] != k@[j as int]);
            return false;
        }
        j += 1;
    }
    assert(w@.subrange(from as int, to as int) =~= k@);
    true
}

/// The keyword that `w[from..to]` spells, if any.
fn match_keyword(w: &Vec<char>, from: usize, to: usize) -> (k: Option<Keyword>)
    requires
        from <= to <= w.len(),
    ensures
        k == spec_match_keyword(w@.subrange(from as int, to as int)),
{
    let ghost sw = w@.subrange(from as int, to as int);
    if word_equals(w, from, to, &['r', 'e', 't', 'u', 'r', 'n']) {
        assert(['r', 'e', 't', 'u', 'r', 'n']@ =~= seq!['r', 'e', 't', 'u', 'r', 'n']);
        return Some(Keyword::Return);
    }
    assert(['r', 'e', 't', 'u', 'r', 'n']@ =~= seq!['r', 'e', 't', 'u', 'r', 'n']);
    if word_equals(w, from, to, &['i', 'n', 't']) {
        assert(['i', 'n', 't']@ =~= seq!['i', 'n', 't']);
        return Some(Keyword::Type(Type::Int));
    }
    assert(['i', 'n', 't']@ =~= seq!['i', 'n', 't']);
    if word_equals(w, from, to, &['i', 'f']) {
        assert(['i', 'f']@ =~= seq!['i', 'f']);
        return Some(Keyword::If);
    }
    assert(['i', 'f']@ =~= seq!['i', 'f']);
    if word_equals(w, from, to, &['e', 'l', 's', 'e']) {
        assert(['e', 'l', 's', 'e']@ =~= seq!['e', 'l', 's', 'e']);
        return Some(Keyword::Else);
    }
    assert(['e', 'l', 's', 'e']@ =~= seq!['e', 'l', 's', 'e']);
    if word_equals(w, from, to, &['d', 'o']) {
        assert(['d', 'o']@ =~= seq!['d', 'o']);
        return Some(Keyword::Do);
    }
    assert(['d', 'o']@ =~= seq!['d', 'o']);
    if word_equals(w, from, to, &['w', 'h', 'i', 'l', 'e']) {
        assert(['w', 'h', 'i', 'l', 'e']@ =~= seq!['w', 'h', 'i', 'l', 'e']);
        return Some(Keyword::While);
    }
    assert(['w', 'h', 'i', 'l', 'e']@ =~= seq!['w', 'h', 'i', 'l', 'e']);
    if word_equals(w, from, to, &['f', 'o', 'r']) {
        assert(['f', 'o', 'r']@ =~= seq!['f', 'o', 'r']);
        return Some(Keyword::For);
    }
    assert(['f', 'o', 'r']@ =~= seq!['f', 'o', 'r']);
    if word_equals(w, from, to, &['c', 'o', 'n', 't', 'i', 'n', 'u', 'e']) {
        assert(['c', 'o', 'n', 't', 'i', 'n', 'u', 'e']@ =~= seq!['c', 'o', 'n', 't', 'i', 'n', 'u', 'e']);
        return Some(Keyword::Continue);
    }
    assert(['c', 'o', 'n', 't', 'i', 'n', 'u', 'e']@ =~= seq!['c', 'o', 'n', 't', 'i', 'n', 'u', 'e']);
    if word_equals(w, from, to, &['b', 'r', 'e', 'a', 'k']) {
        assert(['b', 'r', 'e', 'a', 'k']@ =~= seq!['b', 'r', 'e', 'a', 'k']);
        return Some(Keyword::Break);
    }
    assert(['b', 'r', 'e', 'a', 'k']@ =~= seq!['b', 'r', 'e', 'a', 'k']);
    if word_equals(w, from, to, &['s', 't', 'a', 't', 'i', 'c']) {
        assert(['s', 't', 'a', 't', 'i', 'c']@ =~= seq!['s', 't', 'a', 't', 'i', 'c']);
        return Some(Keyword::StorageClass(StorageClass::Static));
    }
    assert(['s', 't', 'a', 't', 'i', 'c']@ =~= seq!['s', 't', 'a', 't', 'i', 'c']);
    if word_equals(w, from, to, &['e', 'x', 't', 'e', 'r', 'n']) {
        assert(['e', 'x', 't', 'e', 'r', 'n']@ =~= seq!['e', 'x', 't', 'e', 'r', 'n']);
        return Some(Keyword::StorageClass(StorageClass::Extern));
    }
    assert(['e', 'x', 't', 'e', 'r', 'n']@ =~= seq!['e', 'x', 't', 'e', 'r', 'n']);
    if word_equals(w, from, to, &['l', 'o', 'n', 'g']) {
        assert(['l', 'o', 'n', 'g']@ =~= seq!['l', 'o', 'n', 'g']);
        return Some(Keyword::Type(Type::Long));
    }
    assert(['l', 'o', 'n', 'g']@ =~= seq!['l', 'o', 'n', 'g']);
    if word_equals(w, from, to, &['s', 'i', 'g', 'n', 'e', 'd']) {
        assert(['s', 'i', 'g', 'n', 'e', 'd']@ =~= seq!['s', 'i', 'g', 'n', 'e', 'd']);
        return Some(Keyword::Type(Type::Signed));
    }
    assert(['s', 'i', 'g', 'n', 'e', 'd']@ =~= seq!['s', 'i', 'g', 'n', 'e', 'd']);
    if word_equals(w, from, to, &['u', 'n', 's', 'i', 'g', 'n', 'e', 'd']) {
        assert(['u', 'n', 's', 'i', 'g', 'n', 'e', 'd']@ =~= seq!['u', 'n', 's', 'i', 'g', 'n', 'e', 'd']);
        return Some(Keyword::Type(Type::Unsigned));
    }
    assert(['u', 'n', 's', 'i', 'g', 'n', 'e', 'd']@ =~= seq!['u', 'n', 's', 'i', 'g', 'n', 'e', 'd']);
    None
}

fn digit_of(c: char) -> (d: u64)
    requires
        is_digit(c),
    ensures
        d == digit_value(c),
        d <= 9,
{
    (c as u32 - '0' as u32) as u64
}

fn is_long_letter(c: char) -> (b: bool)
    ensures
        b == is_long_char(c),
{
    c == 'l' || c == 'L'
}

fn is_unsigned_letter(c: char) -> (b: bool)
    ensures
        b == is_unsigned_char(c),
{
    c == 'u' || c == 'U'
}

/// Reads the suffix of a literal whose digits end at `e`.
fn literal_suffix(chars: &Vec<char>, e: usize) -> (r: (LiteralSuffix, usize))
    requires
        e <= chars.len(),
    ensures
        (r.0, r.1 as int) == spec_literal_suffix(chars@, e as int),
{
    let n = chars.len();
    if e < n && is_unsigned_letter(chars[e]) {
        if e + 1 < n && is_long_letter(chars[e + 1]) {
            (LiteralSuffix::UnsignedLong, e + 2)
        } else {
            (LiteralSuffix::Unsigned, e + 1)
        }
    } else if e < n && is_long_letter(chars[e]) {
        if e + 1 < n && is_unsigned_letter(chars[e + 1]) {
            (LiteralSuffix::UnsignedLong, e + 2)
        } else {
            (LiteralSuffix::Long, e + 1)
        }
    } else {
        (LiteralSuffix::Plain, e)
    }
}

/// Lexes the number literal that starts at `i`.
fn lex_number(chars: &Vec<char>, i: usize) -> (r: (Token, usize))
    requires
        i < chars.len(),
        is_digit(chars@[i as int]),
    ensures
        ({
            let e = digit_run_end(chars@, i + 1);
            let v = digits_value(chars@.subrange(i as int, e));
            let (suffix, e2) = spec_literal_suffix(chars@, e);
            &&& r.1 as int == e2
            &&& r.0 == (if v <= u64::MAX {
                Token::NumberLiteral(v as u64, suffix)
            } else {
                Token::Invalid
            })
        }),
{
    let ghost s = chars@;
    let mut value: u64 = digit_of(chars[i]);
    let mut overflow = false;
    let mut j = i + 1;
    proof {
        let d = s.subrange(i as int, j as int);
        assert(d.drop_last() =~= Seq::<char>::empty());
        assert(d.last() == s[i as int]);
        assert(digits_value(d.drop_last()) == 0);
        assert(digits_value(d) == digit_value(s[i as int]));
    }
    while j < chars.len() && char_is_digit(chars[j])
        invariant
            s == chars@,
            i < j <= chars.len(),
            digit_run_end(s, i + 1) == digit_run_end(s, j as int),
            !overflow ==> value == digits_value(s.subrange(i as int, j as int)),
            overflow ==> digits_value(s.subrange(i as int, j as int)) > u64::MAX,
        decreases chars.len() - j,
    {
        let d = digit_of(chars[j]);
        proof {
            assert(s.subrange(i as int, j + 1) =~= s.subrange(i as int, j as int).push(s[j as int]));
            lemma_digits_value_grows(s.subrange(i as int, j as int), s[j as int]);
        }
        if !overflow {
            match value.checked_mul(10) {
                Some(m) => match m.checked_add(d) {
                    Some(v2) => {
                        value = v2;
                    },
                    None => {
                        overflow = true;
                    },
                },
                None => {
                    overflow = true;
                },
            }
        }
        j += 1;
    }
    let (suffix, end) = literal_suffix(chars, j);
    if overflow {
        (Token::Invalid, end)
    } else {
        (Token::NumberLiteral(value, suffix), end)
    }
}

/// Lexes everything but names and keywords at position `i`.
fn scan_other(chars: &Vec<char>, i: usize) -> (r: (Option<Token>, usize))
    requires
        i < chars.len(),
        !is_ident_start(chars@[i as int]),
    ensures
        r.0 == spec_scan_other(chars@, i as int).0,
        r.1 as int == spec_scan_other(chars@, i as int).1,
{
    let c = chars[i];
    let n = chars.len();
    let next: char = if i + 1 < n { chars[i + 1] } else { ' ' };
    let has_next = i + 1 < n;
    if c == '{' {
        (Some(Token::Symbol(Symbol::OpenBrace)), i + 1)
    } else if c == '}' {
        (Some(Token::Symbol(Symbol::CloseBrace)), i + 1)
    } else if c == '(' {
        (Some(Token::Symbol(Symbol::OpenParenthesis)), i + 1)
    } else if c == ')' {
        (Some(Token::Symbol(Symbol::CloseParenthesis)), i + 1)
    } else if c == ';' {
        (Some(Token::Symbol(Symbol::Semicolon)), i + 1)
    } else if c == ':' {
        (Some(Token::Symbol(Symbol::Colon)), i + 1)
    } else if c == '?' {
        (Some(Token::Symbol(Symbol::Binary(BinaryOperator::Ternary))), i + 1)
    } else if c == '~' {
        (Some(Token::Symbol(Symbol::Unary(UnaryOperator::BitwiseNot))), i + 1)
    } else if c == '^' {
        (Some(Token::Symbol(Symbol::Binary(BinaryOperator::BitwiseXor))), i + 1)
    } else if c == '-' {
        if has_next && next == '-' {
            (Some(Token::Symbol(Symbol::Unary(UnaryOperator::Decrement))), i + 2)
        } else {
            (Some(Token::Symbol(Symbol::Ambiguous(UnaryOrBinaryOp::Subtraction))), i + 1)
        }
    } else if c == '+' {
        if has_next && next == '+' {
            (Some(Token::Symbol(Symbol::Unary(UnaryOperator::Increment))), i + 2)
        } else {
            (Some(Token::Symbol(Symbol::Ambiguous(UnaryOrBinaryOp::Addition))), i + 1)
        }
    } else if c == '*' {
        (Some(Token::Symbol(Symbol::Binary(BinaryOperator::Multiply))), i + 1)
    } else if c == '/' {
        if has_next && next == '/' {
            let mut j = i + 1;
            while j < n && chars[j] != '\n'
                invariant
                    n == chars.len(),
                    i + 1 <= j <= n,
                    comment_end(chars@, i + 1) == comment_end(chars@, j as int),
                decreases n - j,
            {
                j += 1;
            }
            if j < n {
                j += 1;
            }
            (None, j)
        } else {
            (Some(Token::Symbol(Symbol::Binary(BinaryOperator::Divide))), i + 1)
        }
    } else if c == '%' {
        (Some(Token::Symbol(Symbol::Binary(BinaryOperator::Modulo))), i + 1)
    } else if c == '=' {
        if has_next && next == '=' {
            (Some(Token::Symbol(Symbol::Binary(BinaryOperator::Equals))), i + 2)
        } else {
            (Some(Token::Symbol(Symbol::Binary(BinaryOperator::Assign))), i + 1)
        }
    } else if c == '!' {
        if has_next && next == '=' {
            (Some(Token::Symbol(Symbol::Binary(BinaryOperator::NotEquals))), i + 2)
        } else {
            (Some(Token::Symbol(Symbol::Unary(UnaryOperator::LogicalNot))), i + 1)
        }
    } else if c == '>' {
        if has_next && next == '=' {
            (Some(Token::Symbol(Symbol::Binary(BinaryOperator::GreaterThanOrEquals))), i + 2)
        } else if has_next && next == '>' {
            (Some(Token::Symbol(Symbol::Binary(BinaryOperator::BitwiseShiftRight))), i + 2)
        } else {
            (Some(Token::Symbol(Symbol::Binary(BinaryOperator::GreaterThan))), i + 1)
        }
    } else if c == '<' {
        if has_next && next == '=' {
            (Some(Token::Symbol(Symbol::Binary(BinaryOperator::LessThanOrEquals))), i + 2)
        } else if has_next && next == '<' {
            (Some(Token::Symbol(Symbol::Binary(BinaryOperator::BitwiseShiftLeft))), i + 2)
        } else {
            (Some(Token::Symbol(Symbol::Binary(BinaryOperator::LessThan))), i + 1)
        }
    } else if c == '|' {
        if has_next && next == '|' {
            (Some(Token::Symbol(Symbol::Binary(BinaryOperator::LogicalOr))), i + 2)
        } else {
            (Some(Token::Symbol(Symbol::Binary(BinaryOperator::BitwiseOr))), i + 1)
        }
    } else if c == '&' {
        if has_next && next == '&' {
            (Some(Token::Symbol(Symbol::Binary(BinaryOperator::LogicalAnd))), i + 2)
        } else {
            (Some(Token::Symbol(Symbol::Binary(BinaryOperator::BitwiseAnd))), i + 1)
        }
    } else if c == ',' {
        (Some(Token::Symbol(Symbol::Comma)), i + 1)
    } else if char_is_digit(c) {
        let (t, e) = lex_number(chars, i);
        (Some(t), e)
    } else if c == ' ' || c == '\n' || c == '\t' {
        (None, i + 1)
    } else {
        (Some(Token::Invalid), i + 1)
    }
}

/// The index of `w` in `names`, adding it when it is new.
fn intern_name(names: &mut Vec<String>, w: String) -> (id: usize)
    ensures
        intern(names_view(old(names)@), w@) == (id as int, names_view(final(names)@)),
{
    let ghost t = names_view(names@);
    let mut k: usize = 0;
    while k < names.len()
        invariant
            t == names_view(names@),
            0 <= k <= names.len(),
            find_name(t, w@, 0) == find_name(t, w@, k as int),
        decreases names.len() - k,
    {
        if names[k] == w {
            return k;
        }
        k += 1;
    }
    names.push(w);
    proof {
        assert(names_view(names@) =~= t.push(w@));
    }
    k
}

/// Lexes the name or keyword that starts at `i`.
fn lex_word(source: &str, chars: &Vec<char>, i: usize, names: &mut Vec<String>) -> (r: (
    Token,
    usize,
))
    requires
        source@ == chars@,
        i < chars.len(),
        is_ident_start(chars@[i as int]),
    ensures
        spec_step(chars@, i as int, names_view(old(names)@)) == (
            Some(r.0),
            r.1 as int,
            names_view(final(names)@),
        ),
{
    let ghost s = chars@;
    let n = chars.len();
    let mut e = i + 1;
    proof {
        lemma_ident_run_end(s, i + 1);
    }
    while e < n && char_is_ident_continue(chars[e])
        invariant
            n == chars.len(),
            s == chars@,
            i < e <= n,
            ident_run_end(s, i + 1) == ident_run_end(s, e as int),
        decreases n - e,
    {
        e += 1;
    }
    match match_keyword(chars, i, e) {
        Some(k) => (Token::Keyword(k), e),
        None => {
            let word = String::from_str(source.substring_char(i, e));
            let id = intern_name(names, word);
            (Token::Name(id), e)
        },
    }
}

/// The characters of a string, in order.
fn chars_of(source: &str) -> (v: Vec<char>)
    ensures
        v@ == source@,
{
    let n = source.unicode_len();
    let mut v: Vec<char> = Vec::new();
    let mut k: usize = 0;
    while k < n
        invariant
            n == source@.len(),
            0 <= k <= n,
            v@ == source@.subrange(0, k as int),
        decreases n - k,
    {
        v.push(source.get_char(k));
        k += 1;
        assert(v@ =~= source@.subrange(0, k as int));
    }
    assert(v@ =~= source@);
    v
}

/// Splits a source text into tokens, ending with `EOF`. Names are interned:
/// the second component is the table of names in order of first appearance,
/// and `Token::Name(i)` stands for its entry `i`.
pub fn lex(source: String) -> (out: (Vec<Token>, Vec<String>))
    ensures
        out.0@ == spec_lex(source@).0,
        names_view(out.1@) == spec_lex(source@).1,
{
    let chars = chars_of(source.as_str());
    let ghost s = chars@;
    let mut tokens: Vec<Token> = Vec::new();
    let mut names: Vec<String> = Vec::new();
    let mut i: usize = 0;
    proof {
        assert(names_view(names@) =~= Seq::<Seq<char>>::empty());
    }
    while i < chars.len()
        invariant
            s == chars@,
            s == source@,
            0 <= i <= chars.len(),
            spec_lex(s) == (
                tokens@ + spec_lex_from(s, i as int, names_view(names@)).0,
                spec_lex_from(s, i as int, names_view(names@)).1,
            ),
        decreases chars.len() - i,
    {
        let ghost t0 = names_view(names@);
        let ghost old_tokens = tokens@;
        proof {
            lemma_step_advances(s, i as int, t0);
        }
        let (o, j) = if char_is_ident_start(chars[i]) {
            let (t, e) = lex_word(source.as_str(), &chars, i, &mut names);
            (Some(t), e)
        } else {
            scan_other(&chars, i)
        };
        match o {
            Some(t) => {
                tokens.push(t);
            },
            None => {},
        }
        proof {
            assert(spec_step(s, i as int, t0) == (o, j as int, names_view(names@)));
            let (rest, t3) = spec_lex_from(s, j as int, names_view(names@));
            match o {
                Some(tok) => {
                    assert(tokens@ =~= old_tokens + seq![tok]);
                    assert(old_tokens + (seq![tok] + rest) =~= tokens@ + rest);
                },
                None => {},
            }
        }
        i = j;
    }
    tokens.push(Token::EOF);
    (tokens, names)
}


// ---------------------------------------------------------------------------
// Each operator spelling lexes to its own operator.
// ---------------------------------------------------------------------------

/// How a binary operator is written in C.
pub open spec fn spelling(op: BinaryOperator) -> Seq<char> {
    match op {
        BinaryOperator::Addition => seq!['+'],
        BinaryOperator::Subtraction => seq!['-'],
        BinaryOperator::Multiply => seq!['*'],
        BinaryOperator::Modulo => seq!['%'],
        BinaryOperator::Divide => seq!['/'],
        BinaryOperator::BitwiseXor => seq!['^'],
        BinaryOperator::BitwiseAnd => seq!['&'],
        BinaryOperator::BitwiseOr => seq!['|'],
        BinaryOperator::BitwiseShiftLeft => seq!['<', '<'],
        BinaryOperator::BitwiseShiftRight => seq!['>', '>'],
        BinaryOperator::LogicalAnd => seq!['&', '&'],
        BinaryOperator::LogicalOr => seq!['|', '|'],
        BinaryOperator::Equals => seq!['=', '='],
        BinaryOperator::NotEquals => seq!['!', '='],
        BinaryOperator::LessThanOrEquals => seq!['<', '='],
        BinaryOperator::GreaterThanOrEquals => seq!['>', '='],
        BinaryOperator::LessThan => seq!['<'],
        BinaryOperator::GreaterThan => seq!['>'],
        BinaryOperator::Ternary => seq!['?'],
        BinaryOperator::Assign => seq!['='],
    }
}

/// The source holds `w` at position `i`.
pub open spec fn spelled_at(s: Seq<char>, i: int, w: Seq<char>) -> bool {
    &&& 0 <= i
    &&& i + w.len() <= s.len()
    &&& forall|k: int| 0 <= k < w.len() ==> s[i + k] == #[trigger] w[k]
}

/// A character that could lengthen an operator or start a comment.
pub open spec fn continues_operator(c: char) -> bool {
    c == '=' || c == '<' || c == '>' || c == '&' || c == '|' || c == '+' || c == '-' || c == '/'
}

/// The token of a binary operator: `+` and `-` stay ambiguous between their
/// unary and binary meanings until the parser decides.
pub open spec fn operator_token(op: BinaryOperator) -> Token {
    if op == BinaryOperator::Addition {
        Token::Symbol(Symbol::Ambiguous(UnaryOrBinaryOp::Addition))
    } else if op == BinaryOperator::Subtraction {
        Token::Symbol(Symbol::Ambiguous(UnaryOrBinaryOp::Subtraction))
    } else {
        Token::Symbol(Symbol::Binary(op))
    }
}

/// Each operator's spelling lexes to that operator, consuming exactly the
/// spelling: a two-character operator wherever it is written, and a
/// one-character operator when the next character cannot lengthen it.
pub proof fn lemma_operators_lex_to_themselves(op: BinaryOperator, s: Seq<char>, i: int)
    requires
        spelled_at(s, i, spelling(op)),
        spelling(op).len() == 1 ==> i + 1 >= s.len() || !continues_operator(s[i + 1]),
    ensures
        spec_scan_other(s, i) == (Some(operator_token(op)), i + spelling(op).len()),
{
    let w = spelling(op);
    assert(s[i + 0] == w[0]);
    if w.len() == 2 {
        assert(s[i + 1] == w[1]);
    }
}

} // verus!
