use crate::text::{decimal, digit_char, usize_text};
use vstd::prelude::*;
use vstd::string::*;

verus! {

/// The syntax tree of a mask expression over positional shape indices.
#[derive(Debug)]
pub enum GaussianSplattingMaskOp {
    /// Union.
    Union(Box<GaussianSplattingMaskOp>, Box<GaussianSplattingMaskOp>),
    /// Intersection.
    Intersection(Box<GaussianSplattingMaskOp>, Box<GaussianSplattingMaskOp>),
    /// Difference.
    Difference(Box<GaussianSplattingMaskOp>, Box<GaussianSplattingMaskOp>),
    /// Symmetric difference.
    SymmetricDifference(Box<GaussianSplattingMaskOp>, Box<GaussianSplattingMaskOp>),
    /// Complement.
    Complement(Box<GaussianSplattingMaskOp>),
    /// A reference to a shape by its index.
    Shape(usize),
}

/// The first shape index at or above `shape_count`, visiting the tree depth-first,
/// left operand before right operand.
pub open spec fn first_invalid_shape(op: GaussianSplattingMaskOp, shape_count: nat) -> Option<usize>
    decreases op,
{
    match op {
        GaussianSplattingMaskOp::Union(l, r)
        | GaussianSplattingMaskOp::Intersection(l, r)
        | GaussianSplattingMaskOp::Difference(l, r)
        | GaussianSplattingMaskOp::SymmetricDifference(l, r) => match first_invalid_shape(*l, shape_count) {
            Some(i) => Some(i),
            None => first_invalid_shape(*r, shape_count),
        },
        GaussianSplattingMaskOp::Complement(x) => first_invalid_shape(*x, shape_count),
        GaussianSplattingMaskOp::Shape(i) => if i >= shape_count { Some(i) } else { None },
    }
}


/// A token of the mask expression language.
#[derive(Clone, Copy, PartialEq, Eq, Structural, Debug)]
pub enum MaskToken {
    /// A non-negative integer: a shape index.
    Shape(usize),
    /// `|`
    Union,
    /// `&`
    Intersection,
    /// `-`
    Difference,
    /// `^`
    SymmetricDifference,
    /// `!`
    Complement,
    /// `(`
    Open,
    /// `)`
    Close,
}

/// A token together with the character index at which it starts.
#[derive(Clone, Copy, PartialEq, Eq, Structural, Debug)]
pub struct LexedToken {
    pub token: MaskToken,
    pub position: usize,
}

/// Why a mask expression was rejected.
#[derive(Clone, Copy, PartialEq, Eq, Structural, Debug)]
pub enum MaskParseErrorKind {
    /// A character that belongs to no token.
    UnexpectedCharacter,
    /// A shape index that does not fit in `usize`.
    NumberTooLarge,
    /// A token that the grammar does not allow where it stands.
    UnexpectedToken,
    /// The text ended where the grammar needs more.
    UnexpectedEnd,
}

/// A rejected mask expression: what went wrong and at which character index.
#[derive(Clone, Copy, PartialEq, Eq, Structural, Debug)]
pub struct MaskParseError {
    pub kind: MaskParseErrorKind,
    pub position: usize,
}

/// Whitespace that may stand between tokens: the characters with the Unicode
/// `White_Space` property, the set that `char::is_whitespace` accepts.
pub open spec fn is_blank(c: char) -> bool {
    ('\t' <= c && c <= '\r') || c == ' ' || c == '\u{85}' || c == '\u{A0}' || c == '\u{1680}'
        || ('\u{2000}' <= c && c <= '\u{200A}') || c == '\u{2028}' || c == '\u{2029}' || c == '\u{202F}'
        || c == '\u{205F}' || c == '\u{3000}'
}

fn blank(c: char) -> (r: bool)
    ensures
        r == is_blank(c),
{
    ('\t' <= c && c <= '\r') || c == ' ' || c == '\u{85}' || c == '\u{A0}' || c == '\u{1680}'
        || ('\u{2000}' <= c && c <= '\u{200A}') || c == '\u{2028}' || c == '\u{2029}' || c == '\u{202F}'
        || c == '\u{205F}' || c == '\u{3000}'
}

pub open spec fn is_digit(c: char) -> bool {
    '0' <= c && c <= '9'
}

pub open spec fn digit_value(c: char) -> nat {
    (c as int - '0' as int) as nat
}

/// The token that a single operator or parenthesis character stands for.
pub open spec fn symbol_token(c: char) -> Option<MaskToken> {
    if c == '|' {
        Some(MaskToken::Union)
    } else if c == '&' {
        Some(MaskToken::Intersection)
    } else if c == '-' {
        Some(MaskToken::Difference)
    } else if c == '^' {
        Some(MaskToken::SymmetricDifference)
    } else if c == '!' {
        Some(MaskToken::Complement)
    } else if c == '(' {
        Some(MaskToken::Open)
    } else if c == ')' {
        Some(MaskToken::Close)
    } else {
        None
    }
}

pub open spec fn prepend_tokens(
    front: Seq<LexedToken>,
    r: Result<Seq<LexedToken>, MaskParseError>,
) -> Result<Seq<LexedToken>, MaskParseError> {
    match r {
        Ok(rest) => Ok(front + rest),
        Err(e) => Err(e),
    }
}

/// The tokens of `s` from character index `i` on. `number` holds the start and the value so
/// far of a number whose digits end just before `i`.
pub open spec fn lex_from(s: Seq<char>, i: int, number: Option<(int, nat)>) -> Result<
    Seq<LexedToken>,
    MaskParseError,
>
    decreases 2 * (s.len() - i) + (if number is Some { 1int } else { 0int }),
{
    if i < 0 || i > s.len() {
        Ok(seq![])
    } else {
        match number {
            Some((start, value)) => {
                if i < s.len() && is_digit(s[i]) {
                    lex_from(s, i + 1, Some((start, value * 10 + digit_value(s[i]))))
                } else if value > usize::MAX {
                    Err(
                        MaskParseError {
                            kind: MaskParseErrorKind::NumberTooLarge,
                            position: start as usize,
                        },
                    )
                } else {
                    prepend_tokens(
                        seq![
                            LexedToken {
                                token: MaskToken::Shape(value as usize),
                                position: start as usize,
                            },
                        ],
                        lex_from(s, i, None),
                    )
                }
            },
            None => {
                if i == s.len() {
                    Ok(seq![])
                } else if is_blank(s[i]) {
                    lex_from(s, i + 1, None)
                } else if is_digit(s[i]) {
                    lex_from(s, i + 1, Some((i, digit_value(s[i]))))
                } else {
                    match symbol_token(s[i]) {
                        Some(t) => prepend_tokens(
                            seq![LexedToken { token: t, position: i as usize }],
                            lex_from(s, i + 1, None),
                        ),
                        None => Err(
                            MaskParseError {
                                kind: MaskParseErrorKind::UnexpectedCharacter,
                                position: i as usize,
                            },
                        ),
                    }
                }
            },
        }
    }
}

/// The tokens of `s`, or the first lexical error.
pub open spec fn lex(s: Seq<char>) -> Result<Seq<LexedToken>, MaskParseError> {
    lex_from(s, 0, None)
}

fn symbol(c: char) -> (r: Option<MaskToken>)
    ensures
        r == symbol_token(c),
{
    if c == '|' {
        Some(MaskToken::Union)
    } else if c == '&' {
        Some(MaskToken::Intersection)
    } else if c == '-' {
        Some(MaskToken::Difference)
    } else if c == '^' {
        Some(MaskToken::SymmetricDifference)
    } else if c == '!' {
        Some(MaskToken::Complement)
    } else if c == '(' {
        Some(MaskToken::Open)
    } else if c == ')' {
        Some(MaskToken::Close)
    } else {
        None
    }
}

/// Splits `s` into tokens.
pub fn tokenize(s: &Vec<char>) -> (r: Result<Vec<LexedToken>, MaskParseError>)
    ensures
        match r {
            Ok(v) => lex(s@) == Ok::<Seq<LexedToken>, MaskParseError>(v@),
            Err(e) => lex(s@) == Err::<Seq<LexedToken>, MaskParseError>(e),
        },
{
    let mut out: Vec<LexedToken> = Vec::new();
    let mut i: usize = 0;
    // a number being read: where it starts, its value so far, whether that passed usize::MAX
    let mut number: Option<(usize, usize, bool)> = None;
    let ghost mut exact: Option<(int, nat)> = None;
    while i < s.len() || number.is_some()
        invariant
            i <= s.len(),
            lex(s@) == prepend_tokens(out@, lex_from(s@, i as int, exact)),
            number is None <==> exact is None,
            number is Some ==> {
                let (start, value, over) = number->Some_0;
                let (xs, xv) = exact->Some_0;
                &&& start as int == xs
                &&& start < i
                &&& over <==> xv > usize::MAX
                &&& !over ==> value as nat == xv
            },
        decreases 2 * (s.len() - i) + (if number is Some { 1int } else { 0int }),
    {
        let ghost before = out@;
        match number {
            Some((start, value, over)) => {
                if i < s.len() && '0' <= s[i] && s[i] <= '9' {
                    let d = (s[i] as u32 - '0' as u32) as usize;
                    let mut next_over = over;
                    let mut next_value: usize = 0;
                    if !over {
                        match value.checked_mul(10) {
                            Some(m) => match m.checked_add(d) {
                                Some(a) => {
                                    next_value = a;
                                },
                                None => {
                                    next_over = true;
                                },
                            },
                            None => {
                                next_over = true;
                            },
                        }
                    }
                    proof {
                        let (xs, xv) = exact->Some_0;
                        exact = Some((xs, xv * 10 + digit_value(s@[i as int])));
                        assert(xv * 10 + digit_value(s@[i as int]) >= xv) by (nonlinear_arith);
                    }
                    number = Some((start, next_value, next_over));
                    i = i + 1;
                } else if over {
                    return Err(MaskParseError { kind: MaskParseErrorKind::NumberTooLarge, position: start });
                } else {
                    let t = LexedToken { token: MaskToken::Shape(value), position: start };
                    out.push(t);
                    proof {
                        assert(before + (seq![t] + lex_from(s@, i as int, None)->Ok_0)
                            =~= out@ + lex_from(s@, i as int, None)->Ok_0);
                        exact = None;
                    }
                    number = None;
                }
            },
            None => {
                let c = s[i];
                if blank(c) {
                    i = i + 1;
                } else if '0' <= c && c <= '9' {
                    let d = (c as u32 - '0' as u32) as usize;
                    proof {
                        exact = Some((i as int, digit_value(c)));
                    }
                    number = Some((i, d, false));
                    i = i + 1;
                } else {
                    match symbol(c) {
                        Some(tok) => {
                            let t = LexedToken { token: tok, position: i };
                            out.push(t);
                            proof {
                                assert(before + (seq![t] + lex_from(s@, i + 1, None)->Ok_0)
                                    =~= out@ + lex_from(s@, i + 1, None)->Ok_0);
                            }
                            i = i + 1;
                        },
                        None => {
                            return Err(
                                MaskParseError {
                                    kind: MaskParseErrorKind::UnexpectedCharacter,
                                    position: i,
                                },
                            );
                        },
                    }
                }
            },
        }
    }
    proof {
        assert(out@ + seq![] =~= out@);
    }
    Ok(out)
}


/// The binary operator token of a precedence level: `|` binds loosest, then `&`, `-`, `^`.
pub open spec fn level_operator(level: nat) -> MaskToken {
    if level == 0 {
        MaskToken::Union
    } else if level == 1 {
        MaskToken::Intersection
    } else if level == 2 {
        MaskToken::Difference
    } else {
        MaskToken::SymmetricDifference
    }
}

/// The node that the operator of a precedence level builds.
pub open spec fn combine(
    level: nat,
    l: GaussianSplattingMaskOp,
    r: GaussianSplattingMaskOp,
) -> GaussianSplattingMaskOp {
    if level == 0 {
        GaussianSplattingMaskOp::Union(Box::new(l), Box::new(r))
    } else if level == 1 {
        GaussianSplattingMaskOp::Intersection(Box::new(l), Box::new(r))
    } else if level == 2 {
        GaussianSplattingMaskOp::Difference(Box::new(l), Box::new(r))
    } else {
        GaussianSplattingMaskOp::SymmetricDifference(Box::new(l), Box::new(r))
    }
}

/// Parses an expression of precedence `level` (0 to 3: binary operators, 4: a factor) from
/// token index `i`: the tree and the index after it, or the index of the offending token.
/// A factor is a shape index, `!` followed by a factor, or a parenthesised expression.
pub open spec fn parse_level(toks: Seq<MaskToken>, level: nat, i: int) -> Result<
    (GaussianSplattingMaskOp, int),
    int,
>
    decreases toks.len() - i, 5 - level, 1int,
{
    if i < 0 || i > toks.len() || level > 4 {
        Err(i)
    } else if level == 4 {
        if i == toks.len() {
            Err(i)
        } else {
            match toks[i] {
                MaskToken::Shape(n) => Ok((GaussianSplattingMaskOp::Shape(n), i + 1)),
                MaskToken::Complement => match parse_level(toks, 4, i + 1) {
                    Ok((x, j)) => Ok((GaussianSplattingMaskOp::Complement(Box::new(x)), j)),
                    Err(e) => Err(e),
                },
                MaskToken::Open => match parse_level(toks, 0, i + 1) {
                    Ok((x, j)) => if 0 <= j < toks.len() && toks[j] == MaskToken::Close {
                        Ok((x, j + 1))
                    } else {
                        Err(j)
                    },
                    Err(e) => Err(e),
                },
                _ => Err(i),
            }
        }
    } else {
        match parse_level(toks, level + 1, i) {
            Ok((first, j)) => if i < j <= toks.len() {
                parse_rest(toks, level, j, first)
            } else {
                Err(j)
            },
            Err(e) => Err(e),
        }
    }
}

/// Continues a left fold at precedence `level` (0 to 3) from token index `i`, with `acc`
/// the tree of the operands so far.
pub open spec fn parse_rest(
    toks: Seq<MaskToken>,
    level: nat,
    i: int,
    acc: GaussianSplattingMaskOp,
) -> Result<(GaussianSplattingMaskOp, int), int>
    decreases toks.len() - i, 5 - level, 0int,
{
    if i < 0 || i > toks.len() || level > 3 {
        Err(i)
    } else if i < toks.len() && toks[i] == level_operator(level) {
        match parse_level(toks, level + 1, i + 1) {
            Ok((next, j)) => if i < j <= toks.len() {
                parse_rest(toks, level, j, combine(level, acc, next))
            } else {
                Err(j)
            },
            Err(e) => Err(e),
        }
    } else {
        Ok((acc, i))
    }
}

pub open spec fn token_kinds(lexed: Seq<LexedToken>) -> Seq<MaskToken> {
    lexed.map_values(|t: LexedToken| t.token)
}

/// The error reported at token index `k` of `lexed`, the end of the text when `k` is past
/// the last token.
pub open spec fn token_error(s: Seq<char>, lexed: Seq<LexedToken>, k: int) -> MaskParseError {
    if 0 <= k < lexed.len() {
        MaskParseError { kind: MaskParseErrorKind::UnexpectedToken, position: lexed[k].position }
    } else {
        MaskParseError { kind: MaskParseErrorKind::UnexpectedEnd, position: s.len() as usize }
    }
}

/// What a mask expression denotes: `None` for text with no tokens, else the tree of the
/// whole text, or the first error.
pub open spec fn parse_spec(s: Seq<char>) -> Result<Option<GaussianSplattingMaskOp>, MaskParseError> {
    match lex(s) {
        Err(e) => Err(e),
        Ok(lexed) => if lexed.len() == 0 {
            Ok(None)
        } else {
            match parse_level(token_kinds(lexed), 0, 0) {
                Ok((t, j)) => if j == lexed.len() {
                    Ok(Some(t))
                } else {
                    Err(token_error(s, lexed, j))
                },
                Err(k) => Err(token_error(s, lexed, k)),
            }
        },
    }
}

fn operator_of(level: u8) -> (r: MaskToken)
    ensures
        r == level_operator(level as nat),
{
    if level == 0 {
        MaskToken::Union
    } else if level == 1 {
        MaskToken::Intersection
    } else if level == 2 {
        MaskToken::Difference
    } else {
        MaskToken::SymmetricDifference
    }
}

fn combine_exec(level: u8, l: GaussianSplattingMaskOp, r: GaussianSplattingMaskOp) -> (t: GaussianSplattingMaskOp)
    ensures
        t == combine(level as nat, l, r),
{
    if level == 0 {
        GaussianSplattingMaskOp::Union(Box::new(l), Box::new(r))
    } else if level == 1 {
        GaussianSplattingMaskOp::Intersection(Box::new(l), Box::new(r))
    } else if level == 2 {
        GaussianSplattingMaskOp::Difference(Box::new(l), Box::new(r))
    } else {
        GaussianSplattingMaskOp::SymmetricDifference(Box::new(l), Box::new(r))
    }
}

/// Parses an expression of precedence `level` from token index `i`.
pub fn parse_tokens(toks: &Vec<MaskToken>, level: u8, i: usize) -> (r: Result<(GaussianSplattingMaskOp, usize), usize>)
    requires
        level <= 4,
        i <= toks.len(),
    ensures
        match r {
            Ok((t, j)) => parse_level(toks@, level as nat, i as int) == Ok::<(GaussianSplattingMaskOp, int), int>((t, j as int))
                && i < j <= toks.len(),
            Err(k) => parse_level(toks@, level as nat, i as int) == Err::<(GaussianSplattingMaskOp, int), int>(k as int),
        },
    decreases toks.len() - i, 5 - level,
{
    if level == 4 {
        if i == toks.len() {
            return Err(i);
        }
        match toks[i] {
            MaskToken::Shape(n) => Ok((GaussianSplattingMaskOp::Shape(n), i + 1)),
            MaskToken::Complement => match parse_tokens(toks, 4, i + 1) {
                Ok((x, j)) => Ok((GaussianSplattingMaskOp::Complement(Box::new(x)), j)),
                Err(e) => Err(e),
            },
            MaskToken::Open => match parse_tokens(toks, 0, i + 1) {
                Ok((x, j)) => {
                    if j < toks.len() && toks[j] == MaskToken::Close {
                        Ok((x, j + 1))
                    } else {
                        Err(j)
                    }
                },
                Err(e) => Err(e),
            },
            _ => Err(i),
        }
    } else {
        let (first, j) = match parse_tokens(toks, level + 1, i) {
            Ok(p) => p,
            Err(e) => return Err(e),
        };
        let op = operator_of(level);
        let mut acc = first;
        let mut pos = j;
        while pos < toks.len() && toks[pos] == op
            invariant
                level < 4,
                op == level_operator(level as nat),
                i < pos <= toks.len(),
                parse_level(toks@, level as nat, i as int) == parse_rest(toks@, level as nat, pos as int, acc),
            decreases toks.len() - pos,
        {
            match parse_tokens(toks, level + 1, pos + 1) {
                Ok((next, k)) => {
                    acc = combine_exec(level, acc, next);
                    pos = k;
                },
                Err(e) => return Err(e),
            }
        }
        Ok((acc, pos))
    }
}


/// The characters of `s`, in order.
pub fn chars_of(s: &str) -> (r: Vec<char>)
    ensures
        r@ == s@,
{
    let n = s.unicode_len();
    let mut out: Vec<char> = Vec::new();
    let mut i: usize = 0;
    while i < n
        invariant
            n == s@.len(),
            i <= n,
            out@ == s@.subrange(0, i as int),
        decreases n - i,
    {
        out.push(s.get_char(i));
        i = i + 1;
        proof {
            assert(out@ =~= s@.subrange(0, i as int));
        }
    }
    proof {
        assert(out@ =~= s@);
    }
    out
}

impl GaussianSplattingMaskOp {
    /// Parses a mask expression. Text made of whitespace alone means no restriction
    /// (`Ok(None)`); otherwise the whole text must be one expression of the grammar.
    pub fn parse(input: &str) -> (r: Result<Option<GaussianSplattingMaskOp>, MaskParseError>)
        ensures
            r == parse_spec(input@),
    {
        let chars = chars_of(input);
        let lexed = tokenize(&chars)?;
        if lexed.len() == 0 {
            return Ok(None);
        }
        let mut kinds: Vec<MaskToken> = Vec::new();
        let mut i: usize = 0;
        while i < lexed.len()
            invariant
                i <= lexed.len(),
                kinds@ == token_kinds(lexed@).subrange(0, i as int),
            decreases lexed.len() - i,
        {
            kinds.push(lexed[i].token);
            i = i + 1;
            proof {
                assert(kinds@ =~= token_kinds(lexed@).subrange(0, i as int));
            }
        }
        proof {
            assert(kinds@ =~= token_kinds(lexed@));
        }
        match parse_tokens(&kinds, 0, 0) {
            Ok((t, j)) => {
                if j == lexed.len() {
                    Ok(Some(t))
                } else {
                    Err(MaskParseError { kind: MaskParseErrorKind::UnexpectedToken, position: lexed[j].position })
                }
            },
            Err(k) => {
                if k < lexed.len() {
                    Err(MaskParseError { kind: MaskParseErrorKind::UnexpectedToken, position: lexed[k].position })
                } else {
                    Err(MaskParseError { kind: MaskParseErrorKind::UnexpectedEnd, position: chars.len() })
                }
            },
        }
    }

    /// Checks that every shape index is below `shape_count`; on failure returns the first
    /// offending index met in a depth-first, left-to-right traversal.
    pub fn validate_shapes(&self, shape_count: usize) -> (r: Result<(), usize>)
        ensures
            r == match first_invalid_shape(*self, shape_count as nat) {
                Some(i) => Err::<(), usize>(i),
                None => Ok(()),
            },
        decreases self,
    {
        match self {
            GaussianSplattingMaskOp::Union(l, r)
            | GaussianSplattingMaskOp::Intersection(l, r)
            | GaussianSplattingMaskOp::Difference(l, r)
            | GaussianSplattingMaskOp::SymmetricDifference(l, r) => {
                l.validate_shapes(shape_count)?;
                r.validate_shapes(shape_count)
            },
            GaussianSplattingMaskOp::Complement(x) => x.validate_shapes(shape_count),
            GaussianSplattingMaskOp::Shape(i) => {
                if *i >= shape_count {
                    Err(*i)
                } else {
                    Ok(())
                }
            },
        }
    }
}


/// `s` with the character `c` put in at index `i`.
pub open spec fn insert_char(s: Seq<char>, i: int, c: char) -> Seq<char> {
    s.take(i) + seq![c] + s.skip(i)
}

/// Whether index `i` of `s` lies between two digits of one number.
pub open spec fn inside_number(s: Seq<char>, i: int) -> bool {
    0 < i < s.len() && is_digit(s[i - 1]) && is_digit(s[i])
}

/// Whether two lexings agree on success and, on success, on the tokens (not their positions).
spec fn same_tokens(
    a: Result<Seq<LexedToken>, MaskParseError>,
    b: Result<Seq<LexedToken>, MaskParseError>,
) -> bool {
    &&& (a is Ok <==> b is Ok)
    &&& (a is Ok ==> token_kinds(a->Ok_0) == token_kinds(b->Ok_0))
}

spec fn number_value(n: Option<(int, nat)>) -> Option<nat> {
    match n {
        Some((_, v)) => Some(v),
        None => None,
    }
}

proof fn lemma_prepend_same(
    t1: LexedToken,
    t2: LexedToken,
    a: Result<Seq<LexedToken>, MaskParseError>,
    b: Result<Seq<LexedToken>, MaskParseError>,
)
    requires
        same_tokens(a, b),
        t1.token == t2.token,
    ensures
        same_tokens(prepend_tokens(seq![t1], a), prepend_tokens(seq![t2], b)),
{
    if a is Ok {
        assert(token_kinds(seq![t1] + a->Ok_0) =~= seq![t1.token] + token_kinds(a->Ok_0));
        assert(token_kinds(seq![t2] + b->Ok_0) =~= seq![t2.token] + token_kinds(b->Ok_0));
    }
}

/// Lexing depends only on the text that is left, not on where it stands.
proof fn lemma_lex_suffix(s: Seq<char>, k: int, t: Seq<char>, m: int, n1: Option<(int, nat)>, n2: Option<(int, nat)>)
    requires
        0 <= k <= s.len(),
        0 <= m <= t.len(),
        s.skip(k) == t.skip(m),
        number_value(n1) == number_value(n2),
    ensures
        same_tokens(lex_from(s, k, n1), lex_from(t, m, n2)),
    decreases 2 * (s.len() - k) + (if n1 is Some { 1int } else { 0int }),
{
    assert(s.skip(k).len() == s.len() - k);
    assert(t.skip(m).len() == t.len() - m);
    assert(s.len() - k == t.len() - m);
    if k < s.len() {
        assert(s[k] == s.skip(k)[0] && t[m] == t.skip(m)[0]);
        assert(s.skip(k + 1) =~= s.skip(k).skip(1));
        assert(t.skip(m + 1) =~= t.skip(m).skip(1));
    }
    match n1 {
        Some((st1, v)) => {
            let st2 = n2->Some_0.0;
            if k < s.len() && is_digit(s[k]) {
                let w = v * 10 + digit_value(s[k]);
                assert(m < t.len() && is_digit(t[m]) && digit_value(t[m]) == digit_value(s[k]));
                lemma_lex_suffix(s, k + 1, t, m + 1, Some((st1, w)), Some((st2, w)));
                assert(lex_from(s, k, n1) == lex_from(s, k + 1, Some((st1, w))));
                assert(lex_from(t, m, n2) == lex_from(t, m + 1, Some((st2, w))));
            } else if v <= usize::MAX {
                assert(!(m < t.len() && is_digit(t[m])));
                lemma_lex_suffix(s, k, t, m, None, None);
                lemma_prepend_same(
                    LexedToken { token: MaskToken::Shape(v as usize), position: st1 as usize },
                    LexedToken { token: MaskToken::Shape(v as usize), position: st2 as usize },
                    lex_from(s, k, None),
                    lex_from(t, m, None),
                );
            }
        },
        None => {
            if k < s.len() {
                if is_blank(s[k]) {
                    lemma_lex_suffix(s, k + 1, t, m + 1, None, None);
                } else if is_digit(s[k]) {
                    lemma_lex_suffix(s, k + 1, t, m + 1, Some((k, digit_value(s[k]))), Some((m, digit_value(s[k]))));
                } else if let Some(tok) = symbol_token(s[k]) {
                    lemma_lex_suffix(s, k + 1, t, m + 1, None, None);
                    lemma_prepend_same(
                        LexedToken { token: tok, position: k as usize },
                        LexedToken { token: tok, position: m as usize },
                        lex_from(s, k + 1, None),
                        lex_from(t, m + 1, None),
                    );
                }
            }
        },
    }
}

/// Lexing from index `k`, at or before the inserted blank, finds the same tokens.
proof fn lemma_lex_insert(s: Seq<char>, i: int, c: char, k: int, n: Option<(int, nat)>)
    requires
        0 <= k <= i <= s.len(),
        is_blank(c),
        !inside_number(s, i),
        n is Some ==> k > 0 && is_digit(s[k - 1]),
    ensures
        same_tokens(lex_from(insert_char(s, i, c), k, n), lex_from(s, k, n)),
    decreases 2 * (i - k) + (if n is Some { 1int } else { 0int }),
{
    let s2 = insert_char(s, i, c);
    assert(s2.len() == s.len() + 1);
    if k < i {
        assert(s2[k] == s[k]);
        match n {
            Some((st, v)) => {
                if is_digit(s[k]) {
                    lemma_lex_insert(s, i, c, k + 1, Some((st, v * 10 + digit_value(s[k]))));
                } else if v <= usize::MAX {
                    lemma_lex_insert(s, i, c, k, None);
                    let tok = LexedToken { token: MaskToken::Shape(v as usize), position: st as usize };
                    lemma_prepend_same(tok, tok, lex_from(s2, k, None), lex_from(s, k, None));
                }
            },
            None => {
                if is_blank(s[k]) {
                    lemma_lex_insert(s, i, c, k + 1, None);
                } else if is_digit(s[k]) {
                    lemma_lex_insert(s, i, c, k + 1, Some((k, digit_value(s[k]))));
                } else if let Some(tok) = symbol_token(s[k]) {
                    lemma_lex_insert(s, i, c, k + 1, None);
                    let t = LexedToken { token: tok, position: k as usize };
                    lemma_prepend_same(t, t, lex_from(s2, k + 1, None), lex_from(s, k + 1, None));
                }
            },
        }
    } else {
        assert(s2[i] == c);
        assert(s2.skip(i + 1) =~= s.skip(i));
        match n {
            None => {
                lemma_lex_suffix(s2, i + 1, s, i, None, None);
            },
            Some((st, v)) => {
                assert(!(i < s.len() && is_digit(s[i])));
                if v <= usize::MAX {
                    lemma_lex_insert(s, i, c, i, None);
                    let tok = LexedToken { token: MaskToken::Shape(v as usize), position: st as usize };
                    lemma_prepend_same(tok, tok, lex_from(s2, i, None), lex_from(s, i, None));
                }
            },
        }
    }
}

/// A whitespace character added anywhere but inside a number leaves the result of a
/// well-formed expression (or of a blank text) as it was.
pub proof fn lemma_parse_ignores_added_whitespace(s: Seq<char>, i: int, c: char)
    requires
        0 <= i <= s.len(),
        is_blank(c),
        !inside_number(s, i),
        parse_spec(s) is Ok,
    ensures
        parse_spec(insert_char(s, i, c)) == parse_spec(s),
{
    lemma_lex_insert(s, i, c, 0, None);
    let s2 = insert_char(s, i, c);
    let l1 = lex(s)->Ok_0;
    let l2 = lex(s2)->Ok_0;
    assert(token_kinds(l1).len() == l1.len());
    assert(token_kinds(l2).len() == l2.len());
}

/// The level of a binary node's operator (see `level_operator`).
pub open spec fn op_level(op: GaussianSplattingMaskOp) -> nat {
    match op {
        GaussianSplattingMaskOp::Union(..) => 0,
        GaussianSplattingMaskOp::Intersection(..) => 1,
        GaussianSplattingMaskOp::Difference(..) => 2,
        _ => 3,
    }
}

pub open spec fn operator_char(level: nat) -> char {
    if level == 0 {
        '|'
    } else if level == 1 {
        '&'
    } else if level == 2 {
        '-'
    } else {
        '^'
    }
}

/// A text of a tree: every binary node in parentheses, its operator between spaces.
pub open spec fn render(op: GaussianSplattingMaskOp) -> Seq<char>
    decreases op,
{
    match op {
        GaussianSplattingMaskOp::Shape(n) => decimal(n as nat),
        GaussianSplattingMaskOp::Complement(x) => seq!['!'] + render(*x),
        GaussianSplattingMaskOp::Union(l, r)
        | GaussianSplattingMaskOp::Intersection(l, r)
        | GaussianSplattingMaskOp::Difference(l, r)
        | GaussianSplattingMaskOp::SymmetricDifference(l, r) => seq!['('] + render(*l) + seq![
            ' ',
            operator_char(op_level(op)),
            ' ',
        ] + render(*r) + seq![')'],
    }
}

/// The tokens of `render(op)`.
pub open spec fn op_tokens(op: GaussianSplattingMaskOp) -> Seq<MaskToken>
    decreases op,
{
    match op {
        GaussianSplattingMaskOp::Shape(n) => seq![MaskToken::Shape(n)],
        GaussianSplattingMaskOp::Complement(x) => seq![MaskToken::Complement] + op_tokens(*x),
        GaussianSplattingMaskOp::Union(l, r)
        | GaussianSplattingMaskOp::Intersection(l, r)
        | GaussianSplattingMaskOp::Difference(l, r)
        | GaussianSplattingMaskOp::SymmetricDifference(l, r) => seq![MaskToken::Open] + op_tokens(*l) + seq![
            level_operator(op_level(op)),
        ] + op_tokens(*r) + seq![MaskToken::Close],
    }
}

spec fn kinds_of(r: Result<Seq<LexedToken>, MaskParseError>) -> Option<Seq<MaskToken>> {
    match r {
        Ok(l) => Some(token_kinds(l)),
        Err(_) => None,
    }
}

spec fn prefixed(t: MaskToken, k: Option<Seq<MaskToken>>) -> Option<Seq<MaskToken>> {
    match k {
        Some(x) => Some(seq![t] + x),
        None => None,
    }
}

spec fn digits_value(ds: Seq<char>) -> nat
    decreases ds.len(),
{
    if ds.len() == 0 {
        0
    } else {
        digits_value(ds.drop_last()) * 10 + digit_value(ds.last())
    }
}

proof fn lemma_same_tokens_kinds(a: Result<Seq<LexedToken>, MaskParseError>, b: Result<Seq<LexedToken>, MaskParseError>)
    requires
        same_tokens(a, b),
    ensures
        kinds_of(a) == kinds_of(b),
{
}

proof fn lemma_decimal(n: nat)
    ensures
        decimal(n).len() >= 1,
        forall|j: int| 0 <= j < decimal(n).len() ==> is_digit(#[trigger] decimal(n)[j]),
        digits_value(decimal(n)) == n,
    decreases n,
{
    let d = n % 10;
    assert(d < 10);
    assert(is_digit(digit_char(d)) && digit_value(digit_char(d)) == d);
    if n < 10 {
        assert(decimal(n).drop_last() =~= Seq::<char>::empty());
        assert(digits_value(decimal(n)) == digits_value(Seq::<char>::empty()) * 10 + digit_value(digit_char(d)));
    }
    if n >= 10 {
        lemma_decimal(n / 10);
        assert(decimal(n).drop_last() =~= decimal(n / 10));
        assert(decimal(n)[decimal(n).len() - 1] == digit_char(d));
        assert forall|j: int| 0 <= j < decimal(n).len() implies is_digit(#[trigger] decimal(n)[j]) by {
            if j < decimal(n).len() - 1 {
                assert(decimal(n)[j] == decimal(n / 10)[j]);
            }
        }
        assert(digits_value(decimal(n)) == digits_value(decimal(n / 10)) * 10 + digit_value(digit_char(d)));
        assert(n == (n / 10) * 10 + d);
    }
}

/// Reading the digits `d` of a number from index `j` on, with the value of those before.
proof fn lemma_lex_digits(s: Seq<char>, d: Seq<char>, j: int)
    requires
        1 <= j <= d.len(),
        d.len() <= s.len(),
        s.take(d.len() as int) == d,
        forall|i: int| 0 <= i < d.len() ==> is_digit(#[trigger] d[i]),
        d.len() == s.len() || !is_digit(s[d.len() as int]),
    ensures
        lex_from(s, j, Some((0, digits_value(d.take(j))))) == lex_from(s, d.len() as int, Some((0, digits_value(d)))),
    decreases d.len() - j,
{
    if j < d.len() {
        assert(s[j] == d[j]);
        assert(d.take(j + 1).drop_last() =~= d.take(j));
        lemma_lex_digits(s, d, j + 1);
    } else {
        assert(d.take(j) =~= d);
    }
}

proof fn lemma_lex_blank_head(s: Seq<char>)
    requires
        s.len() > 0,
        is_blank(s[0]),
    ensures
        kinds_of(lex(s)) == kinds_of(lex(s.skip(1))),
{
    assert(s.skip(1).skip(0) =~= s.skip(1));
    lemma_lex_suffix(s, 1, s.skip(1), 0, None, None);
    lemma_same_tokens_kinds(lex_from(s, 1, None), lex(s.skip(1)));
}

proof fn lemma_lex_symbol_head(s: Seq<char>, t: MaskToken)
    requires
        s.len() > 0,
        !is_blank(s[0]),
        !is_digit(s[0]),
        symbol_token(s[0]) == Some(t),
    ensures
        kinds_of(lex(s)) == prefixed(t, kinds_of(lex(s.skip(1)))),
{
    assert(s.skip(1).skip(0) =~= s.skip(1));
    lemma_lex_suffix(s, 1, s.skip(1), 0, None, None);
    let tok = LexedToken { token: t, position: 0usize };
    if lex_from(s, 1, None) is Ok {
        assert(token_kinds(seq![tok] + lex_from(s, 1, None)->Ok_0) =~= seq![t] + token_kinds(lex_from(s, 1, None)->Ok_0));
    }
}

/// Lexing a rendered tree followed by `rest` (which does not go on with a digit) gives the
/// tree's tokens followed by those of `rest`.
#[verifier::rlimit(100)]
#[verifier::spinoff_prover]
proof fn lemma_lex_render(op: GaussianSplattingMaskOp, rest: Seq<char>)
    requires
        rest.len() == 0 || !is_digit(rest[0]),
    ensures
        kinds_of(lex(render(op) + rest)) == match kinds_of(lex(rest)) {
            Some(k) => Some(op_tokens(op) + k),
            None => None::<Seq<MaskToken>>,
        },
    decreases op,
{
    let s = render(op) + rest;
    match op {
        GaussianSplattingMaskOp::Shape(n) => {
            let d = decimal(n as nat);
            lemma_decimal(n as nat);
            assert(s.take(d.len() as int) =~= d);
            assert(d.len() < s.len() ==> s[d.len() as int] == rest[0]);
            assert(is_digit(s[0]) && !is_blank(s[0]));
            assert(d.take(1).drop_last() =~= Seq::<char>::empty());
            assert(d.take(1).last() == d[0]);
            assert(s[0] == s.take(d.len() as int)[0]);
            assert(digits_value(Seq::<char>::empty()) == 0);
            assert(digits_value(d.take(1)) == digits_value(d.take(1).drop_last()) * 10 + digit_value(d.take(1).last()));
            assert(digits_value(d.take(1)) == digit_value(s[0]));
            lemma_lex_digits(s, d, 1);
            assert(s.skip(d.len() as int) =~= rest);
            assert(rest.skip(0) =~= rest);
            lemma_lex_suffix(s, d.len() as int, rest, 0, None, None);
            let tok = LexedToken { token: MaskToken::Shape(n), position: 0usize };
            if lex_from(s, d.len() as int, None) is Ok {
                assert(token_kinds(seq![tok] + lex_from(s, d.len() as int, None)->Ok_0) =~= seq![MaskToken::Shape(n)]
                    + token_kinds(lex_from(s, d.len() as int, None)->Ok_0));
            }
        },
        GaussianSplattingMaskOp::Complement(x) => {
            lemma_lex_render(*x, rest);
            assert(s[0] == '!');
            lemma_lex_symbol_head(s, MaskToken::Complement);
            assert(s.skip(1) =~= render(*x) + rest);
            if kinds_of(lex(rest)) is Some {
                assert(seq![MaskToken::Complement] + (op_tokens(*x) + kinds_of(lex(rest))->Some_0) =~= op_tokens(op)
                    + kinds_of(lex(rest))->Some_0);
            }
        },
        GaussianSplattingMaskOp::Union(l, r)
        | GaussianSplattingMaskOp::Intersection(l, r)
        | GaussianSplattingMaskOp::Difference(l, r)
        | GaussianSplattingMaskOp::SymmetricDifference(l, r) => {
            let c = operator_char(op_level(op));
            let t = level_operator(op_level(op));
            let close = seq![')'] + rest;
            lemma_lex_symbol_head(close, MaskToken::Close);
            assert(close.skip(1) =~= rest);
            lemma_lex_render(*r, close);
            let after_op = seq![' '] + render(*r) + close;
            lemma_lex_blank_head(after_op);
            assert(after_op.skip(1) =~= render(*r) + close);
            let at_op = seq![c] + after_op;
            lemma_lex_symbol_head(at_op, t);
            assert(at_op.skip(1) =~= after_op);
            let mid = seq![' '] + at_op;
            lemma_lex_blank_head(mid);
            assert(mid.skip(1) =~= at_op);
            lemma_lex_render(*l, mid);
            lemma_lex_symbol_head(s, MaskToken::Open);
            assert(s.skip(1) =~= render(*l) + mid);
            assert(s =~= seq!['('] + (render(*l) + mid));
            if kinds_of(lex(rest)) is Some {
                let k = kinds_of(lex(rest))->Some_0;
                assert(seq![MaskToken::Open] + (op_tokens(*l) + (seq![t] + (op_tokens(*r) + (seq![MaskToken::Close] + k))))
                    =~= op_tokens(op) + k);
            }
        },
    }
}

/// Lifting a parse at one precedence level to the levels below it, when the next token is
/// none of their operators.
proof fn lemma_parse_lift(toks: Seq<MaskToken>, m: nat, m0: nat, a: int, x: GaussianSplattingMaskOp, b: int)
    requires
        m <= m0 <= 4,
        0 <= a < b <= toks.len(),
        parse_level(toks, m0, a) == Ok::<(GaussianSplattingMaskOp, int), int>((x, b)),
        forall|k: nat| m <= k < m0 ==> !(b < toks.len() && toks[b] == #[trigger] level_operator(k)),
    ensures
        parse_level(toks, m, a) == Ok::<(GaussianSplattingMaskOp, int), int>((x, b)),
    decreases m0 - m,
{
    if m < m0 {
        lemma_parse_lift(toks, m + 1, m0, a, x, b);
        assert(!(b < toks.len() && toks[b] == level_operator(m)));
        assert(parse_rest(toks, m, b, x) == Ok::<(GaussianSplattingMaskOp, int), int>((x, b)));
        assert(parse_level(toks, m + 1, a) == Ok::<(GaussianSplattingMaskOp, int), int>((x, b)));
    }
}

/// The tokens of a tree, wherever they stand, parse as one factor back to the tree.
proof fn lemma_parse_tokens(op: GaussianSplattingMaskOp, toks: Seq<MaskToken>, i: int)
    requires
        0 <= i,
        i + op_tokens(op).len() <= toks.len(),
        toks.subrange(i, i + op_tokens(op).len()) == op_tokens(op),
    ensures
        parse_level(toks, 4, i) == Ok::<(GaussianSplattingMaskOp, int), int>((op, i + op_tokens(op).len())),
    decreases op,
{
    let n = op_tokens(op).len() as int;
    assert(toks[i] == op_tokens(op)[0]);
    match op {
        GaussianSplattingMaskOp::Shape(_) => {},
        GaussianSplattingMaskOp::Complement(x) => {
            let w = op_tokens(op);
            assert(w == seq![MaskToken::Complement] + op_tokens(*x));
            assert(w.subrange(1, 1 + op_tokens(*x).len() as int) =~= op_tokens(*x));
            lemma_part(toks, i, w, 1, op_tokens(*x));
            lemma_parse_tokens(*x, toks, i + 1);
        },
        GaussianSplattingMaskOp::Union(l, r)
        | GaussianSplattingMaskOp::Intersection(l, r)
        | GaussianSplattingMaskOp::Difference(l, r)
        | GaussianSplattingMaskOp::SymmetricDifference(l, r) => {
            let lv = op_level(op);
            let nl = op_tokens(*l).len() as int;
            let nr = op_tokens(*r).len() as int;
            let j = i + 1 + nl;
            let k = j + 1 + nr;
            assert(n == nl + nr + 3);
            let w = op_tokens(op);
            assert(w == seq![MaskToken::Open] + op_tokens(*l) + seq![level_operator(lv)] + op_tokens(*r) + seq![MaskToken::Close]);
            assert(w.subrange(1, 1 + nl) =~= op_tokens(*l));
            assert(w.subrange(2 + nl, 2 + nl + nr) =~= op_tokens(*r));
            lemma_part(toks, i, w, 1, op_tokens(*l));
            lemma_part(toks, i, w, 2 + nl, op_tokens(*r));
            assert(toks[j] == toks.subrange(i, i + n)[1 + nl]);
            assert(toks[k] == toks.subrange(i, i + n)[n - 1]);
            assert(toks[j] == level_operator(lv));
            assert(toks[k] == MaskToken::Close);
            lemma_parse_tokens(*l, toks, i + 1);
            lemma_parse_tokens(*r, toks, j + 1);
            assert(op_tokens(*l).len() >= 1 && op_tokens(*r).len() >= 1) by {
                assert(op_tokens(*l).len() > 0 && op_tokens(*r).len() > 0) by {
                    lemma_op_tokens_nonempty(*l);
                    lemma_op_tokens_nonempty(*r);
                }
            }
            lemma_parse_lift(toks, lv + 1, 4, i + 1, *l, j);
            lemma_parse_lift(toks, lv + 1, 4, j + 1, *r, k);
            assert(combine(lv, *l, *r) == op);
            assert(parse_rest(toks, lv, k, op) == Ok::<(GaussianSplattingMaskOp, int), int>((op, k)));
            assert(parse_rest(toks, lv, j, *l) == Ok::<(GaussianSplattingMaskOp, int), int>((op, k)));
            assert(parse_level(toks, lv, i + 1) == Ok::<(GaussianSplattingMaskOp, int), int>((op, k)));
            lemma_parse_lift(toks, 0, lv, i + 1, op, k);
        },
    }
}

proof fn lemma_part(toks: Seq<MaskToken>, i: int, w: Seq<MaskToken>, off: int, p: Seq<MaskToken>)
    requires
        0 <= i,
        i + w.len() <= toks.len(),
        toks.subrange(i, i + w.len()) == w,
        0 <= off,
        off + p.len() <= w.len(),
        w.subrange(off, off + p.len()) == p,
    ensures
        toks.subrange(i + off, i + off + p.len()) == p,
{
    assert forall|t: int| 0 <= t < p.len() implies toks.subrange(i + off, i + off + p.len())[t] == p[t] by {
        assert(toks.subrange(i, i + w.len())[off + t] == toks[i + off + t]);
        assert(w.subrange(off, off + p.len())[t] == w[off + t]);
    }
    assert(toks.subrange(i + off, i + off + p.len()) =~= p);
}

proof fn lemma_op_tokens_nonempty(op: GaussianSplattingMaskOp)
    ensures
        op_tokens(op).len() > 0,
{
}

/// Parsing is total on the language in this sense: every tree has a text, `render(op)`, that
/// parses back to it, and (by `lemma_parse_ignores_added_whitespace`) so does that text with
/// whitespace added between its tokens.
pub proof fn lemma_parse_render(op: GaussianSplattingMaskOp)
    ensures
        parse_spec(render(op)) == Ok::<Option<GaussianSplattingMaskOp>, MaskParseError>(Some(op)),
{
    let e = Seq::<char>::empty();
    lemma_lex_render(op, e);
    assert(render(op) + e =~= render(op));
    assert(lex(e) == Ok::<Seq<LexedToken>, MaskParseError>(seq![]));
    assert(token_kinds(seq![]) =~= Seq::<MaskToken>::empty());
    assert(op_tokens(op) + Seq::<MaskToken>::empty() =~= op_tokens(op));
    let toks = op_tokens(op);
    lemma_op_tokens_nonempty(op);
    assert(toks.subrange(0, toks.len() as int) =~= toks);
    lemma_parse_tokens(op, toks, 0);
    lemma_parse_lift(toks, 0, 4, 0, op, toks.len() as int);
}

/// An evaluation tree: the shape of a mask expression with each shape index replaced by a
/// reference into a table of shape data.
pub enum MaskOpTree<'a, S> {
    Union(Box<MaskOpTree<'a, S>>, Box<MaskOpTree<'a, S>>),
    Intersection(Box<MaskOpTree<'a, S>>, Box<MaskOpTree<'a, S>>),
    Difference(Box<MaskOpTree<'a, S>>, Box<MaskOpTree<'a, S>>),
    SymmetricDifference(Box<MaskOpTree<'a, S>>, Box<MaskOpTree<'a, S>>),
    Complement(Box<MaskOpTree<'a, S>>),
    Shape(&'a S),
}

/// Whether every shape index of `op` is below `shape_count`.
pub open spec fn shapes_in_range(op: GaussianSplattingMaskOp, shape_count: nat) -> bool {
    first_invalid_shape(op, shape_count) is None
}

/// Whether `tree` has the structure of `op`, with each `Shape(i)` referring to `shapes[i]`.
pub open spec fn tree_of<'a, S>(op: GaussianSplattingMaskOp, tree: MaskOpTree<'a, S>, shapes: Seq<S>) -> bool
    decreases op,
{
    match (op, tree) {
        (GaussianSplattingMaskOp::Union(l, r), MaskOpTree::Union(tl, tr)) =>
            tree_of(*l, *tl, shapes) && tree_of(*r, *tr, shapes),
        (GaussianSplattingMaskOp::Intersection(l, r), MaskOpTree::Intersection(tl, tr)) =>
            tree_of(*l, *tl, shapes) && tree_of(*r, *tr, shapes),
        (GaussianSplattingMaskOp::Difference(l, r), MaskOpTree::Difference(tl, tr)) =>
            tree_of(*l, *tl, shapes) && tree_of(*r, *tr, shapes),
        (GaussianSplattingMaskOp::SymmetricDifference(l, r), MaskOpTree::SymmetricDifference(tl, tr)) =>
            tree_of(*l, *tl, shapes) && tree_of(*r, *tr, shapes),
        (GaussianSplattingMaskOp::Complement(x), MaskOpTree::Complement(tx)) => tree_of(*x, *tx, shapes),
        (GaussianSplattingMaskOp::Shape(i), MaskOpTree::Shape(s)) => i < shapes.len() && *s == shapes[i as int],
        _ => false,
    }
}

impl GaussianSplattingMaskOp {
    /// Builds the evaluation tree of this expression over `shapes`; no shape data is copied.
    pub fn to_tree<'a, S>(&self, shapes: &'a [S]) -> (t: MaskOpTree<'a, S>)
        requires
            shapes_in_range(*self, shapes@.len()),
        ensures
            tree_of(*self, t, shapes@),
        decreases self,
    {
        match self {
            GaussianSplattingMaskOp::Union(l, r) => MaskOpTree::Union(Box::new(l.to_tree(shapes)), Box::new(r.to_tree(shapes))),
            GaussianSplattingMaskOp::Intersection(l, r) => MaskOpTree::Intersection(
                Box::new(l.to_tree(shapes)),
                Box::new(r.to_tree(shapes)),
            ),
            GaussianSplattingMaskOp::Difference(l, r) => MaskOpTree::Difference(
                Box::new(l.to_tree(shapes)),
                Box::new(r.to_tree(shapes)),
            ),
            GaussianSplattingMaskOp::SymmetricDifference(l, r) => MaskOpTree::SymmetricDifference(
                Box::new(l.to_tree(shapes)),
                Box::new(r.to_tree(shapes)),
            ),
            GaussianSplattingMaskOp::Complement(x) => MaskOpTree::Complement(Box::new(x.to_tree(shapes))),
            GaussianSplattingMaskOp::Shape(i) => MaskOpTree::Shape(&shapes[*i]),
        }
    }
}


pub open spec fn error_kind_text(kind: MaskParseErrorKind) -> Seq<char> {
    match kind {
        MaskParseErrorKind::UnexpectedCharacter => "unexpected character"@,
        MaskParseErrorKind::NumberTooLarge => "shape index too large"@,
        MaskParseErrorKind::UnexpectedToken => "unexpected token"@,
        MaskParseErrorKind::UnexpectedEnd => "unexpected end of input"@,
    }
}

impl MaskParseError {
    /// A message for the editor: what went wrong and at which character index.
    pub fn message(&self) -> (r: String)
        ensures
            r@ == "Failed to parse mask operation: "@ + error_kind_text(self.kind) + " at position "@ + decimal(
                self.position as nat,
            ),
    {
        let what = match self.kind {
            MaskParseErrorKind::UnexpectedCharacter => "unexpected character",
            MaskParseErrorKind::NumberTooLarge => "shape index too large",
            MaskParseErrorKind::UnexpectedToken => "unexpected token",
            MaskParseErrorKind::UnexpectedEnd => "unexpected end of input",
        };
        let n = usize_text(self.position);
        String::from_str("Failed to parse mask operation: ").concat(what).concat(" at position ").concat(n.as_str())
    }
}

/// Why edited mask text cannot be evaluated.
#[derive(Clone, Copy, PartialEq, Eq, Structural, Debug)]
pub enum MaskEditError {
    /// The text is not a mask expression.
    Parse(MaskParseError),
    /// The expression names a shape that does not exist.
    ShapeIndex(usize),
}

impl MaskEditError {
    /// A message for the editor.
    pub fn message(&self) -> (r: String)
        ensures
            match *self {
                MaskEditError::Parse(e) => r@ == "Failed to parse mask operation: "@ + error_kind_text(e.kind)
                    + " at position "@ + decimal(e.position as nat),
                MaskEditError::ShapeIndex(i) => r@ == "Invalid shape index: "@ + decimal(i as nat),
            },
    {
        match self {
            MaskEditError::Parse(e) => e.message(),
            MaskEditError::ShapeIndex(i) => {
                let n = usize_text(*i);
                String::from_str("Invalid shape index: ").concat(n.as_str())
            },
        }
    }
}

/// Checks edited mask text against the current shapes. The mask is to be evaluated with the
/// result only when the text parses and every shape index exists; `Ok(None)` lifts the mask.
pub fn check_mask_code(op_code: &str, shape_count: usize) -> (r: Result<Option<GaussianSplattingMaskOp>, MaskEditError>)
    ensures
        match parse_spec(op_code@) {
            Err(e) => r == Err::<Option<GaussianSplattingMaskOp>, MaskEditError>(MaskEditError::Parse(e)),
            Ok(None) => r == Ok::<Option<GaussianSplattingMaskOp>, MaskEditError>(None),
            Ok(Some(t)) => match first_invalid_shape(t, shape_count as nat) {
                Some(i) => r == Err::<Option<GaussianSplattingMaskOp>, MaskEditError>(MaskEditError::ShapeIndex(i)),
                None => r == Ok::<Option<GaussianSplattingMaskOp>, MaskEditError>(Some(t)),
            },
        },
{
    match GaussianSplattingMaskOp::parse(op_code) {
        Err(e) => Err(MaskEditError::Parse(e)),
        Ok(None) => Ok(None),
        Ok(Some(t)) => match t.validate_shapes(shape_count) {
            Err(i) => Err(MaskEditError::ShapeIndex(i)),
            Ok(()) => Ok(Some(t)),
        },
    }
}

} // verus!
