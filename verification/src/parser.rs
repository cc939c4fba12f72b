//! The recursive-descent parser: a cursor over a finite token buffer, a
//! node-identity allocator, and the statement, expression and type grammars.
use vstd::prelude::*;
use vstd::string::StrSliceExecFns;
use vstd::string::StringExecFns;

use crate::ast::AssignKind;
use crate::ast::CallType;
use crate::ast::Expression;
use crate::ast::FuncBody;
use crate::ast::LiteralType;
use crate::ast::Statement;
use crate::ast::TypeKind;
use crate::ast::TypedToken;
use crate::ast::branch_ids;
use crate::ast::case_ids;
use crate::ast::eids;
use crate::ast::eids_seq;
use crate::ast::fbids;
use crate::ast::ids_inc;
use crate::ast::lemma_branch_ids_push;
use crate::ast::lemma_case_ids_push;
use crate::ast::lemma_eids_seq_push;
use crate::ast::lemma_ids_inc_concat;
use crate::ast::lemma_ids_inc_push;
use crate::ast::lemma_ids_inc_singleton;
use crate::ast::lemma_ids_inc_widen;
use crate::ast::lemma_sids_seq_push;
use crate::ast::sids;
use crate::ast::sids_seq;
use crate::diag::Diagnostic;
use crate::diag::ErrorCode;
use crate::token::LiteralKind;
use crate::token::Token;
use crate::token::TokenType;

verus! {

/// Names what char::is_uppercase returns for a character.
pub uninterp spec fn char_is_uppercase(c: char) -> bool;

/// Relies on char::is_uppercase: the result depends on the character alone.
#[verifier::external_body]
fn is_uppercase_char(c: char) -> (r: bool)
    ensures
        r == char_is_uppercase(c),
{
    c.is_uppercase()
}

/// A token buffer as the lexer must deliver it: finite and terminated by
/// exactly one end-of-input token.
pub open spec fn tokens_ok(toks: Seq<Token>) -> bool {
    &&& toks.len() >= 1
    &&& toks[toks.len() - 1].token == TokenType::Eof
    &&& forall|i: int| 0 <= i < toks.len() - 1 ==> (#[trigger] toks[i]).token != TokenType::Eof
}

/// The sentinel token that backward lookahead yields when it reaches past the
/// start of the buffer.
pub open spec fn is_sentinel(t: Token) -> bool {
    &&& t.token == TokenType::Eof
    &&& t.lexeme@ == "\0"@
    &&& t.value is None
    &&& t.line == 0
    &&& t.pos == (0usize, 0usize)
}

/// Whether a token category names a builtin type.
pub open spec fn is_builtin_type(t: TokenType) -> bool {
    ||| t == TokenType::AnyIdent
    ||| t == TokenType::BoolIdent
    ||| t == TokenType::CharIdent
    ||| t == TokenType::NullIdent
    ||| t == TokenType::VoidIdent
    ||| t == TokenType::ArrayIdent
    ||| t == TokenType::NumberIdent
    ||| t == TokenType::StringIdent
}

/// Whether a token category is a literal that can pin a type to its shape.
pub open spec fn is_literal_type(t: TokenType) -> bool {
    ||| t == TokenType::StringLit
    ||| t == TokenType::NumberLit
    ||| t == TokenType::CharLit
    ||| t == TokenType::NullLit
    ||| t == TokenType::TrueLit
    ||| t == TokenType::FalseLit
    ||| t == TokenType::ArrayLit
}

/// Whether a token category can open a type annotation.
pub open spec fn is_type_start(t: TokenType) -> bool {
    ||| t == TokenType::Less
    ||| t == TokenType::Pipe
    ||| t == TokenType::Ident
    ||| is_builtin_type(t)
    ||| is_literal_type(t)
}

/// The decoded payload of a token, or the null payload when it has none.
pub open spec fn payload_or_null(t: Token) -> LiteralKind {
    match t.value {
        Option::Some(v) => v,
        Option::None => LiteralKind::Null,
    }
}

/// The literal value a token decodes to: boolean and null literals decode to
/// fixed values, payload-carrying literals to their payload, any other
/// category to the any value; a payload-carrying literal without its payload
/// decodes to nothing.
pub open spec fn lit_of(t: Token) -> Option<LiteralType> {
    match t.token {
        TokenType::NumberLit => match t.value {
            Option::Some(LiteralKind::Number { value }) => Some(LiteralType::Number(value)),
            _ => None,
        },
        TokenType::StringLit => match t.value {
            Option::Some(LiteralKind::Str { value }) => Some(LiteralType::Str(value)),
            _ => None,
        },
        TokenType::CharLit => match t.value {
            Option::Some(LiteralKind::Char { value }) => Some(LiteralType::Char(value)),
            _ => None,
        },
        TokenType::TrueLit => Some(LiteralType::Boolean(true)),
        TokenType::FalseLit => Some(LiteralType::Boolean(false)),
        TokenType::NullLit => Some(LiteralType::Null),
        _ => Some(LiteralType::Any),
    }
}

/// The repeat count a loop statement takes from the token at its head: a
/// numeric literal's decoded value, clamped to one iteration when negative;
/// no count when the token is not a numeric literal.
pub open spec fn loop_count(t: Token) -> Option<usize> {
    if t.token == TokenType::NumberLit {
        match t.value {
            Option::Some(LiteralKind::Number { value }) => Some(
                if value < 0 {
                    1usize
                } else {
                    value as usize
                },
            ),
            _ => None,
        }
    } else {
        None
    }
}

/// Whether a token category is a literal value expression.
pub open spec fn is_value_literal(t: TokenType) -> bool {
    ||| t == TokenType::NumberLit
    ||| t == TokenType::StringLit
    ||| t == TokenType::CharLit
    ||| t == TokenType::TrueLit
    ||| t == TokenType::FalseLit
    ||| t == TokenType::NullLit
}

/// The literal value a decodable literal token carries; meaningful only where
/// `lit_of` yields a value.
pub open spec fn lit_value(t: Token) -> LiteralType {
    match lit_of(t) {
        Option::Some(v) => v,
        Option::None => LiteralType::Any,
    }
}

/// An atomic expression token: an identifier, or a literal that decodes.
pub open spec fn is_atom(t: Token) -> bool {
    ||| t.token == TokenType::Ident
    ||| (is_value_literal(t.token) && lit_of(t) is Some)
}

/// The expression node an atomic token parses to, stamped with `id`.
pub open spec fn atom_expr(t: Token, id: int) -> Expression {
    if t.token == TokenType::Ident {
        Expression::Var { id: id as usize, name: t }
    } else {
        Expression::Value { id: id as usize, value: lit_value(t) }
    }
}

/// Whether a token category continues a postfix chain.
pub open spec fn continues_postfix(t: TokenType) -> bool {
    ||| t == TokenType::Dot
    ||| t == TokenType::DblColon
    ||| t == TokenType::LeftParen
    ||| t == TokenType::LeftBracket
    ||| t == TokenType::Ident
}

/// Whether a token category is one of the flat class of binary operators.
pub open spec fn is_binary_op(t: TokenType) -> bool {
    ||| t == TokenType::Plus
    ||| t == TokenType::Minus
    ||| t == TokenType::Mult
    ||| t == TokenType::Divide
    ||| t == TokenType::Percent
    ||| t == TokenType::AndAnd
    ||| t == TokenType::Or
    ||| t == TokenType::Eq
    ||| t == TokenType::NotEq
    ||| t == TokenType::Greater
    ||| t == TokenType::GreaterOrEq
    ||| t == TokenType::Less
    ||| t == TokenType::LessOrEq
    ||| t == TokenType::Square
    ||| t == TokenType::And
}

/// Whether a token category is an assignment operator.
pub open spec fn is_assign_op(t: TokenType) -> bool {
    ||| t == TokenType::Assign
    ||| t == TokenType::PlusEq
    ||| t == TokenType::MinEq
    ||| t == TokenType::MultEq
    ||| t == TokenType::DivEq
}

/// Whether a token category is a prefix unary operator.
pub open spec fn is_unary_op(t: TokenType) -> bool {
    ||| t == TokenType::Not
    ||| t == TokenType::NotNot
    ||| t == TokenType::Queston
    ||| t == TokenType::Decr
    ||| t == TokenType::Increment
    ||| t == TokenType::Minus
}

/// The compound-assignment kind of an assignment operator.
pub open spec fn assign_kind_of(t: TokenType) -> AssignKind {
    if t == TokenType::PlusEq {
        AssignKind::Plus
    } else if t == TokenType::MinEq {
        AssignKind::Minus
    } else if t == TokenType::MultEq {
        AssignKind::Mult
    } else if t == TokenType::DivEq {
        AssignKind::Div
    } else {
        AssignKind::Normal
    }
}

/// Whether a token category continues a binary expression after an operand.
pub open spec fn continues_binary(t: TokenType) -> bool {
    continues_postfix(t) || is_binary_op(t)
}

/// Whether a token category continues an expression after an operand.
pub open spec fn continues_expr(t: TokenType) -> bool {
    continues_binary(t) || is_assign_op(t)
}

/// The token window of the minimal function literal: no parameters, an
/// expression body of one atomic value.
pub open spec fn func_lit_window(toks: Seq<Token>, c: int) -> bool {
    &&& toks[c].token == TokenType::Pipe
    &&& toks[c + 1].token == TokenType::Underscore
    &&& toks[c + 2].token == TokenType::Pipe
    &&& toks[c + 3].token == TokenType::Colon
    &&& is_atom(toks[c + 4])
    &&& toks[c + 5].token == TokenType::Semi
}

/// What that minimal function literal parses to.
pub open spec fn func_lit_result(e: Expression, toks: Seq<Token>, c: int, id0: int) -> bool {
    &&& e matches Expression::Func { id, body, params, is_async, .. } && id == id0 + 1 && (body
        matches FuncBody::Expression(b) && *b == atom_expr(toks[c + 4], id0)) && params@.len()
        == 0 && !is_async
}

/// Whether a token category opens a primary expression.
pub open spec fn starts_primary(t: TokenType) -> bool {
    ||| t == TokenType::Ident
    ||| t == TokenType::LeftBracket
    ||| t == TokenType::LeftParen
    ||| t == TokenType::Pipe
    ||| t == TokenType::Await
    ||| is_value_literal(t)
}

/// The declaration that both null-initialized variable forms parse to: one
/// bound name, a synthetic null type token positioned at the token after the
/// name, a null-literal initializer stamped `vid`, and no flags. The bare
/// form `x;` and the null-typed form `x: null;` yield this same shape, so
/// the two are value-equal whenever their tokens carry equal positions.
pub open spec fn null_var_stmt(s: Statement, name_tok: Token, pos_tok: Token, vid: usize) -> bool {
    &&& s matches Statement::Var { names, value_type, value, is_mut, is_pub, pub_names, is_func }
        && names@ =~= seq![name_tok] && pub_names@ =~= seq![name_tok] && value == Some(
        Expression::Value { id: vid, value: LiteralType::Null },
    ) && value_type.token.token == TokenType::NullIdent && value_type.token.lexeme@ == "null"@
        && value_type.token.value is None && value_type.token.line == name_tok.line
        && value_type.token.pos == pos_tok.pos && value_type.kind is None && !is_mut && !is_pub
        && !is_func
}

/// The token window of the canonical postfix chain: an atom, a method call
/// with one atomic argument, a struct-field access, and an array index with
/// one atomic index, followed by no further suffix.
pub open spec fn p5_window(toks: Seq<Token>, c: int) -> bool {
    &&& is_atom(toks[c])
    &&& toks[c + 1].token == TokenType::Dot
    &&& toks[c + 2].token == TokenType::Ident
    &&& toks[c + 3].token == TokenType::LeftParen
    &&& is_atom(toks[c + 4])
    &&& toks[c + 5].token == TokenType::RightParen
    &&& toks[c + 6].token == TokenType::Dot
    &&& toks[c + 7].token == TokenType::Ident
    &&& toks[c + 8].token == TokenType::LeftBracket
    &&& is_atom(toks[c + 9])
    &&& toks[c + 10].token == TokenType::RightBracket
    &&& !continues_postfix(toks[c + 11].token)
}

/// What that postfix chain parses to: left-to-right association, each suffix
/// wrapping the expression built so far — an array-index call wrapping a
/// struct-field call whose field name is a string-literal argument, wrapping
/// a method call applied to the leading atom.
pub open spec fn p5_result(e: Expression, toks: Seq<Token>, c: int, id0: int) -> bool {
    &&& e matches Expression::Call { id: ia, name: na, args: aa, call_type: ca } && ia == id0 + 6
        && ca == CallType::Array && aa@ =~= seq![atom_expr(toks[c + 9], id0 + 5)] && (*na
        matches Expression::Call { id: is_, name: ns, args: sa, call_type: cs } && is_ == id0 + 4
        && cs == CallType::Struct && sa@ =~= seq![
        Expression::Value { id: (id0 + 3) as usize, value: LiteralType::Str(toks[c + 7].lexeme) },
    ] && (*ns matches Expression::Method { id: im, name: nm, left: lm, args: ma } && im == id0 + 2
        && nm == toks[c + 2] && *lm == atom_expr(toks[c], id0) && ma@ =~= seq![
        atom_expr(toks[c + 4], id0 + 1),
    ]))
}

/// Duplicates a token list by value.
fn clone_tokens(v: &Vec<Token>) -> (r: Vec<Token>)
    ensures
        r@ == v@,
{
    let mut r: Vec<Token> = Vec::new();
    let mut i: usize = 0;
    while i < v.len()
        invariant
            i <= v@.len(),
            r@ =~= v@.subrange(0, i as int),
        decreases v@.len() - i,
    {
        r.push(v[i].clone());
        i += 1;
    }
    proof {
        assert(r@ =~= v@);
    }
    r
}

/// A recursive-descent parser over one token buffer. It owns its cursor and
/// its node-identity counter exclusively; no state is shared across parse
/// runs.
pub struct Parser {
    pub tokens: Vec<Token>,
    pub crnt: usize,
    pub id: usize,
}

impl Parser {
    /// The token under the cursor.
    pub open spec fn cur(self) -> Token {
        self.tokens@[self.crnt as int]
    }

    /// The cursor stands on a token of a well-formed buffer that is small
    /// enough for position arithmetic never to overflow.
    pub open spec fn pos_ok(self) -> bool {
        &&& tokens_ok(self.tokens@)
        &&& self.crnt < self.tokens@.len()
        &&& self.tokens@.len() <= usize::MAX as int / 4
    }

    /// Number of buffer positions from the cursor to the end; the termination
    /// measure of every grammar production.
    pub open spec fn remaining(self) -> int {
        self.tokens@.len() - self.crnt
    }

    /// Full well-formedness: a valid cursor position and an identity counter
    /// within its budget of two identities per consumed token.
    pub open spec fn wf(self) -> bool {
        &&& self.pos_ok()
        &&& self.id as int <= 2 * self.crnt as int + 2
    }

    /// The token `n` positions ahead of the cursor; meaningful only while
    /// that position is inside the buffer.
    pub open spec fn ahead(self, n: int) -> Token {
        self.tokens@[self.crnt + n]
    }

    /// What the backward peek `prev(n)` yields: the token `n` positions back,
    /// or the sentinel when `n` exceeds the history.
    pub open spec fn prev_is(self, n: int, t: Token) -> bool {
        if self.crnt >= n {
            t == self.tokens@[self.crnt - n]
        } else {
            is_sentinel(t)
        }
    }

    /// A fresh parser over one token buffer, with the cursor at the start and
    /// the identity counter at zero.
    pub fn new(tokens: Vec<Token>) -> (p: Parser)
        requires
            tokens_ok(tokens@),
            tokens@.len() <= usize::MAX as int / 4,
        ensures
            p.wf(),
            p.tokens == tokens,
            p.crnt == 0,
            p.id == 0,
    {
        Parser { tokens, crnt: 0, id: 0 }
    }

    /// Returns the current token; never out of bounds, since the buffer ends
    /// in an end-of-input token that is never advanced past.
    pub fn peek(&self) -> (t: Token)
        requires
            self.pos_ok(),
        ensures
            t == self.cur(),
    {
        self.tokens[self.crnt].clone()
    }

    /// Whether the current token has the given category.
    pub fn check(&self, token: TokenType) -> (r: bool)
        requires
            self.pos_ok(),
        ensures
            r == (self.cur().token == token),
    {
        self.tokens[self.crnt].token == token
    }

    /// Whether the current token has the given category, always false at
    /// end-of-input.
    pub fn is_token(&self, token: TokenType) -> (r: bool)
        requires
            self.pos_ok(),
        ensures
            r == (self.cur().token != TokenType::Eof && self.cur().token == token),
    {
        !self.check(TokenType::Eof) && self.check(token)
    }

    /// Whether the current token matches one of the given categories, always
    /// false at end-of-input.
    pub fn are_tokens(&self, tokens: &Vec<TokenType>) -> (r: bool)
        requires
            self.pos_ok(),
        ensures
            r == (self.cur().token != TokenType::Eof && tokens@.contains(self.cur().token)),
    {
        if self.check(TokenType::Eof) {
            return false;
        }
        let mut i: usize = 0;
        while i < tokens.len()
            invariant
                i <= tokens@.len(),
                forall|k: int| 0 <= k < i ==> tokens@[k] != self.cur().token,
            decreases tokens@.len() - i,
        {
            if self.check(tokens[i]) {
                assert(tokens@.contains(self.cur().token));
                return true;
            }
            i += 1;
        }
        false
    }

    /// Moves forward one position unless already at end-of-input; returns the
    /// just-consumed token, and is idempotent at end-of-input.
    pub fn advance(&mut self) -> (t: Token)
        requires
            old(self).pos_ok(),
        ensures
            final(self).pos_ok(),
            final(self).tokens == old(self).tokens,
            final(self).id == old(self).id,
            old(self).cur().token != TokenType::Eof ==> final(self).crnt == old(self).crnt + 1
                && t == old(self).cur(),
            old(self).cur().token == TokenType::Eof ==> final(self).crnt == old(self).crnt
                && final(self).prev_is(1, t),
    {
        if !self.check(TokenType::Eof) {
            self.crnt = self.crnt + 1;
        }
        self.prev(1)
    }

    /// Moves back one position, clamped at position zero; returns the token
    /// then one position back.
    pub fn retreat(&mut self) -> (t: Token)
        requires
            old(self).pos_ok(),
        ensures
            final(self).pos_ok(),
            final(self).tokens == old(self).tokens,
            final(self).id == old(self).id,
            old(self).crnt > 0 ==> final(self).crnt == old(self).crnt - 1,
            old(self).crnt == 0 ==> final(self).crnt == 0,
            final(self).prev_is(1, t),
    {
        if self.crnt > 0 {
            self.crnt = self.crnt - 1;
        }
        self.prev(1)
    }

    /// The token `back` positions behind the cursor; out-of-history lookups
    /// yield a synthetic end-of-input sentinel on line zero instead of
    /// failing, which backward lookahead relies on.
    pub fn prev(&self, back: usize) -> (t: Token)
        requires
            self.pos_ok(),
        ensures
            self.prev_is(back as int, t),
    {
        if self.crnt < back {
            return Token {
                token: TokenType::Eof,
                lexeme: String::from_str("\0"),
                value: Option::None,
                line: 0,
                pos: (0, 0),
            };
        }
        self.tokens[self.crnt - back].clone()
    }

    /// The token `ahead` positions after the cursor, clamped to the final
    /// end-of-input token.
    pub fn lookahead(&self, ahead: usize) -> (t: Token)
        requires
            self.pos_ok(),
        ensures
            self.crnt + ahead < self.tokens@.len() ==> t == self.tokens@[self.crnt + ahead],
            self.crnt + ahead >= self.tokens@.len() ==> t == self.tokens@[self.tokens@.len() - 1],
    {
        let last = self.tokens.len() - 1;
        if ahead < self.tokens.len() - self.crnt {
            self.tokens[self.crnt + ahead].clone()
        } else {
            self.tokens[last].clone()
        }
    }

    /// Returns the next node identity and increments the counter.
    pub fn id(&mut self) -> (r: usize)
        requires
            old(self).id < usize::MAX,
        ensures
            final(self).tokens == old(self).tokens,
            final(self).crnt == old(self).crnt,
            final(self).id == old(self).id + 1,
            r == old(self).id,
    {
        self.id = self.id + 1;
        self.id - 1
    }

    /// Consumes the current token if it matches the given category.
    pub fn if_token_consume(&mut self, token: TokenType) -> (r: bool)
        requires
            old(self).pos_ok(),
        ensures
            final(self).pos_ok(),
            final(self).tokens == old(self).tokens,
            final(self).id == old(self).id,
            r == (old(self).cur().token != TokenType::Eof && old(self).cur().token == token),
            r ==> final(self).crnt == old(self).crnt + 1,
            !r ==> *final(self) == *old(self),
    {
        if self.is_token(token) {
            self.advance();
            true
        } else {
            false
        }
    }

    /// Advances past the current token if it matches the given category.
    pub fn if_token_advance(&mut self, token: TokenType) -> (r: bool)
        requires
            old(self).pos_ok(),
        ensures
            final(self).pos_ok(),
            final(self).tokens == old(self).tokens,
            final(self).id == old(self).id,
            r == (old(self).cur().token != TokenType::Eof && old(self).cur().token == token),
            r ==> final(self).crnt == old(self).crnt + 1,
            !r ==> *final(self) == *old(self),
    {
        if self.is_token(token) {
            self.advance();
            true
        } else {
            false
        }
    }

    /// Builds the fatal diagnostic for the current position.
    pub fn throw_error(&self, code: ErrorCode, args: Vec<String>) -> (d: Diagnostic)
        requires
            self.pos_ok(),
        ensures
            d.code == code,
            d.line == self.cur().line,
            d.pos == self.cur().pos,
            d.args == args,
    {
        let t = self.peek();
        Diagnostic { code, line: t.line, pos: t.pos, args }
    }

    /// Consumes and returns the current token if it matches `t`; otherwise
    /// raises a diagnostic naming `t`'s display string.
    pub fn consume(&mut self, t: TokenType) -> (r: Result<Token, Diagnostic>)
        requires
            old(self).pos_ok(),
        ensures
            final(self).pos_ok(),
            final(self).tokens == old(self).tokens,
            final(self).id == old(self).id,
            (r is Ok) == (old(self).cur().token != TokenType::Eof && old(self).cur().token == t),
            r matches Ok(tok) ==> tok == old(self).cur() && final(self).crnt == old(self).crnt + 1,
            r matches Err(d) ==> *final(self) == *old(self) && d.code == ErrorCode::UnexpectedToken
                && d.line == old(self).cur().line && d.pos == old(self).cur().pos && d.args@.len()
                == 1 && d.args@[0]@ == crate::token::token_display(t),
    {
        if self.if_token_advance(t) {
            Ok(self.prev(1))
        } else {
            Err(self.throw_error(ErrorCode::UnexpectedToken, vec![t.to_string()]))
        }
    }

    /// Consumes the current token if it matches one of the given categories,
    /// first match wins; otherwise raises a diagnostic.
    pub fn consume_some(&mut self, ts: &Vec<TokenType>) -> (r: Result<Token, Diagnostic>)
        requires
            old(self).pos_ok(),
        ensures
            final(self).pos_ok(),
            final(self).tokens == old(self).tokens,
            final(self).id == old(self).id,
            (r is Ok) == (old(self).cur().token != TokenType::Eof && ts@.contains(
                old(self).cur().token,
            )),
            r matches Ok(tok) ==> tok == old(self).cur() && final(self).crnt == old(self).crnt + 1,
            r matches Err(d) ==> *final(self) == *old(self) && d.code == ErrorCode::UnexpectedToken
                && d.args@.len() == 1,
    {
        let mut i: usize = 0;
        while i < ts.len()
            invariant
                i <= ts@.len(),
                forall|k: int| 0 <= k < i ==> ts@[k] != self.cur().token || self.cur().token
                    == TokenType::Eof,
                *self == *old(self),
            decreases ts@.len() - i,
        {
            if self.if_token_advance(ts[i]) {
                assert(ts@.contains(old(self).cur().token));
                return Ok(self.prev(1));
            }
            i += 1;
        }
        Err(self.throw_error(ErrorCode::UnexpectedToken, vec![self.prev(1).lexeme]))
    }

    /// Whether the current token is a literal value.
    pub fn is_literal(&self) -> (r: bool)
        requires
            self.pos_ok(),
        ensures
            r == (self.cur().token != TokenType::Eof && (self.cur().token == TokenType::NumberLit
                || self.cur().token == TokenType::StringLit || self.cur().token
                == TokenType::CharLit || self.cur().token == TokenType::TrueLit
                || self.cur().token == TokenType::FalseLit || self.cur().token
                == TokenType::NullLit)),
    {
        let ops: Vec<TokenType> = vec![
            TokenType::NumberLit,
            TokenType::StringLit,
            TokenType::CharLit,
            TokenType::TrueLit,
            TokenType::FalseLit,
            TokenType::NullLit,
        ];
        let r = self.are_tokens(&ops);
        proof {
            assert(ops@[0] == TokenType::NumberLit);
            assert(ops@[1] == TokenType::StringLit);
            assert(ops@[2] == TokenType::CharLit);
            assert(ops@[3] == TokenType::TrueLit);
            assert(ops@[4] == TokenType::FalseLit);
            assert(ops@[5] == TokenType::NullLit);
        }
        r
    }

    /// Whether the current token's lexeme starts with an uppercase character.
    pub fn is_uppercase_ident(&self) -> (r: bool)
        requires
            self.pos_ok(),
        ensures
            r == (self.cur().lexeme@.len() > 0 && char_is_uppercase(self.cur().lexeme@[0])),
    {
        let t = self.peek();
        let n = t.lexeme.as_str().unicode_len();
        if n == 0 {
            false
        } else {
            let c = t.lexeme.as_str().get_char(0);
            is_uppercase_char(c)
        }
    }

    /// Consumes an identifier whose lexeme follows the enum naming convention
    /// of an uppercase first character.
    pub fn consume_uppercase_ident(&mut self) -> (r: Result<Token, Diagnostic>)
        requires
            old(self).pos_ok(),
        ensures
            final(self).pos_ok(),
            final(self).tokens == old(self).tokens,
            final(self).id == old(self).id,
            (r is Ok) == (old(self).cur().lexeme@.len() > 0 && char_is_uppercase(
                old(self).cur().lexeme@[0],
            ) && old(self).cur().token == TokenType::Ident),
            r matches Ok(tok) ==> tok == old(self).cur() && final(self).crnt == old(self).crnt + 1,
            r matches Err(d) ==> *final(self) == *old(self) && d.code == (
            if old(self).cur().lexeme@.len() > 0 && char_is_uppercase(old(self).cur().lexeme@[0]) {
                ErrorCode::UnexpectedToken
            } else {
                ErrorCode::ExpectedUppercaseIdentifier
            }),
    {
        let token = self.peek();
        if self.is_uppercase_ident() {
            self.consume(TokenType::Ident)?;
            return Ok(token);
        }
        Err(
            self.throw_error(
                ErrorCode::ExpectedUppercaseIdentifier,
                vec![String::from_str("uppercase Ident")],
            ),
        )
    }

    /// Parses a builtin type name into a named type descriptor.
    pub fn parse_builtin_type(&mut self) -> (r: Result<TypedToken, Diagnostic>)
        requires
            old(self).pos_ok(),
        ensures
            final(self).pos_ok(),
            final(self).tokens == old(self).tokens,
            final(self).id == old(self).id,
            (r is Ok) == is_builtin_type(old(self).cur().token),
            r matches Ok(tt) ==> tt.token == old(self).cur() && tt.kind == Some(
                TypeKind::Var { name: old(self).cur() },
            ) && final(self).crnt == old(self).crnt + 1,
            r matches Err(d) ==> *final(self) == *old(self) && d.code
                == ErrorCode::UnexpectedToken,
    {
        let ops: Vec<TokenType> = vec![
            TokenType::AnyIdent,
            TokenType::BoolIdent,
            TokenType::CharIdent,
            TokenType::NullIdent,
            TokenType::VoidIdent,
            TokenType::ArrayIdent,
            TokenType::NumberIdent,
            TokenType::StringIdent,
        ];
        proof {
            assert(ops@[0] == TokenType::AnyIdent);
            assert(ops@[1] == TokenType::BoolIdent);
            assert(ops@[2] == TokenType::CharIdent);
            assert(ops@[3] == TokenType::NullIdent);
            assert(ops@[4] == TokenType::VoidIdent);
            assert(ops@[5] == TokenType::ArrayIdent);
            assert(ops@[6] == TokenType::NumberIdent);
            assert(ops@[7] == TokenType::StringIdent);
        }
        let token = self.consume_some(&ops)?;
        let name = token.clone();
        Ok(TypedToken { token, kind: Some(TypeKind::Var { name }) })
    }

    /// Parses a plain identifier into a named user type descriptor.
    pub fn parse_ident_type(&mut self) -> (r: Result<TypedToken, Diagnostic>)
        requires
            old(self).pos_ok(),
        ensures
            final(self).pos_ok(),
            final(self).tokens == old(self).tokens,
            final(self).id == old(self).id,
            (r is Ok) == (old(self).cur().token == TokenType::Ident),
            r matches Ok(tt) ==> tt.token == old(self).cur() && tt.kind == Some(
                TypeKind::Var { name: old(self).cur() },
            ) && final(self).crnt == old(self).crnt + 1,
            r matches Err(d) ==> *final(self) == *old(self) && d.code
                == ErrorCode::UnexpectedToken,
    {
        let token = self.consume(TokenType::Ident)?;
        let name = token.clone();
        Ok(TypedToken { token, kind: Some(TypeKind::Var { name }) })
    }

    /// Parses a literal token into a type descriptor pinned to that
    /// literal's shape; a non-literal token is returned verbatim.
    pub fn parse_literal_type(&mut self) -> (tt: TypedToken)
        requires
            old(self).pos_ok(),
        ensures
            final(self).pos_ok(),
            final(self).tokens == old(self).tokens,
            final(self).id == old(self).id,
            tt.token == old(self).cur(),
            is_literal_type(old(self).cur().token) ==> final(self).crnt == old(self).crnt + 1
                && tt.kind == Some(TypeKind::Value { kind: payload_or_null(old(self).cur()) }),
            !is_literal_type(old(self).cur().token) ==> *final(self) == *old(self) && tt.kind
                is None,
    {
        let token = self.peek();
        match token.token {
            TokenType::StringLit | TokenType::NumberLit | TokenType::CharLit | TokenType::TrueLit
                | TokenType::FalseLit | TokenType::NullLit | TokenType::ArrayLit => {
                self.advance();
                let kv = match &token.value {
                    Option::Some(v) => v.clone(),
                    Option::None => LiteralKind::Null,
                };
                TypedToken { token, kind: Some(TypeKind::Value { kind: kv }) }
            },
            _ => TypedToken { token, kind: None },
        }
    }

    /// Parses a function type: parameter types between pipes, then one
    /// return type.
    pub fn parse_func_type(&mut self) -> (r: Result<TypedToken, Diagnostic>)
        requires
            old(self).pos_ok(),
        ensures
            final(self).pos_ok(),
            final(self).tokens == old(self).tokens,
            final(self).id == old(self).id,
            old(self).crnt <= final(self).crnt,
            r is Ok ==> old(self).cur().token == TokenType::Pipe && final(self).crnt > old(
                self,
            ).crnt,
            r matches Ok(tt) ==> tt.token.token == TokenType::FuncIdent && (tt.kind matches Some(
                TypeKind::Func { .. },
            )),
            old(self).cur().token == TokenType::Pipe && old(self).ahead(1).token
                == TokenType::Pipe && is_builtin_type(old(self).ahead(2).token) ==> (r matches Ok(
                tt,
            ) && (tt.kind matches Some(TypeKind::Func { params, ret }) && params@.len() == 0
                && *ret == (TypeKind::Var { name: old(self).ahead(2) })) && final(self).crnt
                == old(self).crnt + 3),
            old(self).cur().token == TokenType::Pipe && is_builtin_type(old(self).ahead(1).token)
                && old(self).ahead(2).token == TokenType::Pipe && is_builtin_type(
                old(self).ahead(3).token,
            ) ==> (r matches Ok(tt) && (tt.kind matches Some(TypeKind::Func { params, ret })
                && params@ =~= seq![TypeKind::Var { name: old(self).ahead(1) }] && *ret
                == (TypeKind::Var { name: old(self).ahead(3) })) && final(self).crnt == old(
                self,
            ).crnt + 4),
        decreases old(self).remaining(), 0int,
    {
        self.consume(TokenType::Pipe)?;
        let mut params: Vec<TypeKind> = Vec::new();
        while !self.if_token_consume(TokenType::Pipe)
            invariant
                self.pos_ok(),
                self.tokens == old(self).tokens,
                self.id == old(self).id,
                old(self).crnt < self.crnt,
                old(self).cur().token == TokenType::Pipe && old(self).ahead(1).token
                    == TokenType::Pipe ==> params@.len() == 0 && self.crnt == old(self).crnt + 1,
                (old(self).cur().token == TokenType::Pipe && is_builtin_type(
                    old(self).ahead(1).token,
                ) && old(self).ahead(2).token == TokenType::Pipe) ==> ((params@.len() == 0
                    && self.crnt == old(self).crnt + 1) || (params@ =~= seq![
                    TypeKind::Var { name: old(self).ahead(1) },
                ] && self.crnt == old(self).crnt + 2)),
            decreases self.remaining(),
        {
            let param = self.consume_type()?;
            match param.kind {
                Some(k) => params.push(k),
                None => params.push(TypeKind::Var { name: param.token }),
            }
            if !self.if_token_consume(TokenType::Comma) && !self.is_token(TokenType::Pipe) {
                return Err(
                    self.throw_error(ErrorCode::UnexpectedToken, vec![self.peek().lexeme]),
                );
            }
        }
        let ret = self.consume_type()?;
        let TypedToken { token: rtok, kind: rkind } = ret;
        let rk = match rkind {
            Some(k) => k,
            None => TypeKind::Var { name: rtok },
        };
        let here = self.peek();
        Ok(
            TypedToken {
                token: Token {
                    token: TokenType::FuncIdent,
                    lexeme: String::from_str("func_type"),
                    value: Option::None,
                    line: here.line,
                    pos: here.pos,
                },
                kind: Some(TypeKind::Func { params, ret: Box::new(rk) }),
            },
        )
    }

    /// Parses an array type: an optional parenthesized list of static
    /// dimension types, the element type, then a closing angle bracket.
    pub fn parse_array_type(&mut self) -> (r: Result<TypedToken, Diagnostic>)
        requires
            old(self).pos_ok(),
        ensures
            final(self).pos_ok(),
            final(self).tokens == old(self).tokens,
            final(self).id == old(self).id,
            old(self).crnt <= final(self).crnt,
            r is Ok ==> old(self).cur().token == TokenType::Less && final(self).crnt > old(
                self,
            ).crnt,
            r matches Ok(tt) ==> tt.token.token == TokenType::ArrayIdent && (tt.kind matches Some(
                TypeKind::Array { .. },
            )),
            old(self).cur().token == TokenType::Less && is_builtin_type(old(self).ahead(1).token)
                && old(self).ahead(2).token == TokenType::Greater ==> (r matches Ok(tt) && (
            tt.kind matches Some(TypeKind::Array { kind, statics }) && statics is None && *kind
                == (TypeKind::Var { name: old(self).ahead(1) })) && final(self).crnt == old(
                self,
            ).crnt + 3),
            old(self).cur().token == TokenType::Less && old(self).ahead(1).token
                == TokenType::LeftParen && is_builtin_type(old(self).ahead(2).token) && old(
                self,
            ).ahead(3).token == TokenType::RightParen && is_builtin_type(old(self).ahead(4).token)
                && old(self).ahead(5).token == TokenType::Greater ==> (r matches Ok(tt) && (
            tt.kind matches Some(TypeKind::Array { kind, statics }) && (statics matches Some(sv)
                && sv@ =~= seq![TypeKind::Var { name: old(self).ahead(2) }]) && *kind
                == (TypeKind::Var { name: old(self).ahead(4) })) && final(self).crnt == old(
                self,
            ).crnt + 6),
        decreases old(self).remaining(), 0int,
    {
        self.consume(TokenType::Less)?;
        if self.if_token_consume(TokenType::LeftParen) {
            let mut statics: Vec<TypeKind> = Vec::new();
            while !self.if_token_consume(TokenType::RightParen)
                invariant
                    self.pos_ok(),
                    self.tokens == old(self).tokens,
                    self.id == old(self).id,
                    old(self).crnt < self.crnt,
                    (old(self).cur().token == TokenType::Less && old(self).ahead(1).token
                        == TokenType::LeftParen && is_builtin_type(old(self).ahead(2).token)
                        && old(self).ahead(3).token == TokenType::RightParen) ==> ((
                    statics@.len() == 0 && self.crnt == old(self).crnt + 2) || (statics@ =~= seq![
                        TypeKind::Var { name: old(self).ahead(2) },
                    ] && self.crnt == old(self).crnt + 3)),
                decreases self.remaining(),
            {
                let static_size = self.consume_type()?;
                match static_size.kind {
                    Some(k) => statics.push(k),
                    None => statics.push(TypeKind::Var { name: static_size.token }),
                }
                if !self.if_token_consume(TokenType::Comma) && !self.is_token(
                    TokenType::RightParen,
                ) {
                    return Err(
                        self.throw_error(ErrorCode::UnexpectedToken, vec![self.peek().lexeme]),
                    );
                }
            }
            let typ = self.consume_type()?;
            self.consume(TokenType::Greater)?;
            let TypedToken { token: etok, kind: ekind } = typ;
            let lex = etok.lexeme.clone();
            let ek = match ekind {
                Some(k) => k,
                None => TypeKind::Var { name: etok },
            };
            let here = self.peek();
            return Ok(
                TypedToken {
                    token: Token {
                        token: TokenType::ArrayIdent,
                        lexeme: lex,
                        value: Option::None,
                        line: here.line,
                        pos: here.pos,
                    },
                    kind: Some(
                        TypeKind::Array { kind: Box::new(ek), statics: Some(statics) },
                    ),
                },
            );
        }
        let typ = self.consume_type()?;
        self.consume(TokenType::Greater)?;
        let TypedToken { token: etok, kind: ekind } = typ;
        let lex = etok.lexeme.clone();
        let ek = match ekind {
            Some(k) => k,
            None => TypeKind::Var { name: etok },
        };
        let here = self.peek();
        Ok(
            TypedToken {
                token: Token {
                    token: TokenType::ArrayIdent,
                    lexeme: lex,
                    value: Option::None,
                    line: here.line,
                    pos: here.pos,
                },
                kind: Some(TypeKind::Array { kind: Box::new(ek), statics: None }),
            },
        )
    }

    /// Parses a type annotation, dispatching on the next token; a token that
    /// opens no type is returned verbatim, deferring the error to the next
    /// consumer.
    pub fn consume_type(&mut self) -> (r: Result<TypedToken, Diagnostic>)
        requires
            old(self).pos_ok(),
        ensures
            final(self).pos_ok(),
            final(self).tokens == old(self).tokens,
            final(self).id == old(self).id,
            old(self).crnt <= final(self).crnt,
            r matches Ok(tt) ==> (final(self).crnt == old(self).crnt ==> !is_type_start(
                old(self).cur().token,
            ) && tt.token == old(self).cur() && tt.kind is None),
            old(self).cur().token == TokenType::Ident ==> (r matches Ok(tt) && tt.token == old(
                self,
            ).cur() && tt.kind == Some(TypeKind::Var { name: old(self).cur() }) && final(self).crnt
                == old(self).crnt + 1),
            is_builtin_type(old(self).cur().token) ==> (r matches Ok(tt) && tt.token == old(
                self,
            ).cur() && tt.kind == Some(TypeKind::Var { name: old(self).cur() }) && final(self).crnt
                == old(self).crnt + 1),
            is_literal_type(old(self).cur().token) ==> (r matches Ok(tt) && tt.token == old(
                self,
            ).cur() && tt.kind == Some(TypeKind::Value { kind: payload_or_null(old(self).cur()) })
                && final(self).crnt == old(self).crnt + 1),
            r matches Ok(tt) ==> (old(self).cur().token == TokenType::Less ==> tt.token.token
                == TokenType::ArrayIdent && (tt.kind matches Some(TypeKind::Array { .. }))),
            r matches Ok(tt) ==> (old(self).cur().token == TokenType::Pipe ==> tt.token.token
                == TokenType::FuncIdent && (tt.kind matches Some(TypeKind::Func { .. }))),
            !is_type_start(old(self).cur().token) ==> (r matches Ok(tt) && tt.token == old(
                self,
            ).cur() && tt.kind is None && *final(self) == *old(self)),
            old(self).cur().token == TokenType::Pipe && old(self).ahead(1).token
                == TokenType::Pipe && is_builtin_type(old(self).ahead(2).token) ==> (r matches Ok(
                tt,
            ) && (tt.kind matches Some(TypeKind::Func { params, ret }) && params@.len() == 0
                && *ret == (TypeKind::Var { name: old(self).ahead(2) })) && final(self).crnt
                == old(self).crnt + 3),
            old(self).cur().token == TokenType::Less && is_builtin_type(old(self).ahead(1).token)
                && old(self).ahead(2).token == TokenType::Greater ==> (r matches Ok(tt) && (
            tt.kind matches Some(TypeKind::Array { kind, statics }) && statics is None && *kind
                == (TypeKind::Var { name: old(self).ahead(1) })) && final(self).crnt == old(
                self,
            ).crnt + 3),
        decreases old(self).remaining(), 1int,
    {
        let t = self.peek();
        match t.token {
            TokenType::Less => self.parse_array_type(),
            TokenType::Pipe => self.parse_func_type(),
            TokenType::StringLit | TokenType::NumberLit | TokenType::CharLit | TokenType::NullLit
                | TokenType::TrueLit | TokenType::ArrayLit | TokenType::FalseLit => Ok(
                self.parse_literal_type(),
            ),
            TokenType::Ident => self.parse_ident_type(),
            TokenType::AnyIdent | TokenType::BoolIdent | TokenType::CharIdent
                | TokenType::NullIdent | TokenType::VoidIdent | TokenType::ArrayIdent
                | TokenType::NumberIdent | TokenType::StringIdent => self.parse_builtin_type(),
            _ => Ok(TypedToken { token: t, kind: None }),
        }
    }

    /// Decodes a literal token into the value it carries; a literal whose
    /// payload is missing is a malformed-literal failure.
    pub fn to_value_type(&self, token: Token) -> (r: Result<LiteralType, Diagnostic>)
        requires
            self.pos_ok(),
        ensures
            (r is Ok) == (lit_of(token) is Some),
            r matches Ok(v) ==> lit_of(token) == Some(v),
            r matches Err(d) ==> d.code == ErrorCode::MalformedLiteral && d.line
                == self.cur().line && d.pos == self.cur().pos,
    {
        match token.token {
            TokenType::NumberLit => match token.value {
                Some(LiteralKind::Number { value }) => Ok(LiteralType::Number(value)),
                _ => Err(
                    self.throw_error(ErrorCode::MalformedLiteral, vec![self.peek().lexeme]),
                ),
            },
            TokenType::StringLit => match token.value {
                Some(LiteralKind::Str { value }) => Ok(LiteralType::Str(value)),
                _ => Err(
                    self.throw_error(ErrorCode::MalformedLiteral, vec![self.peek().lexeme]),
                ),
            },
            TokenType::CharLit => match token.value {
                Some(LiteralKind::Char { value }) => Ok(LiteralType::Char(value)),
                _ => Err(
                    self.throw_error(ErrorCode::MalformedLiteral, vec![self.peek().lexeme]),
                ),
            },
            TokenType::TrueLit => Ok(LiteralType::Boolean(true)),
            TokenType::FalseLit => Ok(LiteralType::Boolean(false)),
            TokenType::NullLit => Ok(LiteralType::Null),
            _ => Ok(LiteralType::Any),
        }
    }

    /// Parses one expression: a binary expression, reinterpreted as an
    /// assignment when an assignment operator follows it.
    pub fn expr(&mut self) -> (r: Result<Expression, Diagnostic>)
        requires
            old(self).wf(),
        ensures
            final(self).wf(),
            final(self).tokens == old(self).tokens,
            old(self).crnt <= final(self).crnt,
            old(self).id <= final(self).id,
            final(self).id as int - old(self).id as int <= 2 * (final(self).crnt as int - old(
                self,
            ).crnt as int),
            r is Ok ==> final(self).crnt > old(self).crnt,
            r matches Ok(e) ==> ids_inc(eids(e), old(self).id as int, final(self).id as int),
            is_atom(old(self).cur()) && !continues_expr(old(self).ahead(1).token) ==> (r
                matches Ok(e) && e == atom_expr(old(self).cur(), old(self).id as int) && final(self).crnt == old(self).crnt + 1 && final(self).id == old(self).id + 1),
            func_lit_window(old(self).tokens@, old(self).crnt as int) && !continues_expr(
                old(self).ahead(6).token,
            ) ==> (r matches Ok(e) && func_lit_result(
                e,
                old(self).tokens@,
                old(self).crnt as int,
                old(self).id as int,
            ) && final(self).crnt == old(self).crnt + 6 && final(self).id == old(self).id + 2),
            old(self).cur().token == TokenType::Ident && is_assign_op(old(self).ahead(1).token)
                && is_atom(old(self).ahead(2)) && !continues_expr(old(self).ahead(3).token) ==> (r
                matches Ok(e) && (e matches Expression::Assign { id, name, value, kind } && id
                == old(self).id + 2 && name == old(self).cur() && *value == atom_expr(
                old(self).ahead(2),
                old(self).id + 1,
            ) && kind == assign_kind_of(old(self).ahead(1).token)) && final(self).crnt == old(
                self,
            ).crnt + 3 && final(self).id == old(self).id + 3),
            is_atom(old(self).cur()) && old(self).cur().token != TokenType::Ident && is_assign_op(
                old(self).ahead(1).token,
            ) && is_atom(old(self).ahead(2)) && !continues_expr(old(self).ahead(3).token) ==> (r
                matches Err(d) && d.code == ErrorCode::InvalidConstruct),
        decreases old(self).remaining(), 7int,
    {
        let e = self.binary()?;
        let ghost ida = self.id as int;
        let kind = if self.if_token_consume(TokenType::Assign) {
            Some(AssignKind::Normal)
        } else if self.if_token_consume(TokenType::PlusEq) {
            Some(AssignKind::Plus)
        } else if self.if_token_consume(TokenType::MinEq) {
            Some(AssignKind::Minus)
        } else if self.if_token_consume(TokenType::MultEq) {
            Some(AssignKind::Mult)
        } else if self.if_token_consume(TokenType::DivEq) {
            Some(AssignKind::Div)
        } else {
            None
        };
        match kind {
            Some(k) => {
                let a = self.assign(e, k)?;
                proof {
                    lemma_ids_inc_widen(
                        eids(a),
                        ida,
                        self.id as int,
                        old(self).id as int,
                        self.id as int,
                    );
                }
                Ok(a)
            },
            None => Ok(e),
        }
    }

    /// Reinterprets a parsed expression as the target of an assignment; any
    /// target other than a bare variable reference is an invalid construct.
    pub fn assign(&mut self, expr: Expression, kind: AssignKind) -> (r: Result<
        Expression,
        Diagnostic,
    >)
        requires
            old(self).wf(),
            old(self).id as int <= 2 * old(self).crnt as int,
        ensures
            final(self).wf(),
            final(self).tokens == old(self).tokens,
            old(self).crnt <= final(self).crnt,
            old(self).id <= final(self).id,
            final(self).id as int - old(self).id as int <= 2 * (final(self).crnt as int - old(
                self,
            ).crnt as int) + 1,
            r is Ok ==> final(self).crnt > old(self).crnt,
            r matches Ok(e) ==> ids_inc(eids(e), old(self).id as int, final(self).id as int),
            r matches Ok(e) ==> (e matches Expression::Assign { name, kind: k2, .. } && (expr
                matches Expression::Var { name: n2, .. } && name == n2) && k2 == kind),
            is_atom(old(self).cur()) && !continues_expr(old(self).ahead(1).token) && (expr
                matches Expression::Var { .. }) ==> (r matches Ok(e) && (e
                matches Expression::Assign { id, name, value, kind: k2 } && id == old(self).id + 1
                && (expr matches Expression::Var { name: n2, .. } && name == n2) && *value
                == atom_expr(old(self).cur(), old(self).id as int) && k2 == kind) && final(self).crnt == old(self).crnt + 1 && final(self).id == old(self).id + 2),
            is_atom(old(self).cur()) && !continues_expr(old(self).ahead(1).token) && !(expr
                matches Expression::Var { .. }) ==> (r matches Err(d) && d.code
                == ErrorCode::InvalidConstruct),
        decreases old(self).remaining(), 8int,
    {
        let value = self.expr()?;
        match expr {
            Expression::Var { id: _, name } => {
                let nid = self.id();
                let res = Expression::Assign { id: nid, name, value: Box::new(value), kind };
                proof {
                    lemma_ids_inc_push(eids(*res->Assign_value), old(self).id as int, nid as int);
                }
                Ok(res)
            },
            _ => Err(
                self.throw_error(
                    ErrorCode::InvalidConstruct,
                    vec![String::from_str("Invalid assignment target")],
                ),
            ),
        }
    }

    /// Parses a left-associative binary expression over one flat precedence
    /// class of operators.
    pub fn binary(&mut self) -> (r: Result<Expression, Diagnostic>)
        requires
            old(self).wf(),
        ensures
            final(self).wf(),
            final(self).tokens == old(self).tokens,
            old(self).crnt <= final(self).crnt,
            old(self).id <= final(self).id,
            final(self).id as int - old(self).id as int <= 2 * (final(self).crnt as int - old(
                self,
            ).crnt as int),
            r is Ok ==> final(self).crnt > old(self).crnt,
            r matches Ok(e) ==> ids_inc(eids(e), old(self).id as int, final(self).id as int),
            is_atom(old(self).cur()) && !continues_binary(old(self).ahead(1).token) ==> (r
                matches Ok(e) && e == atom_expr(old(self).cur(), old(self).id as int) && final(self).crnt == old(self).crnt + 1 && final(self).id == old(self).id + 1),
            func_lit_window(old(self).tokens@, old(self).crnt as int) && !continues_expr(
                old(self).ahead(6).token,
            ) ==> (r matches Ok(e) && func_lit_result(
                e,
                old(self).tokens@,
                old(self).crnt as int,
                old(self).id as int,
            ) && final(self).crnt == old(self).crnt + 6 && final(self).id == old(self).id + 2),
            is_atom(old(self).cur()) && is_binary_op(old(self).ahead(1).token) && is_atom(
                old(self).ahead(2),
            ) && is_binary_op(old(self).ahead(3).token) && is_atom(old(self).ahead(4))
                && !continues_binary(old(self).ahead(5).token) ==> (r matches Ok(e) && (e
                matches Expression::Binary { id: i2, left: l2, operator: o2, right: r2 } && i2
                == old(self).id + 4 && o2 == old(self).ahead(3) && *r2 == atom_expr(
                old(self).ahead(4),
                old(self).id + 3,
            ) && (*l2 matches Expression::Binary { id: i1, left: l1, operator: o1, right: r1 }
                && i1 == old(self).id + 2 && o1 == old(self).ahead(1) && *l1 == atom_expr(
                old(self).cur(),
                old(self).id as int,
            ) && *r1 == atom_expr(old(self).ahead(2), old(self).id + 1))) && final(self).crnt
                == old(self).crnt + 5 && final(self).id == old(self).id + 5),
        decreases old(self).remaining(), 6int,
    {
        let mut e = self.unary()?;
        let ops: Vec<TokenType> = vec![
            TokenType::Plus,
            TokenType::Minus,
            TokenType::Mult,
            TokenType::Divide,
            TokenType::Percent,
            TokenType::AndAnd,
            TokenType::Or,
            TokenType::Eq,
            TokenType::NotEq,
            TokenType::Greater,
            TokenType::GreaterOrEq,
            TokenType::Less,
            TokenType::LessOrEq,
            TokenType::Square,
            TokenType::And,
        ];
        while self.are_tokens(&ops)
            invariant
                self.wf(),
                self.tokens == old(self).tokens,
                old(self).crnt < self.crnt,
                old(self).id <= self.id,
                self.id as int - old(self).id as int <= 2 * (self.crnt as int - old(
                    self,
                ).crnt as int),
                ids_inc(eids(e), old(self).id as int, self.id as int),
                is_atom(old(self).cur()) && !continues_binary(old(self).ahead(1).token) ==> e
                    == atom_expr(old(self).cur(), old(self).id as int) && self.crnt == old(
                    self,
                ).crnt + 1 && self.id == old(self).id + 1,
                func_lit_window(old(self).tokens@, old(self).crnt as int) && !continues_expr(
                    old(self).ahead(6).token,
                ) ==> func_lit_result(
                    e,
                    old(self).tokens@,
                    old(self).crnt as int,
                    old(self).id as int,
                ) && self.crnt == old(self).crnt + 6 && self.id == old(self).id + 2,
                (is_atom(old(self).cur()) && is_binary_op(old(self).ahead(1).token) && is_atom(
                    old(self).ahead(2),
                ) && is_binary_op(old(self).ahead(3).token) && is_atom(old(self).ahead(4))
                    && !continues_binary(old(self).ahead(5).token)) ==> ((e == atom_expr(
                    old(self).cur(),
                    old(self).id as int,
                ) && self.crnt == old(self).crnt + 1 && self.id == old(self).id + 1) || ((e
                    matches Expression::Binary { id: i1, left: l1, operator: o1, right: r1 } && i1
                    == old(self).id + 2 && o1 == old(self).ahead(1) && *l1 == atom_expr(
                    old(self).cur(),
                    old(self).id as int,
                ) && *r1 == atom_expr(old(self).ahead(2), old(self).id + 1)) && self.crnt == old(
                    self,
                ).crnt + 3 && self.id == old(self).id + 3) || ((e matches Expression::Binary {
                    id: i2,
                    left: l2,
                    operator: o2,
                    right: r2,
                } && i2 == old(self).id + 4 && o2 == old(self).ahead(3) && *r2 == atom_expr(
                    old(self).ahead(4),
                    old(self).id + 3,
                ) && (*l2 matches Expression::Binary { id: i1, left: l1, operator: o1, right: r1 }
                    && i1 == old(self).id + 2 && o1 == old(self).ahead(1) && *l1 == atom_expr(
                    old(self).cur(),
                    old(self).id as int,
                ) && *r1 == atom_expr(old(self).ahead(2), old(self).id + 1))) && self.crnt == old(
                    self,
                ).crnt + 5 && self.id == old(self).id + 5)),
            decreases self.remaining(),
        {
            self.advance();
            let operator = self.prev(1);
            let ghost ida = self.id as int;
            let rhs = self.unary()?;
            let ghost idb = self.id as int;
            let nid = self.id();
            proof {
                lemma_ids_inc_concat(eids(e), eids(rhs), old(self).id as int, ida, idb);
                lemma_ids_inc_push(eids(e) + eids(rhs), old(self).id as int, nid as int);
            }
            e = Expression::Binary {
                id: nid,
                left: Box::new(e),
                operator,
                right: Box::new(rhs),
            };
        }
        Ok(e)
    }

    /// Parses a prefix unary expression; unary operators bind tighter than
    /// binary operators and are right-recursive.
    pub fn unary(&mut self) -> (r: Result<Expression, Diagnostic>)
        requires
            old(self).wf(),
        ensures
            final(self).wf(),
            final(self).tokens == old(self).tokens,
            old(self).crnt <= final(self).crnt,
            old(self).id <= final(self).id,
            final(self).id as int - old(self).id as int <= 2 * (final(self).crnt as int - old(
                self,
            ).crnt as int),
            r is Ok ==> final(self).crnt > old(self).crnt,
            r matches Ok(e) ==> ids_inc(eids(e), old(self).id as int, final(self).id as int),
            is_atom(old(self).cur()) && !continues_postfix(old(self).ahead(1).token) ==> (r
                matches Ok(e) && e == atom_expr(old(self).cur(), old(self).id as int) && final(self).crnt == old(self).crnt + 1 && final(self).id == old(self).id + 1),
            func_lit_window(old(self).tokens@, old(self).crnt as int) && !continues_expr(
                old(self).ahead(6).token,
            ) ==> (r matches Ok(e) && func_lit_result(
                e,
                old(self).tokens@,
                old(self).crnt as int,
                old(self).id as int,
            ) && final(self).crnt == old(self).crnt + 6 && final(self).id == old(self).id + 2),
            is_unary_op(old(self).cur().token) && is_atom(old(self).ahead(1))
                && !continues_postfix(old(self).ahead(2).token) ==> (r matches Ok(e) && (e
                matches Expression::Unary { id, left, operator } && id == old(self).id + 1
                && operator == old(self).cur() && *left == atom_expr(
                old(self).ahead(1),
                old(self).id as int,
            )) && final(self).crnt == old(self).crnt + 2 && final(self).id == old(self).id + 2),
        decreases old(self).remaining(), 5int,
    {
        let ops: Vec<TokenType> = vec![
            TokenType::Not,
            TokenType::NotNot,
            TokenType::Queston,
            TokenType::Decr,
            TokenType::Increment,
            TokenType::Minus,
        ];
        proof {
            assert(ops@[0] == TokenType::Not);
            assert(ops@[1] == TokenType::NotNot);
            assert(ops@[2] == TokenType::Queston);
            assert(ops@[3] == TokenType::Decr);
            assert(ops@[4] == TokenType::Increment);
            assert(ops@[5] == TokenType::Minus);
            assert(forall|k: int| 0 <= k < ops@.len() ==> is_unary_op(#[trigger] ops@[k]));
        }
        if self.are_tokens(&ops) {
            self.advance();
            let operator = self.prev(1);
            let rhs = self.unary()?;
            let nid = self.id();
            proof {
                lemma_ids_inc_push(eids(rhs), old(self).id as int, nid as int);
            }
            Ok(Expression::Unary { id: nid, left: Box::new(rhs), operator })
        } else {
            self.call()
        }
    }

    /// Parses a call or postfix chain: a bracket straight after a leading
    /// identifier opens an array index; otherwise a primary or method
    /// expression is followed by any run of postfix suffixes, each wrapping
    /// the expression built so far.
    #[verifier::rlimit(60)]
    pub fn call(&mut self) -> (r: Result<Expression, Diagnostic>)
        requires
            old(self).wf(),
        ensures
            final(self).wf(),
            final(self).tokens == old(self).tokens,
            old(self).crnt <= final(self).crnt,
            old(self).id <= final(self).id,
            final(self).id as int - old(self).id as int <= 2 * (final(self).crnt as int - old(
                self,
            ).crnt as int),
            r is Ok ==> final(self).crnt > old(self).crnt,
            r matches Ok(e) ==> ids_inc(eids(e), old(self).id as int, final(self).id as int),
            is_atom(old(self).cur()) && !continues_postfix(old(self).ahead(1).token) ==> (r
                matches Ok(e) && e == atom_expr(old(self).cur(), old(self).id as int) && final(self).crnt == old(self).crnt + 1 && final(self).id == old(self).id + 1),
            is_atom(old(self).cur()) && old(self).ahead(1).token == TokenType::Dot && old(
                self,
            ).ahead(2).token == TokenType::Ident && !continues_postfix(old(self).ahead(3).token)
                ==> (r matches Ok(e) && (e matches Expression::Call { id, name, args, call_type }
                && id == old(self).id + 2 && *name == atom_expr(old(self).cur(), old(self).id as int)
                && args@ =~= seq![
                Expression::Value {
                    id: (old(self).id + 1) as usize,
                    value: LiteralType::Str(old(self).ahead(2).lexeme),
                },
            ] && call_type == CallType::Struct) && final(self).crnt == old(self).crnt + 3 && final(self).id == old(self).id + 3),
            p5_window(old(self).tokens@, old(self).crnt as int) ==> (r matches Ok(e)
                && p5_result(e, old(self).tokens@, old(self).crnt as int, old(self).id as int)
                && final(self).crnt == old(self).crnt + 11 && final(self).id == old(self).id + 7),
            func_lit_window(old(self).tokens@, old(self).crnt as int) && !continues_expr(
                old(self).ahead(6).token,
            ) ==> (r matches Ok(e) && func_lit_result(
                e,
                old(self).tokens@,
                old(self).crnt as int,
                old(self).id as int,
            ) && final(self).crnt == old(self).crnt + 6 && final(self).id == old(self).id + 2),
        decreases old(self).remaining(), 4int,
    {
        if self.is_token(TokenType::LeftBracket) && self.prev(1).token == TokenType::Ident {
            let name = self.prev(1);
            let rid = self.id();
            let recv = Expression::Var { id: rid, name };
            self.advance();
            proof {
                lemma_ids_inc_singleton(rid as int, old(self).id as int, self.id as int);
                assert(ids_inc(eids(recv), old(self).id as int, self.id as int));
            }
            let arr = self.array_call(recv)?;
            return Ok(arr);
        }
        let mut e = self.method()?;
        let ghost g2: bool = is_atom(old(self).cur()) && old(self).ahead(1).token
            == TokenType::Dot && old(self).ahead(2).token == TokenType::Ident
            && !continues_postfix(old(self).ahead(3).token);
        loop
            invariant
                self.wf(),
                self.tokens == old(self).tokens,
                old(self).crnt < self.crnt,
                old(self).id <= self.id,
                self.id as int - old(self).id as int <= 2 * (self.crnt as int - old(
                    self,
                ).crnt as int),
                ids_inc(eids(e), old(self).id as int, self.id as int),
                is_atom(old(self).cur()) && !continues_postfix(old(self).ahead(1).token) ==> e
                    == atom_expr(old(self).cur(), old(self).id as int) && self.crnt == old(
                    self,
                ).crnt + 1 && self.id == old(self).id + 1,
                func_lit_window(old(self).tokens@, old(self).crnt as int) && !continues_expr(
                    old(self).ahead(6).token,
                ) ==> func_lit_result(
                    e,
                    old(self).tokens@,
                    old(self).crnt as int,
                    old(self).id as int,
                ) && self.crnt == old(self).crnt + 6 && self.id == old(self).id + 2,
                p5_window(old(self).tokens@, old(self).crnt as int) ==> (((e
                    matches Expression::Method { id: im, name: nm, left: lm, args: ma } && im
                    == old(self).id + 2 && nm == old(self).ahead(2) && *lm == atom_expr(
                    old(self).cur(),
                    old(self).id as int,
                ) && ma@ =~= seq![atom_expr(old(self).ahead(4), old(self).id + 1)]) && self.crnt
                    == old(self).crnt + 6 && self.id == old(self).id + 3) || ((e
                    matches Expression::Call { id: is_, name: ns, args: sa, call_type: cs } && is_
                    == old(self).id + 4 && cs == CallType::Struct && sa@ =~= seq![
                    Expression::Value {
                        id: (old(self).id + 3) as usize,
                        value: LiteralType::Str(old(self).ahead(7).lexeme),
                    },
                ] && (*ns matches Expression::Method { id: im, name: nm, left: lm, args: ma } && im
                    == old(self).id + 2 && nm == old(self).ahead(2) && *lm == atom_expr(
                    old(self).cur(),
                    old(self).id as int,
                ) && ma@ =~= seq![atom_expr(old(self).ahead(4), old(self).id + 1)])) && self.crnt
                    == old(self).crnt + 8 && self.id == old(self).id + 5) || (p5_result(
                    e,
                    old(self).tokens@,
                    old(self).crnt as int,
                    old(self).id as int,
                ) && self.crnt == old(self).crnt + 11 && self.id == old(self).id + 7)),
                g2 ==> ((e == atom_expr(old(self).cur(), old(self).id as int) && self.crnt == old(
                    self,
                ).crnt + 1 && self.id == old(self).id + 1) || ((e matches Expression::Call {
                    id,
                    name,
                    args,
                    call_type,
                } && id == old(self).id + 2 && *name == atom_expr(
                    old(self).cur(),
                    old(self).id as int,
                ) && args@ =~= seq![
                    Expression::Value {
                        id: (old(self).id + 1) as usize,
                        value: LiteralType::Str(old(self).ahead(2).lexeme),
                    },
                ] && call_type == CallType::Struct) && self.crnt == old(self).crnt + 3 && self.id
                    == old(self).id + 3)),
            decreases self.remaining(),
        {
            let ghost ida = self.id as int;
            if self.if_token_consume(TokenType::Dot) {
                let chain = matches!(e, Expression::Method { .. }) && self.is_token(
                    TokenType::Ident,
                ) && self.lookahead(1).token == TokenType::LeftParen;
                if chain {
                    e = self.method_body(e)?;
                } else {
                    e = self.obj_call(e)?;
                    proof {
                        assert(old(self).id as int + 1 <= usize::MAX as int);
                        assert((old(self).id + 1) as usize as int == old(self).id as int + 1);
                        assert(old(self).id as int + 3 <= usize::MAX as int);
                        assert((old(self).id + 3) as usize as int == old(self).id as int + 3);
                        if g2 {
                            assert(self.crnt == old(self).crnt + 3);
                            assert(self.id == old(self).id + 3);
                            assert(e matches Expression::Call { id, .. } && id == old(self).id
                                + 2);
                            assert(e matches Expression::Call { name, .. } && *name == atom_expr(
                                old(self).cur(),
                                old(self).id as int,
                            ));
                            assert(e matches Expression::Call { args, .. } && args@ =~= seq![
                                Expression::Value {
                                    id: (old(self).id + 1) as usize,
                                    value: LiteralType::Str(old(self).ahead(2).lexeme),
                                },
                            ]);
                        }
                    }
                }
            } else if self.if_token_consume(TokenType::DblColon) {
                e = self.enum_call(e)?;
            } else if self.if_token_consume(TokenType::LeftParen) {
                e = self.func_call(e)?;
            } else if self.if_token_consume(TokenType::LeftBracket) {
                e = self.array_call(e)?;
            } else if self.if_token_consume(TokenType::Ident) {
                let inner = self.call()?;
                proof {
                    lemma_ids_inc_widen(
                        eids(inner),
                        ida,
                        self.id as int,
                        old(self).id as int,
                        self.id as int,
                    );
                }
                e = inner;
            } else {
                break;
            }
        }
        Ok(e)
    }

    /// Parses an array-index call: one index expression and the closing
    /// bracket, wrapping the given callee.
    pub fn array_call(&mut self, callee: Expression) -> (r: Result<Expression, Diagnostic>)
        requires
            old(self).wf(),
        ensures
            final(self).wf(),
            final(self).tokens == old(self).tokens,
            old(self).crnt <= final(self).crnt,
            old(self).id <= final(self).id,
            final(self).id as int - old(self).id as int <= 2 * (final(self).crnt as int - old(
                self,
            ).crnt as int),
            r is Ok ==> final(self).crnt > old(self).crnt,
            r matches Ok(e) ==> (e matches Expression::Call { name, args, call_type, .. }
                && *name == callee && args@.len() == 1 && call_type == CallType::Array),
            is_atom(old(self).cur()) && old(self).ahead(1).token == TokenType::RightBracket ==> (
            r matches Ok(e) && (e matches Expression::Call { id, args, .. } && id == old(self).id
                + 1 && args@ =~= seq![atom_expr(old(self).cur(), old(self).id as int)]) && final(self).crnt == old(self).crnt + 2 && final(self).id == old(self).id + 2),
            is_atom(old(self).cur()) && !continues_expr(old(self).ahead(1).token) && old(
                self,
            ).ahead(1).token != TokenType::RightBracket ==> (r matches Err(d) && d.code
                == ErrorCode::UnexpectedToken),
            r matches Ok(e) ==> forall|lo: int|
                (#[trigger] ids_inc(eids(callee), lo, old(self).id as int) && lo <= old(
                    self,
                ).id as int) ==> ids_inc(eids(e), lo, final(self).id as int),
        decreases old(self).remaining(), 8int,
    {
        let ghost ida = self.id as int;
        let arg = self.expr()?;
        self.consume(TokenType::RightBracket)?;
        let ghost idb = self.id as int;
        let nid = self.id();
        let args = vec![arg];
        let res = Expression::Call {
            id: nid,
            name: Box::new(callee),
            args,
            call_type: CallType::Array,
        };
        proof {
            assert(args@.len() == 1);
            assert(args@.drop_first() =~= Seq::<Expression>::empty());
            assert(eids_seq(Seq::<Expression>::empty()) == Seq::<int>::empty());
            assert(eids_seq(args@) =~= eids(args@[0]));
            assert forall|lo: int| ids_inc(eids(callee), lo, ida) && lo <= ida implies ids_inc(
                eids(res),
                lo,
                self.id as int,
            ) by {
                lemma_ids_inc_concat(eids(callee), eids_seq(args@), lo, ida, idb);
                lemma_ids_inc_push(eids(callee) + eids_seq(args@), lo, nid as int);
            }
        }
        Ok(res)
    }

    /// Parses a struct-field access: the field name becomes a string-literal
    /// argument of a struct-kind call wrapping the given callee.
    pub fn obj_call(&mut self, callee: Expression) -> (r: Result<Expression, Diagnostic>)
        requires
            old(self).wf(),
        ensures
            final(self).wf(),
            final(self).tokens == old(self).tokens,
            old(self).crnt <= final(self).crnt,
            old(self).id <= final(self).id,
            final(self).id as int - old(self).id as int <= 2 * (final(self).crnt as int - old(
                self,
            ).crnt as int),
            r is Ok ==> final(self).crnt > old(self).crnt,
            (r is Ok) == (old(self).cur().token == TokenType::Ident),
            r matches Err(d) ==> d.code == ErrorCode::UnexpectedToken,
            r is Ok ==> final(self).crnt == old(self).crnt + 1 && final(self).id == old(self).id
                + 2,
            r matches Ok(e) ==> (e matches Expression::Call { id, name, args, call_type } && id
                == old(self).id + 1 && *name == callee && args@ =~= seq![
                Expression::Value {
                    id: old(self).id,
                    value: LiteralType::Str(old(self).cur().lexeme),
                },
            ] && call_type == CallType::Struct),
            r matches Ok(e) ==> forall|lo: int|
                (#[trigger] ids_inc(eids(callee), lo, old(self).id as int) && lo <= old(
                    self,
                ).id as int) ==> ids_inc(eids(e), lo, final(self).id as int),
        decreases old(self).remaining(), 8int,
    {
        let field = self.consume(TokenType::Ident)?;
        let ghost ida = self.id as int;
        let vid = self.id();
        let sarg = Expression::Value { id: vid, value: LiteralType::Str(field.lexeme) };
        let nid = self.id();
        let args = vec![sarg];
        let res = Expression::Call {
            id: nid,
            name: Box::new(callee),
            args,
            call_type: CallType::Struct,
        };
        proof {
            assert(args@.len() == 1);
            assert(args@.drop_first() =~= Seq::<Expression>::empty());
            assert(eids_seq(Seq::<Expression>::empty()) == Seq::<int>::empty());
            assert(eids_seq(args@) =~= eids(args@[0]));
            assert forall|lo: int| ids_inc(eids(callee), lo, ida) && lo <= ida implies ids_inc(
                eids(res),
                lo,
                self.id as int,
            ) by {
                lemma_ids_inc_singleton(vid as int, ida, nid as int);
                lemma_ids_inc_concat(eids(callee), eids_seq(args@), lo, ida, nid as int);
                lemma_ids_inc_push(eids(callee) + eids_seq(args@), lo, nid as int);
            }
        }
        Ok(res)
    }

    /// Parses an enum-variant access: one variant expression after the double
    /// colon, as an enum-kind call wrapping the given callee.
    pub fn enum_call(&mut self, callee: Expression) -> (r: Result<Expression, Diagnostic>)
        requires
            old(self).wf(),
            old(self).id as int <= 2 * old(self).crnt as int,
        ensures
            final(self).wf(),
            final(self).tokens == old(self).tokens,
            old(self).crnt <= final(self).crnt,
            old(self).id <= final(self).id,
            final(self).id as int - old(self).id as int <= 2 * (final(self).crnt as int - old(
                self,
            ).crnt as int) + 1,
            r is Ok ==> final(self).crnt > old(self).crnt,
            r matches Ok(e) ==> (e matches Expression::Call { name, args, call_type, .. }
                && *name == callee && args@.len() == 1 && call_type == CallType::Enum),
            is_atom(old(self).cur()) && !continues_expr(old(self).ahead(1).token) ==> (r
                matches Ok(e) && (e matches Expression::Call { id, args, .. } && id == old(
                self,
            ).id + 1 && args@ =~= seq![atom_expr(old(self).cur(), old(self).id as int)]) && final(self).crnt == old(self).crnt + 1 && final(self).id == old(self).id + 2),
            r matches Ok(e) ==> forall|lo: int|
                (#[trigger] ids_inc(eids(callee), lo, old(self).id as int) && lo <= old(
                    self,
                ).id as int) ==> ids_inc(eids(e), lo, final(self).id as int),
        decreases old(self).remaining(), 8int,
    {
        let ghost ida = self.id as int;
        let arg = self.expr()?;
        let ghost idb = self.id as int;
        let nid = self.id();
        let args = vec![arg];
        let res = Expression::Call {
            id: nid,
            name: Box::new(callee),
            args,
            call_type: CallType::Enum,
        };
        proof {
            assert(args@.len() == 1);
            assert(args@.drop_first() =~= Seq::<Expression>::empty());
            assert(eids_seq(Seq::<Expression>::empty()) == Seq::<int>::empty());
            assert(eids_seq(args@) =~= eids(args@[0]));
            assert forall|lo: int| ids_inc(eids(callee), lo, ida) && lo <= ida implies ids_inc(
                eids(res),
                lo,
                self.id as int,
            ) by {
                lemma_ids_inc_concat(eids(callee), eids_seq(args@), lo, ida, idb);
                lemma_ids_inc_push(eids(callee) + eids_seq(args@), lo, nid as int);
            }
        }
        Ok(res)
    }

    /// Parses a function call: comma-separated arguments up to the closing
    /// parenthesis, as a function-kind call wrapping the given callee.
    pub fn func_call(&mut self, callee: Expression) -> (r: Result<Expression, Diagnostic>)
        requires
            old(self).wf(),
        ensures
            final(self).wf(),
            final(self).tokens == old(self).tokens,
            old(self).crnt <= final(self).crnt,
            old(self).id <= final(self).id,
            final(self).id as int - old(self).id as int <= 2 * (final(self).crnt as int - old(
                self,
            ).crnt as int),
            r is Ok ==> final(self).crnt > old(self).crnt,
            r matches Ok(e) ==> (e matches Expression::Call { name, call_type, .. } && *name
                == callee && call_type == CallType::Func),
            old(self).cur().token == TokenType::RightParen ==> (r matches Ok(e) && (e
                matches Expression::Call { id, args, .. } && id == old(self).id && args@.len()
                == 0) && final(self).crnt == old(self).crnt + 1 && final(self).id == old(self).id
                + 1),
            is_atom(old(self).cur()) && old(self).ahead(1).token == TokenType::RightParen ==> (r
                matches Ok(e) && (e matches Expression::Call { id, args, .. } && id == old(
                self,
            ).id + 1 && args@ =~= seq![atom_expr(old(self).cur(), old(self).id as int)]) && final(self).crnt == old(self).crnt + 2 && final(self).id == old(self).id + 2),
            is_atom(old(self).cur()) && !continues_expr(old(self).ahead(1).token) && old(
                self,
            ).ahead(1).token != TokenType::Comma && old(self).ahead(1).token
                != TokenType::RightParen ==> (r matches Err(d) && d.code
                == ErrorCode::UnexpectedToken),
            r matches Ok(e) ==> forall|lo: int|
                (#[trigger] ids_inc(eids(callee), lo, old(self).id as int) && lo <= old(
                    self,
                ).id as int) ==> ids_inc(eids(e), lo, final(self).id as int),
        decreases old(self).remaining(), 8int,
    {
        let ghost ida = self.id as int;
        let mut args: Vec<Expression> = Vec::new();
        proof {
            assert(args@ =~= Seq::<Expression>::empty());
        }
        while !self.is_token(TokenType::RightParen)
            invariant
                self.wf(),
                self.tokens == old(self).tokens,
                old(self).crnt <= self.crnt,
                old(self).id <= self.id,
                self.id as int - old(self).id as int <= 2 * (self.crnt as int - old(
                    self,
                ).crnt as int),
                ids_inc(eids_seq(args@), ida, self.id as int),
                old(self).cur().token == TokenType::RightParen ==> args@.len() == 0 && *self
                    == *old(self),
                is_atom(old(self).cur()) && old(self).ahead(1).token == TokenType::RightParen
                    ==> ((args@.len() == 0 && *self == *old(self)) || (args@ =~= seq![
                    atom_expr(old(self).cur(), old(self).id as int),
                ] && self.crnt == old(self).crnt + 1 && self.id == old(self).id + 1)),
                is_atom(old(self).cur()) && !continues_expr(old(self).ahead(1).token) && old(
                    self,
                ).ahead(1).token != TokenType::Comma && old(self).ahead(1).token
                    != TokenType::RightParen ==> args@.len() == 0 && *self == *old(self),
            decreases self.remaining(),
        {
            let ghost idb = self.id as int;
            let arg = self.expr()?;
            proof {
                lemma_eids_seq_push(args@, arg);
                lemma_ids_inc_concat(eids_seq(args@), eids(arg), ida, idb, self.id as int);
            }
            args.push(arg);
            if self.is_token(TokenType::RightParen) {
                break ;
            }
            if !self.if_token_consume(TokenType::Comma) && !self.is_token(
                TokenType::RightParen,
            ) {
                return Err(
                    self.throw_error(ErrorCode::UnexpectedToken, vec![self.peek().lexeme]),
                );
            }
        }
        self.consume(TokenType::RightParen)?;
        let ghost idb = self.id as int;
        let nid = self.id();
        let res = Expression::Call {
            id: nid,
            name: Box::new(callee),
            args,
            call_type: CallType::Func,
        };
        proof {
            assert forall|lo: int| ids_inc(eids(callee), lo, ida) && lo <= ida implies ids_inc(
                eids(res),
                lo,
                self.id as int,
            ) by {
                lemma_ids_inc_concat(eids(callee), eids_seq(args@), lo, ida, idb);
                lemma_ids_inc_push(eids(callee) + eids_seq(args@), lo, nid as int);
            }
        }
        Ok(res)
    }

    /// Parses a primary expression, then a method-call suffix when a dot,
    /// name and opening parenthesis follow.
    pub fn method(&mut self) -> (r: Result<Expression, Diagnostic>)
        requires
            old(self).wf(),
        ensures
            final(self).wf(),
            final(self).tokens == old(self).tokens,
            old(self).crnt <= final(self).crnt,
            old(self).id <= final(self).id,
            final(self).id as int - old(self).id as int <= 2 * (final(self).crnt as int - old(
                self,
            ).crnt as int),
            r is Ok ==> final(self).crnt > old(self).crnt,
            r matches Ok(e) ==> ids_inc(eids(e), old(self).id as int, final(self).id as int),
            is_atom(old(self).cur()) && old(self).ahead(1).token != TokenType::Dot ==> (r
                matches Ok(e) && e == atom_expr(old(self).cur(), old(self).id as int) && final(self).crnt == old(self).crnt + 1 && final(self).id == old(self).id + 1),
            is_atom(old(self).cur()) && old(self).ahead(1).token == TokenType::Dot && old(
                self,
            ).ahead(2).token == TokenType::Ident && old(self).ahead(3).token
                != TokenType::LeftParen ==> (r matches Ok(e) && e == atom_expr(
                old(self).cur(),
                old(self).id as int,
            ) && final(self).crnt == old(self).crnt + 1 && final(self).id == old(self).id + 1),
            func_lit_window(old(self).tokens@, old(self).crnt as int) && !continues_expr(
                old(self).ahead(6).token,
            ) ==> (r matches Ok(e) && func_lit_result(
                e,
                old(self).tokens@,
                old(self).crnt as int,
                old(self).id as int,
            ) && final(self).crnt == old(self).crnt + 6 && final(self).id == old(self).id + 2),
            is_atom(old(self).cur()) && old(self).ahead(1).token == TokenType::Dot && old(
                self,
            ).ahead(2).token == TokenType::Ident && old(self).ahead(3).token
                == TokenType::LeftParen && is_atom(old(self).ahead(4)) && old(self).ahead(5).token
                == TokenType::RightParen ==> (r matches Ok(e) && (e matches Expression::Method {
                id,
                name,
                left,
                args,
            } && id == old(self).id + 2 && name == old(self).ahead(2) && *left == atom_expr(
                old(self).cur(),
                old(self).id as int,
            ) && args@ =~= seq![atom_expr(old(self).ahead(4), old(self).id + 1)]) && final(self).crnt == old(self).crnt + 6 && final(self).id == old(self).id + 3),
        decreases old(self).remaining(), 3int,
    {
        let e = self.primary()?;
        if self.is_token(TokenType::Dot) && self.lookahead(1).token == TokenType::Ident
            && self.lookahead(2).token == TokenType::LeftParen {
            self.advance();
            let m = self.method_body(e)?;
            return Ok(m);
        }
        Ok(e)
    }

    /// Parses the suffix of a method call after its dot: the method name,
    /// then parenthesized arguments, producing a method node that carries the
    /// receiver expression.
    pub fn method_body(&mut self, expr: Expression) -> (r: Result<Expression, Diagnostic>)
        requires
            old(self).wf(),
        ensures
            final(self).wf(),
            final(self).tokens == old(self).tokens,
            old(self).crnt <= final(self).crnt,
            old(self).id <= final(self).id,
            final(self).id as int - old(self).id as int <= 2 * (final(self).crnt as int - old(
                self,
            ).crnt as int),
            r is Ok ==> final(self).crnt > old(self).crnt,
            r matches Ok(e) ==> (e matches Expression::Method { name, left, .. } && name == old(
                self,
            ).cur() && *left == expr),
            old(self).cur().token != TokenType::Ident ==> (r matches Err(d) && d.code
                == ErrorCode::UnexpectedToken),
            old(self).cur().token == TokenType::Ident && old(self).ahead(1).token
                != TokenType::LeftParen ==> (r matches Err(d) && d.code
                == ErrorCode::UnexpectedToken),
            old(self).cur().token == TokenType::Ident && old(self).ahead(1).token
                == TokenType::LeftParen && old(self).ahead(2).token == TokenType::RightParen ==> (
            r matches Ok(e) && (e matches Expression::Method { id, args, .. } && id == old(
                self,
            ).id && args@.len() == 0) && final(self).crnt == old(self).crnt + 3 && final(self).id
                == old(self).id + 1),
            old(self).cur().token == TokenType::Ident && old(self).ahead(1).token
                == TokenType::LeftParen && is_atom(old(self).ahead(2)) && old(self).ahead(3).token
                == TokenType::RightParen ==> (r matches Ok(e) && (e matches Expression::Method {
                id,
                args,
                ..
            } && id == old(self).id + 1 && args@ =~= seq![
                atom_expr(old(self).ahead(2), old(self).id as int),
            ]) && final(self).crnt == old(self).crnt + 4 && final(self).id == old(self).id + 2),
            r matches Ok(e) ==> forall|lo: int|
                (#[trigger] ids_inc(eids(expr), lo, old(self).id as int) && lo <= old(
                    self,
                ).id as int) ==> ids_inc(eids(e), lo, final(self).id as int),
        decreases old(self).remaining(), 8int,
    {
        let name = self.consume(TokenType::Ident)?;
        self.consume(TokenType::LeftParen)?;
        let ghost ida = self.id as int;
        let mut args: Vec<Expression> = Vec::new();
        proof {
            assert(args@ =~= Seq::<Expression>::empty());
        }
        while !self.if_token_consume(TokenType::RightParen)
            invariant
                self.wf(),
                self.tokens == old(self).tokens,
                old(self).crnt < self.crnt,
                old(self).id <= self.id,
                self.id as int - old(self).id as int <= 2 * (self.crnt as int - old(
                    self,
                ).crnt as int),
                ids_inc(eids_seq(args@), ida, self.id as int),
                old(self).cur().token == TokenType::Ident && old(self).ahead(1).token
                    == TokenType::LeftParen && old(self).ahead(2).token == TokenType::RightParen
                    ==> args@.len() == 0 && self.crnt == old(self).crnt + 2 && self.id == old(
                    self,
                ).id,
                (old(self).cur().token == TokenType::Ident && old(self).ahead(1).token
                    == TokenType::LeftParen && is_atom(old(self).ahead(2)) && old(
                    self,
                ).ahead(3).token == TokenType::RightParen) ==> ((args@.len() == 0 && self.crnt
                    == old(self).crnt + 2 && self.id == old(self).id) || (args@ =~= seq![
                    atom_expr(old(self).ahead(2), old(self).id as int),
                ] && self.crnt == old(self).crnt + 3 && self.id == old(self).id + 1)),
            decreases self.remaining(),
        {
            let ghost idb = self.id as int;
            let arg = self.expr()?;
            proof {
                lemma_eids_seq_push(args@, arg);
                lemma_ids_inc_concat(eids_seq(args@), eids(arg), ida, idb, self.id as int);
            }
            args.push(arg);
            self.if_token_consume(TokenType::Comma);
        }
        let ghost idb = self.id as int;
        let nid = self.id();
        let res = Expression::Method { id: nid, name, left: Box::new(expr), args };
        proof {
            assert forall|lo: int| ids_inc(eids(expr), lo, old(self).id as int) && lo <= old(self).id as int implies ids_inc(
                eids(res),
                lo,
                self.id as int,
            ) by {
                lemma_ids_inc_concat(eids(expr), eids_seq(args@), lo, ida, idb);
                lemma_ids_inc_push(eids(expr) + eids_seq(args@), lo, nid as int);
            }
        }
        Ok(res)
    }

    /// Parses a primary expression: a variable reference, array literal,
    /// grouping or trailing call, function literal, await expression, or
    /// literal value.
    pub fn primary(&mut self) -> (r: Result<Expression, Diagnostic>)
        requires
            old(self).wf(),
        ensures
            final(self).wf(),
            final(self).tokens == old(self).tokens,
            old(self).crnt <= final(self).crnt,
            old(self).id <= final(self).id,
            final(self).id as int - old(self).id as int <= 2 * (final(self).crnt as int - old(
                self,
            ).crnt as int),
            r is Ok ==> final(self).crnt > old(self).crnt,
            r matches Ok(e) ==> ids_inc(eids(e), old(self).id as int, final(self).id as int),
            old(self).cur().token == TokenType::Ident ==> (r matches Ok(e) && e
                == (Expression::Var { id: old(self).id, name: old(self).cur() }) && final(self).crnt == old(self).crnt + 1 && final(self).id == old(self).id + 1),
            is_value_literal(old(self).cur().token) && lit_of(old(self).cur()) is Some ==> (r
                matches Ok(e) && e == (Expression::Value {
                id: old(self).id,
                value: lit_value(old(self).cur()),
            }) && final(self).crnt == old(self).crnt + 1 && final(self).id == old(self).id + 1),
            is_value_literal(old(self).cur().token) && lit_of(old(self).cur()) is None ==> (r
                matches Err(d) && d.code == ErrorCode::MalformedLiteral),
            !starts_primary(old(self).cur().token) ==> (r matches Err(d) && d.code
                == ErrorCode::UnexpectedToken && *final(self) == *old(self)),
            old(self).cur().token == TokenType::LeftBracket ==> (r matches Ok(e) ==> (e
                matches Expression::Array { .. })),
            old(self).cur().token == TokenType::Await ==> (r matches Ok(e) ==> (e
                matches Expression::Await { .. })),
            old(self).cur().token == TokenType::Pipe ==> (r matches Ok(e) ==> (e
                matches Expression::Func { is_async, .. } && !is_async)),
            old(self).cur().token == TokenType::LeftParen && old(self).crnt >= 1 && old(
                self,
            ).tokens@[old(self).crnt - 1].token == TokenType::Ident ==> (r matches Ok(e) ==> (e
                matches Expression::Call { call_type, .. } && call_type == CallType::Func)),
            old(self).cur().token == TokenType::LeftParen && (old(self).crnt == 0 || old(
                self,
            ).tokens@[old(self).crnt - 1].token != TokenType::Ident) ==> (r matches Ok(e) ==> (e
                matches Expression::Grouping { .. })),
            func_lit_window(old(self).tokens@, old(self).crnt as int) ==> (r matches Ok(e)
                && func_lit_result(e, old(self).tokens@, old(self).crnt as int, old(self).id as int)
                && final(self).crnt == old(self).crnt + 6 && final(self).id == old(self).id + 2),
        decreases old(self).remaining(), 2int,
    {
        let token = self.peek();
        match token.token {
            TokenType::Ident => {
                self.advance();
                let nid = self.id();
                proof {
                    lemma_ids_inc_singleton(nid as int, old(self).id as int, self.id as int);
                }
                Ok(Expression::Var { id: nid, name: token })
            },
            TokenType::LeftBracket => {
                self.advance();
                self.arr_expr()
            },
            TokenType::LeftParen => {
                if self.prev(1).token == TokenType::Ident {
                    let name = self.prev(1);
                    let rid = self.id();
                    let recv = Expression::Var { id: rid, name };
                    self.advance();
                    proof {
                        lemma_ids_inc_singleton(rid as int, old(self).id as int, self.id as int);
                        assert(ids_inc(eids(recv), old(self).id as int, self.id as int));
                    }
                    let c = self.func_call(recv)?;
                    Ok(c)
                } else {
                    self.group_expr()
                }
            },
            TokenType::Pipe => self.func_expr(),
            TokenType::Await => self.await_expr(),
            _ => {
                if self.is_literal() {
                    self.advance();
                    let v = self.to_value_type(token)?;
                    let nid = self.id();
                    proof {
                        lemma_ids_inc_singleton(nid as int, old(self).id as int, self.id as int);
                    }
                    Ok(Expression::Value { id: nid, value: v })
                } else {
                    Err(self.throw_error(ErrorCode::UnexpectedToken, vec![self.peek().lexeme]))
                }
            },
        }
    }

    /// Parses an array literal: comma-separated items up to the closing
    /// bracket, which has already been opened.
    pub fn arr_expr(&mut self) -> (r: Result<Expression, Diagnostic>)
        requires
            old(self).wf(),
        ensures
            final(self).wf(),
            final(self).tokens == old(self).tokens,
            old(self).crnt <= final(self).crnt,
            old(self).id <= final(self).id,
            final(self).id as int - old(self).id as int <= 2 * (final(self).crnt as int - old(
                self,
            ).crnt as int),
            r is Ok ==> final(self).crnt > old(self).crnt,
            r matches Ok(e) ==> ids_inc(eids(e), old(self).id as int, final(self).id as int),
            r matches Ok(e) ==> (e matches Expression::Array { .. }),
            old(self).cur().token == TokenType::RightBracket ==> (r matches Ok(e) && (e
                matches Expression::Array { id, items } && id == old(self).id && items@.len()
                == 0) && final(self).crnt == old(self).crnt + 1 && final(self).id == old(self).id
                + 1),
            is_atom(old(self).cur()) && !continues_expr(old(self).ahead(1).token) && old(
                self,
            ).ahead(1).token != TokenType::Comma && old(self).ahead(1).token
                != TokenType::RightBracket ==> (r matches Err(d) && d.code
                == ErrorCode::UnexpectedToken),
            is_atom(old(self).cur()) && old(self).ahead(1).token == TokenType::RightBracket ==> (
            r matches Ok(e) && (e matches Expression::Array { id, items } && id == old(self).id
                + 1 && items@ =~= seq![atom_expr(old(self).cur(), old(self).id as int)]) && final(self).crnt == old(self).crnt + 2 && final(self).id == old(self).id + 2),
        decreases old(self).remaining(), 8int,
    {
        let mut items: Vec<Expression> = Vec::new();
        proof {
            assert(items@ =~= Seq::<Expression>::empty());
        }
        while !self.if_token_consume(TokenType::RightBracket)
            invariant
                self.wf(),
                self.tokens == old(self).tokens,
                old(self).crnt <= self.crnt,
                old(self).id <= self.id,
                self.id as int - old(self).id as int <= 2 * (self.crnt as int - old(
                    self,
                ).crnt as int),
                ids_inc(eids_seq(items@), old(self).id as int, self.id as int),
                old(self).cur().token == TokenType::RightBracket ==> items@.len() == 0 && *self
                    == *old(self),
                is_atom(old(self).cur()) && !continues_expr(old(self).ahead(1).token) && old(
                    self,
                ).ahead(1).token != TokenType::Comma && old(self).ahead(1).token
                    != TokenType::RightBracket ==> items@.len() == 0 && *self == *old(self),
                is_atom(old(self).cur()) && old(self).ahead(1).token == TokenType::RightBracket
                    ==> ((items@.len() == 0 && *self == *old(self)) || (items@ =~= seq![
                    atom_expr(old(self).cur(), old(self).id as int),
                ] && self.crnt == old(self).crnt + 1 && self.id == old(self).id + 1)),
            decreases self.remaining(),
        {
            let ghost idb = self.id as int;
            let item = self.expr()?;
            proof {
                lemma_eids_seq_push(items@, item);
                lemma_ids_inc_concat(
                    eids_seq(items@),
                    eids(item),
                    old(self).id as int,
                    idb,
                    self.id as int,
                );
            }
            items.push(item);
            if !self.if_token_consume(TokenType::Comma) && !self.is_token(
                TokenType::RightBracket,
            ) {
                return Err(
                    self.throw_error(ErrorCode::UnexpectedToken, vec![self.peek().lexeme]),
                );
            }
        }
        let nid = self.id();
        let res = Expression::Array { id: nid, items };
        proof {
            lemma_ids_inc_push(eids_seq(res->Array_items@), old(self).id as int, nid as int);
        }
        Ok(res)
    }

    /// Parses a parenthesized grouping expression.
    pub fn group_expr(&mut self) -> (r: Result<Expression, Diagnostic>)
        requires
            old(self).wf(),
            old(self).cur().token == TokenType::LeftParen,
        ensures
            final(self).wf(),
            final(self).tokens == old(self).tokens,
            old(self).crnt <= final(self).crnt,
            old(self).id <= final(self).id,
            final(self).id as int - old(self).id as int <= 2 * (final(self).crnt as int - old(
                self,
            ).crnt as int),
            r is Ok ==> final(self).crnt > old(self).crnt,
            r matches Ok(e) ==> ids_inc(eids(e), old(self).id as int, final(self).id as int),
            r matches Ok(e) ==> (e matches Expression::Grouping { .. }),
            is_atom(old(self).ahead(1)) && old(self).ahead(2).token == TokenType::RightParen ==> (
            r matches Ok(e) && (e matches Expression::Grouping { id, expression } && id == old(
                self,
            ).id + 1 && *expression == atom_expr(old(self).ahead(1), old(self).id as int))
                && final(self).crnt == old(self).crnt + 3 && final(self).id == old(self).id + 2),
            is_atom(old(self).ahead(1)) && !continues_expr(old(self).ahead(2).token) && old(
                self,
            ).ahead(2).token != TokenType::RightParen ==> (r matches Err(d) && d.code
                == ErrorCode::UnexpectedToken),
        decreases old(self).remaining(), 1int,
    {
        self.advance();
        let e = self.expr()?;
        self.consume(TokenType::RightParen)?;
        let nid = self.id();
        let res = Expression::Grouping { id: nid, expression: Box::new(e) };
        proof {
            lemma_ids_inc_push(eids(e), old(self).id as int, nid as int);
        }
        Ok(res)
    }

    /// Parses a function literal: parameters between pipes, then either an
    /// expression body after a colon or a block body. The declared name,
    /// visibility and type are recovered by backward lookahead over the
    /// enclosing declaration, falling back to the sentinel token when the
    /// history is shorter.
    pub fn func_expr(&mut self) -> (r: Result<Expression, Diagnostic>)
        requires
            old(self).wf(),
        ensures
            final(self).wf(),
            final(self).tokens == old(self).tokens,
            old(self).crnt <= final(self).crnt,
            old(self).id <= final(self).id,
            final(self).id as int - old(self).id as int <= 2 * (final(self).crnt as int - old(
                self,
            ).crnt as int),
            r is Ok ==> final(self).crnt > old(self).crnt,
            r matches Ok(e) ==> ids_inc(eids(e), old(self).id as int, final(self).id as int),
            r matches Ok(e) ==> (e matches Expression::Func { is_async, .. } && !is_async),
            old(self).ahead(1).token == TokenType::Underscore ==> (r matches Ok(e) ==> (e
                matches Expression::Func { params, .. } && params@.len() == 0)),
            old(self).ahead(1).token == TokenType::Underscore && old(self).ahead(2).token
                == TokenType::Pipe ==> (r matches Ok(e) ==> (e matches Expression::Func {
                body,
                ..
            } && (old(self).ahead(3).token == TokenType::Colon ==> (body
                matches FuncBody::Expression(_))) && (old(self).ahead(3).token != TokenType::Colon
                ==> (body matches FuncBody::Statements(_))))),
            func_lit_window(old(self).tokens@, old(self).crnt as int) ==> (r matches Ok(e)
                && func_lit_result(e, old(self).tokens@, old(self).crnt as int, old(self).id as int)
                && final(self).crnt == old(self).crnt + 6 && final(self).id == old(self).id + 2),
            old(self).cur().token == TokenType::Pipe && old(self).ahead(1).token
                == TokenType::Underscore && old(self).ahead(2).token == TokenType::Pipe && old(
                self,
            ).ahead(3).token == TokenType::Colon && is_atom(old(self).ahead(4)) && old(
                self,
            ).ahead(5).token == TokenType::Semi ==> (r matches Ok(e) && (e
                matches Expression::Func { id, body, params, is_async, .. } && id == old(self).id
                + 1 && (body matches FuncBody::Expression(b) && *b == atom_expr(
                old(self).ahead(4),
                old(self).id as int,
            )) && params@.len() == 0 && !is_async) && final(self).crnt == old(self).crnt + 6
                && final(self).id == old(self).id + 2),
        decreases old(self).remaining(), 1int,
    {
        self.consume(TokenType::Pipe)?;
        let value_type = self.prev(3);
        let is_async = false;
        let is_pub = self.prev(9).token == TokenType::Pub;
        let name = self.prev(8);
        let mut params: Vec<(Token, TypedToken)> = Vec::new();
        if self.if_token_consume(TokenType::Underscore) {
            self.consume(TokenType::Pipe)?;
        } else {
            while !self.if_token_consume(TokenType::Pipe)
                invariant
                    self.wf(),
                    self.tokens == old(self).tokens,
                    old(self).crnt < self.crnt,
                    self.id == old(self).id,
                decreases self.remaining(),
            {
                if self.is_token(TokenType::Ident) {
                    let param_name = self.consume(TokenType::Ident)?;
                    self.consume(TokenType::Colon)?;
                    let param_type = self.consume_type()?;
                    params.push((param_name, param_type));
                } else if self.if_token_consume(TokenType::Comma) {
                } else if !self.is_token(TokenType::Pipe) {
                    return Err(
                        self.throw_error(ErrorCode::UnexpectedToken, vec![self.peek().lexeme]),
                    );
                }
            }
        }
        if self.if_token_consume(TokenType::Colon) {
            let ghost ida = self.id as int;
            let body = self.expr()?;
            self.consume(TokenType::Semi)?;
            let nid = self.id();
            let res = Expression::Func {
                id: nid,
                name,
                value_type,
                body: FuncBody::Expression(Box::new(body)),
                params,
                is_async,
                is_pub,
            };
            proof {
                lemma_ids_inc_widen(eids(body), ida, nid as int, old(self).id as int, nid as int);
                lemma_ids_inc_push(fbids(res->Func_body), old(self).id as int, nid as int);
            }
            return Ok(res);
        }
        self.consume(TokenType::LeftBrace)?;
        let ghost ida = self.id as int;
        let body = self.block_stmts()?;
        let nid = self.id();
        let res = Expression::Func {
            id: nid,
            name,
            value_type,
            body: FuncBody::Statements(body),
            params,
            is_async,
            is_pub,
        };
        proof {
            lemma_ids_inc_widen(
                fbids(res->Func_body),
                ida,
                nid as int,
                old(self).id as int,
                nid as int,
            );
            lemma_ids_inc_push(fbids(res->Func_body), old(self).id as int, nid as int);
        }
        Ok(res)
    }

    /// Parses an await expression wrapping exactly one parsed expression.
    pub fn await_expr(&mut self) -> (r: Result<Expression, Diagnostic>)
        requires
            old(self).wf(),
            old(self).cur().token == TokenType::Await,
        ensures
            final(self).wf(),
            final(self).tokens == old(self).tokens,
            old(self).crnt <= final(self).crnt,
            old(self).id <= final(self).id,
            final(self).id as int - old(self).id as int <= 2 * (final(self).crnt as int - old(
                self,
            ).crnt as int),
            r is Ok ==> final(self).crnt > old(self).crnt,
            r matches Ok(e) ==> ids_inc(eids(e), old(self).id as int, final(self).id as int),
            r matches Ok(e) ==> (e matches Expression::Await { .. }),
            is_atom(old(self).ahead(1)) && !continues_expr(old(self).ahead(2).token) ==> (r
                matches Ok(e) && (e matches Expression::Await { id, expr } && id == old(self).id
                + 1 && *expr == atom_expr(old(self).ahead(1), old(self).id as int)) && final(self).crnt == old(self).crnt + 2 && final(self).id == old(self).id + 2),
        decreases old(self).remaining(), 1int,
    {
        self.advance();
        let ghost ida = self.id as int;
        let e = self.expr()?;
        let nid = self.id();
        let res = Expression::Await { id: nid, expr: Box::new(e) };
        proof {
            lemma_ids_inc_widen(eids(e), ida, nid as int, old(self).id as int, nid as int);
            lemma_ids_inc_push(eids(e), old(self).id as int, nid as int);
        }
        Ok(res)
    }

    /// Parses the whole token sequence into an ordered statement list,
    /// stopping at end-of-input or at the first fatal diagnostic, in which
    /// case no partial statement list is returned. Node identities of a
    /// successful parse are strictly increasing, and so pairwise distinct,
    /// with one identity per expression node.
    pub fn parse(&mut self) -> (r: Result<Vec<Statement>, Diagnostic>)
        requires
            old(self).wf(),
        ensures
            final(self).wf(),
            final(self).tokens == old(self).tokens,
            old(self).crnt <= final(self).crnt,
            old(self).id <= final(self).id,
            r is Ok ==> final(self).cur().token == TokenType::Eof,
            r matches Ok(stmts) ==> ids_inc(
                sids_seq(stmts@),
                old(self).id as int,
                final(self).id as int,
            ),
            old(self).cur().token == TokenType::Eof ==> (r matches Ok(stmts) && stmts@.len() == 0
                && *final(self) == *old(self)),
            old(self).cur().token == TokenType::Let && old(self).ahead(1).token
                == TokenType::Ident && old(self).ahead(2).token == TokenType::Eof ==> (r
                matches Err(d) && d.code == ErrorCode::UnexpectedToken),
    {
        let mut stmts: Vec<Statement> = Vec::new();
        proof {
            assert(stmts@ =~= Seq::<Statement>::empty());
        }
        while !self.check(TokenType::Eof)
            invariant
                self.wf(),
                self.tokens == old(self).tokens,
                old(self).crnt <= self.crnt,
                old(self).id <= self.id,
                ids_inc(sids_seq(stmts@), old(self).id as int, self.id as int),
                old(self).cur().token == TokenType::Eof ==> *self == *old(self) && stmts@.len()
                    == 0,
                old(self).cur().token == TokenType::Let && old(self).ahead(1).token
                    == TokenType::Ident && old(self).ahead(2).token == TokenType::Eof ==> *self
                    == *old(self),
            decreases self.remaining(),
        {
            let ghost idb = self.id as int;
            let s = self.stmt()?;
            proof {
                lemma_sids_seq_push(stmts@, s);
                lemma_ids_inc_concat(
                    sids_seq(stmts@),
                    sids(s),
                    old(self).id as int,
                    idb,
                    self.id as int,
                );
            }
            stmts.push(s);
        }
        Ok(stmts)
    }

    /// Parses one statement: advances one token and dispatches on it; a
    /// token that opens no statement form is a bare expression statement.
    pub fn stmt(&mut self) -> (r: Result<Statement, Diagnostic>)
        requires
            old(self).wf(),
            old(self).cur().token != TokenType::Eof,
        ensures
            final(self).wf(),
            final(self).tokens == old(self).tokens,
            old(self).crnt <= final(self).crnt,
            old(self).id <= final(self).id,
            final(self).id as int - old(self).id as int <= 2 * (final(self).crnt as int - old(
                self,
            ).crnt as int),
            r is Ok ==> final(self).crnt > old(self).crnt,
            r matches Ok(s) ==> ids_inc(sids(s), old(self).id as int, final(self).id as int),
            r matches Ok(s) ==> match old(self).cur().token {
                TokenType::Let => s matches Statement::Var { .. },
                TokenType::Func => s matches Statement::Func { .. },
                TokenType::If => s matches Statement::If { .. },
                TokenType::Return => s matches Statement::Return { .. },
                TokenType::While => s matches Statement::While { .. },
                TokenType::Loop => s matches Statement::Loop { .. },
                TokenType::Break => s matches Statement::Break,
                TokenType::Match => s matches Statement::Match { .. },
                TokenType::Mod => s matches Statement::Mod { .. },
                TokenType::Use => s matches Statement::Use { .. },
                TokenType::Enum => s matches Statement::Enum { .. },
                TokenType::LeftBrace => s matches Statement::Block { .. },
                _ => s matches Statement::Expression { .. },
            },
            old(self).cur().token == TokenType::LeftBrace && old(self).ahead(1).token
                == TokenType::RightBrace ==> (r matches Ok(s) && (s matches Statement::Block {
                stmts: b,
            } && b@.len() == 0) && final(self).crnt == old(self).crnt + 1 && final(self).id == old(
                self,
            ).id),
            is_atom(old(self).cur()) && old(self).ahead(1).token == TokenType::Semi ==> (r
                matches Ok(s) && s == (Statement::Expression {
                expr: atom_expr(old(self).cur(), old(self).id as int),
            }) && final(self).crnt == old(self).crnt + 2 && final(self).id == old(self).id + 1),
            old(self).cur().token == TokenType::Let && old(self).ahead(1).token
                == TokenType::Ident && old(self).ahead(2).token == TokenType::Eof ==> (r
                matches Err(d) && d.code == ErrorCode::UnexpectedToken),
        decreases old(self).remaining(), 10int,
    {
        self.advance();
        let t = self.prev(1);
        match t.token {
            TokenType::Let => self.var_stmt(),
            TokenType::Func => self.func_stmt(),
            TokenType::If => self.if_stmt(),
            TokenType::Return => self.return_stmt(),
            TokenType::While => self.while_stmt(),
            TokenType::Loop => self.loop_stmt(),
            TokenType::Break => self.break_stmt(),
            TokenType::Match => self.match_stmt(),
            TokenType::Mod => self.mod_stmt(),
            TokenType::Use => self.use_stmt(),
            TokenType::Enum => self.enum_stmt(),
            TokenType::LeftBrace => self.block_stmt(),
            _ => self.expr_stmt(),
        }
    }

    /// Parses a variable declaration after its `let`: optional mutability or
    /// visibility modifier with optional export-name list, one or more bound
    /// names, then either the null-initialized sugar or a type annotation
    /// and initializer.
    pub fn var_stmt(&mut self) -> (r: Result<Statement, Diagnostic>)
        requires
            old(self).wf(),
        ensures
            final(self).wf(),
            final(self).tokens == old(self).tokens,
            old(self).crnt <= final(self).crnt,
            old(self).id <= final(self).id,
            final(self).id as int - old(self).id as int <= 2 * (final(self).crnt as int - old(
                self,
            ).crnt as int),
            r is Ok ==> final(self).crnt > old(self).crnt,
            r matches Ok(s) ==> ids_inc(sids(s), old(self).id as int, final(self).id as int),
            r matches Ok(s) ==> (s matches Statement::Var { names, pub_names, is_mut, is_pub, .. }
                && names@.len() >= 1 && pub_names@.len() >= 1 && (old(self).cur().token
                != TokenType::Pub ==> pub_names@ == names@) && is_mut == (old(self).cur().token
                == TokenType::Mut) && is_pub == (old(self).cur().token == TokenType::Pub)),
            old(self).cur().token == TokenType::Ident && old(self).ahead(1).token
                == TokenType::Semi ==> (r matches Ok(s) && null_var_stmt(
                s,
                old(self).cur(),
                old(self).ahead(1),
                old(self).id,
            ) && final(self).crnt == old(self).crnt + 2 && final(self).id == old(self).id + 1),
            old(self).cur().token == TokenType::Ident && old(self).ahead(1).token
                == TokenType::Colon && old(self).ahead(2).token == TokenType::NullIdent && old(
                self,
            ).ahead(3).token == TokenType::Semi ==> (r matches Ok(s) && null_var_stmt(
                s,
                old(self).cur(),
                old(self).ahead(1),
                old(self).id,
            ) && final(self).crnt == old(self).crnt + 4 && final(self).id == old(self).id + 1),
            old(self).cur().token == TokenType::Ident && old(self).ahead(1).token
                == TokenType::Eof ==> (r matches Err(d) && d.code == ErrorCode::UnexpectedToken),
            old(self).cur().token == TokenType::Ident && old(self).ahead(1).token
                == TokenType::Colon && is_builtin_type(old(self).ahead(2).token) && old(
                self,
            ).ahead(2).token != TokenType::NullIdent && old(self).ahead(3).token
                == TokenType::Assign && func_lit_window(
                old(self).tokens@,
                old(self).crnt as int + 4,
            ) && old(self).ahead(10).token == TokenType::Semi ==> (r matches Ok(s) && (s
                matches Statement::Var { names, value, is_func, .. } && names@ =~= seq![
                old(self).cur(),
            ] && is_func && (value matches Some(vf) && func_lit_result(
                vf,
                old(self).tokens@,
                old(self).crnt as int + 4,
                old(self).id + 1,
            ))) && final(self).crnt == old(self).crnt + 11 && final(self).id == old(self).id + 3),
            old(self).cur().token == TokenType::Ident && old(self).ahead(1).token
                == TokenType::Comma && old(self).ahead(2).token == TokenType::Ident && old(
                self,
            ).ahead(3).token == TokenType::Semi ==> (r matches Ok(s) && (s
                matches Statement::Var { names, pub_names, value, is_mut, is_pub, is_func, .. }
                && names@ =~= seq![old(self).cur(), old(self).ahead(2)] && pub_names@ =~= seq![
                old(self).cur(),
                old(self).ahead(2),
            ] && value == Some(Expression::Value { id: old(self).id, value: LiteralType::Null })
                && !is_mut && !is_pub && !is_func) && final(self).crnt == old(self).crnt + 4
                && final(self).id == old(self).id + 1),
            old(self).cur().token == TokenType::Pub && old(self).ahead(1).token
                == TokenType::Ident && old(self).ahead(2).token == TokenType::Colon
                && is_builtin_type(old(self).ahead(3).token) && old(self).ahead(3).token
                != TokenType::NullIdent && old(self).ahead(4).token == TokenType::Assign
                && is_atom(old(self).ahead(5)) && old(self).ahead(6).token == TokenType::Semi
                ==> (r matches Ok(s) && (s matches Statement::Var {
                names,
                value_type,
                value,
                is_mut,
                is_pub,
                pub_names,
                is_func,
            } && names@ =~= seq![old(self).ahead(1)] && pub_names@ =~= seq![old(self).ahead(1)]
                && value_type == (TypedToken {
                token: old(self).ahead(3),
                kind: Some(TypeKind::Var { name: old(self).ahead(3) }),
            }) && value == Some(atom_expr(old(self).ahead(5), old(self).id + 1)) && !is_mut
                && is_pub && !is_func) && final(self).crnt == old(self).crnt + 7 && final(self).id
                == old(self).id + 2),
            old(self).cur().token == TokenType::Pub && old(self).ahead(1).token
                == TokenType::LeftParen && old(self).ahead(2).token == TokenType::Ident && old(
                self,
            ).ahead(3).token == TokenType::RightParen && old(self).ahead(4).token
                == TokenType::Ident && old(self).ahead(5).token == TokenType::Colon
                && is_builtin_type(old(self).ahead(6).token) && old(self).ahead(6).token
                != TokenType::NullIdent && old(self).ahead(7).token == TokenType::Assign
                && is_atom(old(self).ahead(8)) && old(self).ahead(9).token == TokenType::Semi
                ==> (r matches Ok(s) && (s matches Statement::Var {
                names,
                pub_names,
                is_pub,
                value,
                ..
            } && names@ =~= seq![old(self).ahead(4)] && pub_names@ =~= seq![old(self).ahead(2)]
                && is_pub && value == Some(atom_expr(old(self).ahead(8), old(self).id + 1)))
                && final(self).crnt == old(self).crnt + 10 && final(self).id == old(self).id + 2),
        decreases old(self).remaining(), 13int,
    {
        let mut names: Vec<Token> = Vec::new();
        let mut pub_names: Vec<Token> = Vec::new();
        let mut is_mut = false;
        let mut is_pub = false;
        let mut is_null = false;

        if self.if_token_consume(TokenType::Mut) {
            is_mut = true;
        } else if self.if_token_consume(TokenType::Pub) {
            is_pub = true;
            if self.if_token_consume(TokenType::LeftParen) {
                let mut list_done = false;
                while !list_done
                    invariant
                        self.wf(),
                        self.tokens == old(self).tokens,
                        old(self).crnt < self.crnt,
                        self.id == old(self).id,
                        (old(self).cur().token == TokenType::Pub && old(self).ahead(1).token
                            == TokenType::LeftParen && old(self).ahead(2).token
                            == TokenType::Ident && old(self).ahead(3).token
                            == TokenType::RightParen) ==> (if list_done {
                            pub_names@ =~= seq![old(self).ahead(2)] && self.crnt == old(
                                self,
                            ).crnt + 3
                        } else {
                            pub_names@.len() == 0 && self.crnt == old(self).crnt + 2
                        }),
                    decreases self.remaining(),
                {
                    let name = self.consume(TokenType::Ident)?;
                    pub_names.push(name);
                    if !self.if_token_consume(TokenType::Comma) || self.is_token(
                        TokenType::RightParen,
                    ) {
                        list_done = true;
                    }
                }
                self.consume(TokenType::RightParen)?;
            }
        }
        let ghost gtn: bool = old(self).cur().token == TokenType::Ident && old(
            self,
        ).ahead(1).token == TokenType::Comma && old(self).ahead(2).token == TokenType::Ident
            && old(self).ahead(3).token == TokenType::Semi;
        let mut names_done = false;
        while !names_done
            invariant
                self.wf(),
                self.tokens == old(self).tokens,
                old(self).crnt <= self.crnt,
                self.id == old(self).id,
                names_done ==> names@.len() >= 1 && old(self).crnt < self.crnt,
                !names_done ==> !is_null,
                is_mut == (old(self).cur().token == TokenType::Mut),
                is_pub == (old(self).cur().token == TokenType::Pub),
                gtn ==> (if names_done {
                    names@ =~= seq![old(self).cur(), old(self).ahead(2)] && self.crnt == old(
                        self,
                    ).crnt + 3 && is_null
                } else {
                    (names@.len() == 0 && *self == *old(self)) || (names@ =~= seq![
                        old(self).cur(),
                    ] && self.crnt == old(self).crnt + 2 && !is_null)
                }),
                old(self).cur().token == TokenType::Ident && (old(self).ahead(1).token
                    == TokenType::Semi || old(self).ahead(1).token == TokenType::Colon || old(
                    self,
                ).ahead(1).token == TokenType::Eof) ==> (if names_done {
                    names@ =~= seq![old(self).cur()] && self.crnt == old(self).crnt + 1 && (
                    is_null == (old(self).ahead(1).token == TokenType::Semi))
                } else {
                    *self == *old(self) && names@.len() == 0 && !is_null
                }),
                (old(self).cur().token == TokenType::Pub && old(self).ahead(1).token
                    == TokenType::Ident && old(self).ahead(2).token == TokenType::Colon) ==> (
                pub_names@.len() == 0 && (if names_done {
                    names@ =~= seq![old(self).ahead(1)] && self.crnt == old(self).crnt + 2 && (
                    is_null == (old(self).ahead(2).token == TokenType::Semi))
                } else {
                    names@.len() == 0 && self.crnt == old(self).crnt + 1 && !is_null
                })),
                (old(self).cur().token == TokenType::Pub && old(self).ahead(1).token
                    == TokenType::LeftParen && old(self).ahead(2).token == TokenType::Ident
                    && old(self).ahead(3).token == TokenType::RightParen && old(
                    self,
                ).ahead(4).token == TokenType::Ident && old(self).ahead(5).token
                    == TokenType::Colon) ==> (pub_names@ =~= seq![old(self).ahead(2)]
                    && (if names_done {
                    names@ =~= seq![old(self).ahead(4)] && self.crnt == old(self).crnt + 5 && (
                    is_null == (old(self).ahead(5).token == TokenType::Semi))
                } else {
                    names@.len() == 0 && self.crnt == old(self).crnt + 4 && !is_null
                })),
            decreases self.remaining(),
        {
            let name = self.consume(TokenType::Ident)?;
            names.push(name);
            if self.is_token(TokenType::Semi) {
                is_null = true;
                names_done = true;
            } else if !self.is_token(TokenType::Comma) || self.is_token(TokenType::Colon) {
                names_done = true;
            } else {
                self.advance();
            }
        }
        if pub_names.len() == 0 {
            pub_names = clone_tokens(&names);
        }
        let vid = self.id();
        let line = names[0].line;
        let null_vt = TypedToken { token: self.create_null_token(line), kind: None };
        let null_val = Expression::Value { id: vid, value: LiteralType::Null };
        proof {
            lemma_ids_inc_singleton(vid as int, old(self).id as int, self.id as int);
        }
        if is_null {
            self.advance();
            return Ok(
                Statement::Var {
                    names,
                    value_type: null_vt,
                    value: Some(null_val),
                    is_mut,
                    is_pub,
                    pub_names,
                    is_func: false,
                },
            );
        }
        self.consume(TokenType::Colon)?;
        let value_type = self.consume_type()?;
        if value_type.token.token == TokenType::NullIdent {
            self.consume(TokenType::Semi)?;
            return Ok(
                Statement::Var {
                    names,
                    value_type: null_vt,
                    value: Some(null_val),
                    is_mut,
                    is_pub,
                    pub_names,
                    is_func: false,
                },
            );
        }
        self.consume(TokenType::Assign)?;
        let is_func = self.is_token(TokenType::Pipe);
        let ghost ida = self.id as int;
        let value = self.expr()?;
        self.consume(TokenType::Semi)?;
        proof {
            lemma_ids_inc_widen(
                eids(value),
                ida,
                self.id as int,
                old(self).id as int,
                self.id as int,
            );
        }
        Ok(
            Statement::Var {
                names,
                value_type,
                value: Some(value),
                is_mut,
                is_pub,
                pub_names,
                is_func,
            },
        )
    }

    /// Parses a function declaration after its keyword: optional visibility
    /// and asynchrony in either order, name, parameters, arrow and return
    /// type, then either an expression body desugared into a one-statement
    /// return block, or a block body.
    pub fn func_stmt(&mut self) -> (r: Result<Statement, Diagnostic>)
        requires
            old(self).wf(),
        ensures
            final(self).wf(),
            final(self).tokens == old(self).tokens,
            old(self).crnt <= final(self).crnt,
            old(self).id <= final(self).id,
            final(self).id as int - old(self).id as int <= 2 * (final(self).crnt as int - old(
                self,
            ).crnt as int),
            r is Ok ==> final(self).crnt > old(self).crnt,
            r matches Ok(s) ==> ids_inc(sids(s), old(self).id as int, final(self).id as int),
            r matches Ok(s) ==> (s matches Statement::Func { .. }),
            r matches Ok(s) ==> (s matches Statement::Func { body, .. } && (body
                matches FuncBody::Statements(_))),
            ((old(self).cur().token == TokenType::Pub && old(self).ahead(1).token
                == TokenType::Async) || (old(self).cur().token == TokenType::Async && old(
                self,
            ).ahead(1).token == TokenType::Pub)) && old(self).ahead(2).token == TokenType::Ident
                && old(self).ahead(3).token == TokenType::LeftParen && old(self).ahead(4).token
                == TokenType::RightParen && old(self).ahead(5).token == TokenType::Arrow
                && is_builtin_type(old(self).ahead(6).token) && old(self).ahead(7).token
                == TokenType::Assign && is_atom(old(self).ahead(8)) && old(self).ahead(9).token
                == TokenType::Semi ==> (r matches Ok(s) && (s matches Statement::Func {
                name,
                value_type,
                body,
                params,
                is_async,
                is_pub,
            } && name == old(self).ahead(2) && params@.len() == 0 && value_type == (TypedToken {
                token: old(self).ahead(6),
                kind: Some(TypeKind::Var { name: old(self).ahead(6) }),
            }) && (body matches FuncBody::Statements(v) && v@ =~= seq![
                Statement::Return { expr: atom_expr(old(self).ahead(8), old(self).id as int) },
            ]) && is_async && is_pub) && final(self).crnt == old(self).crnt + 10 && final(self).id
                == old(self).id + 1),
            old(self).cur().token == TokenType::Ident && old(self).ahead(1).token
                == TokenType::LeftParen && old(self).ahead(2).token == TokenType::Ident && old(
                self,
            ).ahead(3).token == TokenType::Colon && is_builtin_type(old(self).ahead(4).token)
                && old(self).ahead(5).token == TokenType::RightParen && old(self).ahead(6).token
                == TokenType::Arrow && is_builtin_type(old(self).ahead(7).token) && old(
                self,
            ).ahead(8).token == TokenType::Assign && is_atom(old(self).ahead(9)) && old(
                self,
            ).ahead(10).token == TokenType::Semi ==> (r matches Ok(s) && (s
                matches Statement::Func { name, value_type, body, params, .. } && name == old(
                self,
            ).cur() && params@ =~= seq![
                (
                    old(self).ahead(2),
                    TypedToken {
                        token: old(self).ahead(4),
                        kind: Some(TypeKind::Var { name: old(self).ahead(4) }),
                    },
                ),
            ] && value_type == (TypedToken {
                token: old(self).ahead(7),
                kind: Some(TypeKind::Var { name: old(self).ahead(7) }),
            }) && (body matches FuncBody::Statements(v) && v@ =~= seq![
                Statement::Return { expr: atom_expr(old(self).ahead(9), old(self).id as int) },
            ])) && final(self).crnt == old(self).crnt + 11 && final(self).id == old(self).id + 1),
            r matches Ok(s) ==> (s matches Statement::Func { is_async, is_pub, .. } && is_pub == (
            old(self).cur().token == TokenType::Pub || (old(self).cur().token == TokenType::Async
                && old(self).ahead(1).token == TokenType::Pub)) && is_async == (old(
                self,
            ).cur().token == TokenType::Async || (old(self).cur().token == TokenType::Pub && old(
                self,
            ).ahead(1).token == TokenType::Async))),
            old(self).cur().token == TokenType::Ident && old(self).ahead(1).token
                == TokenType::LeftParen && old(self).ahead(2).token == TokenType::RightParen
                && old(self).ahead(3).token == TokenType::Arrow && is_builtin_type(
                old(self).ahead(4).token,
            ) && old(self).ahead(5).token == TokenType::Assign && is_atom(old(self).ahead(6))
                && old(self).ahead(7).token == TokenType::Semi ==> (r matches Ok(s) && (s
                matches Statement::Func { name, value_type, body, params, is_async, is_pub }
                && name == old(self).cur() && params@.len() == 0 && value_type == (TypedToken {
                token: old(self).ahead(4),
                kind: Some(TypeKind::Var { name: old(self).ahead(4) }),
            }) && (body matches FuncBody::Statements(v) && v@ =~= seq![
                Statement::Return { expr: atom_expr(old(self).ahead(6), old(self).id as int) },
            ]) && !is_async && !is_pub) && final(self).crnt == old(self).crnt + 8 && final(self).id
                == old(self).id + 1),
        decreases old(self).remaining(), 13int,
    {
        let mut params: Vec<(Token, TypedToken)> = Vec::new();
        let mut is_async = false;
        let mut is_pub = false;

        if self.if_token_consume(TokenType::Pub) {
            is_pub = true;
            if self.if_token_consume(TokenType::Async) {
                is_async = true;
            }
        }
        if self.if_token_consume(TokenType::Async) {
            is_async = true;
            if self.if_token_consume(TokenType::Pub) {
                is_pub = true;
            }
        }
        let name = self.consume(TokenType::Ident)?;
        self.consume(TokenType::LeftParen)?;
        while !self.if_token_consume(TokenType::RightParen)
            invariant
                self.wf(),
                self.tokens == old(self).tokens,
                old(self).crnt < self.crnt,
                self.id == old(self).id,
                (old(self).cur().token == TokenType::Ident && old(self).ahead(1).token
                    == TokenType::LeftParen && old(self).ahead(2).token == TokenType::RightParen)
                    ==> params@.len() == 0 && self.crnt == old(self).crnt + 2,
                (((old(self).cur().token == TokenType::Pub && old(self).ahead(1).token
                    == TokenType::Async) || (old(self).cur().token == TokenType::Async && old(
                    self,
                ).ahead(1).token == TokenType::Pub)) && old(self).ahead(2).token
                    == TokenType::Ident && old(self).ahead(3).token == TokenType::LeftParen
                    && old(self).ahead(4).token == TokenType::RightParen) ==> params@.len() == 0
                    && self.crnt == old(self).crnt + 4,
                (old(self).cur().token == TokenType::Ident && old(self).ahead(1).token
                    == TokenType::LeftParen && old(self).ahead(2).token == TokenType::Ident
                    && old(self).ahead(3).token == TokenType::Colon && is_builtin_type(
                    old(self).ahead(4).token,
                ) && old(self).ahead(5).token == TokenType::RightParen) ==> ((params@.len() == 0
                    && self.crnt == old(self).crnt + 2) || (params@ =~= seq![
                    (
                        old(self).ahead(2),
                        TypedToken {
                            token: old(self).ahead(4),
                            kind: Some(TypeKind::Var { name: old(self).ahead(4) }),
                        },
                    ),
                ] && self.crnt == old(self).crnt + 5)),
            decreases self.remaining(),
        {
            if self.is_token(TokenType::Ident) {
                let param_name = self.consume(TokenType::Ident)?;
                self.consume(TokenType::Colon)?;
                let param_type = self.consume_type()?;
                params.push((param_name, param_type));
            } else if self.if_token_consume(TokenType::Comma) {
            } else if !self.is_token(TokenType::RightParen) {
                return Err(
                    self.throw_error(ErrorCode::UnexpectedToken, vec![self.peek().lexeme]),
                );
            }
        }
        self.consume(TokenType::Arrow)?;
        let value_type = self.consume_type()?;

        if self.if_token_consume(TokenType::Assign) {
            let ghost ida = self.id as int;
            let body = self.expr()?;
            self.consume(TokenType::Semi)?;
            let ret = Statement::Return { expr: body };
            let stmts = vec![ret];
            let res = Statement::Func {
                name,
                value_type,
                body: FuncBody::Statements(stmts),
                params,
                is_async,
                is_pub,
            };
            proof {
                assert(stmts@.len() == 1);
                assert(stmts@.drop_first() =~= Seq::<Statement>::empty());
                assert(sids_seq(Seq::<Statement>::empty()) == Seq::<int>::empty());
                assert(sids_seq(stmts@) =~= sids(stmts@[0]));
                lemma_ids_inc_widen(
                    sids(res),
                    ida,
                    self.id as int,
                    old(self).id as int,
                    self.id as int,
                );
            }
            return Ok(res);
        }
        self.consume(TokenType::LeftBrace)?;
        let ghost ida = self.id as int;
        let body = self.block_stmts()?;
        let res = Statement::Func {
            name,
            value_type,
            body: FuncBody::Statements(body),
            params,
            is_async,
            is_pub,
        };
        proof {
            lemma_ids_inc_widen(
                sids(res),
                ida,
                self.id as int,
                old(self).id as int,
                self.id as int,
            );
        }
        Ok(res)
    }

    /// Parses an if statement: condition, block body, any number of ordered
    /// elif branches, and an optional trailing else block.
    pub fn if_stmt(&mut self) -> (r: Result<Statement, Diagnostic>)
        requires
            old(self).wf(),
        ensures
            final(self).wf(),
            final(self).tokens == old(self).tokens,
            old(self).crnt <= final(self).crnt,
            old(self).id <= final(self).id,
            final(self).id as int - old(self).id as int <= 2 * (final(self).crnt as int - old(
                self,
            ).crnt as int),
            r is Ok ==> final(self).crnt > old(self).crnt,
            r matches Ok(s) ==> ids_inc(sids(s), old(self).id as int, final(self).id as int),
            r matches Ok(s) ==> (s matches Statement::If { .. }),
            is_atom(old(self).cur()) && old(self).ahead(1).token == TokenType::LeftBrace && old(
                self,
            ).ahead(2).token == TokenType::RightBrace && old(self).ahead(3).token
                != TokenType::ElseIf && old(self).ahead(3).token != TokenType::Else ==> (r
                matches Ok(s) && (s matches Statement::If { cond, body, else_if_branches, else_branch }
                && cond == atom_expr(old(self).cur(), old(self).id as int) && body@.len() == 1 && (
                body@[0] matches Statement::Block { stmts: b } && b@.len() == 0)
                && else_if_branches@.len() == 0 && else_branch is None) && final(self).crnt == old(
                self,
            ).crnt + 3 && final(self).id == old(self).id + 1),
            is_atom(old(self).cur()) && old(self).ahead(1).token == TokenType::LeftBrace && old(
                self,
            ).ahead(2).token == TokenType::RightBrace && old(self).ahead(3).token
                == TokenType::ElseIf && is_atom(old(self).ahead(4)) && old(self).ahead(5).token
                == TokenType::LeftBrace && old(self).ahead(6).token == TokenType::RightBrace
                && old(self).ahead(7).token != TokenType::ElseIf && old(self).ahead(7).token
                != TokenType::Else ==> (r matches Ok(s) && (s matches Statement::If {
                cond,
                body,
                else_if_branches,
                else_branch,
            } && cond == atom_expr(old(self).cur(), old(self).id as int) && body@.len() == 1 && (
            body@[0] matches Statement::Block { stmts: b } && b@.len() == 0)
                && else_if_branches@.len() == 1 && else_if_branches@[0].0 == atom_expr(
                old(self).ahead(4),
                old(self).id + 1,
            ) && else_if_branches@[0].1@.len() == 1 && (else_if_branches@[0].1@[0]
                matches Statement::Block { stmts: eb } && eb@.len() == 0) && else_branch is None)
                && final(self).crnt == old(self).crnt + 7 && final(self).id == old(self).id + 2),
        decreases old(self).remaining(), 9int,
    {
        let cond = self.expr()?;
        let ghost i1 = self.id as int;
        let body = self.block_stmts()?;
        let ghost i2 = self.id as int;
        let mut branches: Vec<(Expression, Vec<Statement>)> = Vec::new();
        proof {
            assert(branches@ =~= Seq::<(Expression, Vec<Statement>)>::empty());
        }
        while self.if_token_consume(TokenType::ElseIf)
            invariant
                self.wf(),
                self.tokens == old(self).tokens,
                old(self).crnt < self.crnt,
                i2 <= self.id as int,
                old(self).id as int <= i1 <= i2,
                self.id as int - old(self).id as int <= 2 * (self.crnt as int - old(
                    self,
                ).crnt as int),
                ids_inc(eids(cond), old(self).id as int, i1),
                ids_inc(sids_seq(body@), i1, i2),
                ids_inc(branch_ids(branches@), i2, self.id as int),
                is_atom(old(self).cur()) && old(self).ahead(1).token == TokenType::LeftBrace
                    && old(self).ahead(2).token == TokenType::RightBrace && old(
                    self,
                ).ahead(3).token != TokenType::ElseIf && old(self).ahead(3).token
                    != TokenType::Else ==> branches@.len() == 0 && self.crnt == old(self).crnt + 3
                    && self.id == old(self).id + 1,
                (is_atom(old(self).cur()) && old(self).ahead(1).token == TokenType::LeftBrace
                    && old(self).ahead(2).token == TokenType::RightBrace && old(
                    self,
                ).ahead(3).token == TokenType::ElseIf && is_atom(old(self).ahead(4)) && old(
                    self,
                ).ahead(5).token == TokenType::LeftBrace && old(self).ahead(6).token
                    == TokenType::RightBrace && old(self).ahead(7).token != TokenType::ElseIf
                    && old(self).ahead(7).token != TokenType::Else) ==> ((branches@.len() == 0
                    && self.crnt == old(self).crnt + 3 && self.id == old(self).id + 1) || (
                branches@.len() == 1 && branches@[0].0 == atom_expr(
                    old(self).ahead(4),
                    old(self).id + 1,
                ) && branches@[0].1@.len() == 1 && (branches@[0].1@[0] matches Statement::Block {
                    stmts: eb,
                } && eb@.len() == 0) && self.crnt == old(self).crnt + 7 && self.id == old(
                    self,
                ).id + 2)),
            decreases self.remaining(),
        {
            let ghost idb = self.id as int;
            let elif_pred = self.expr()?;
            let ghost idc = self.id as int;
            let elif_body = self.block_stmts()?;
            proof {
                lemma_branch_ids_push(branches@, (elif_pred, elif_body));
                lemma_ids_inc_concat(eids(elif_pred), sids_seq(elif_body@), idb, idc,
                    self.id as int);
                lemma_ids_inc_concat(
                    branch_ids(branches@),
                    eids(elif_pred) + sids_seq(elif_body@),
                    i2,
                    idb,
                    self.id as int,
                );
                assert(branch_ids(branches@) + eids(elif_pred) + sids_seq(elif_body@) =~= (
                branch_ids(branches@) + (eids(elif_pred) + sids_seq(elif_body@))));
            }
            branches.push((elif_pred, elif_body));
        }
        let ghost i3 = self.id as int;
        let else_branch = if self.if_token_consume(TokenType::Else) {
            Some(self.block_stmts()?)
        } else {
            None
        };
        let ghost tail = match &else_branch {
            Option::Some(v) => sids_seq(v@),
            Option::None => Seq::<int>::empty(),
        };
        let res = Statement::If { cond, body, else_if_branches: branches, else_branch };
        proof {
            lemma_ids_inc_concat(eids(cond), sids_seq(body@), old(self).id as int, i1, i2);
            lemma_ids_inc_concat(
                eids(cond) + sids_seq(body@),
                branch_ids(branches@),
                old(self).id as int,
                i2,
                i3,
            );
            lemma_ids_inc_concat(
                eids(cond) + sids_seq(body@) + branch_ids(branches@),
                tail,
                old(self).id as int,
                i3,
                self.id as int,
            );
        }
        Ok(res)
    }

    /// Parses a return statement; a bare `return ;` yields a null literal
    /// value stamped with the next identity.
    pub fn return_stmt(&mut self) -> (r: Result<Statement, Diagnostic>)
        requires
            old(self).wf(),
        ensures
            final(self).wf(),
            final(self).tokens == old(self).tokens,
            old(self).crnt <= final(self).crnt,
            old(self).id <= final(self).id,
            final(self).id as int - old(self).id as int <= 2 * (final(self).crnt as int - old(
                self,
            ).crnt as int),
            r is Ok ==> final(self).crnt > old(self).crnt,
            r matches Ok(s) ==> ids_inc(sids(s), old(self).id as int, final(self).id as int),
            r matches Ok(s) ==> (s matches Statement::Return { .. }),
            old(self).cur().token == TokenType::Semi ==> (r matches Ok(s) && (s
                matches Statement::Return { expr } && expr == Expression::Value {
                id: old(self).id,
                value: LiteralType::Null,
            }) && final(self).crnt == old(self).crnt + 1 && final(self).id == old(self).id + 1),
            r is Ok ==> final(self).tokens@[final(self).crnt - 1].token == TokenType::Semi,
            is_atom(old(self).cur()) && old(self).ahead(1).token == TokenType::Semi ==> (r
                matches Ok(s) && s == (Statement::Return {
                expr: atom_expr(old(self).cur(), old(self).id as int),
            }) && final(self).crnt == old(self).crnt + 2 && final(self).id == old(self).id + 1),
            is_atom(old(self).cur()) && !continues_expr(old(self).ahead(1).token) && old(
                self,
            ).ahead(1).token != TokenType::Semi ==> (r matches Err(d) && d.code
                == ErrorCode::UnexpectedToken),
        decreases old(self).remaining(), 9int,
    {
        if self.is_token(TokenType::Semi) {
            let vid = self.id();
            let e = Expression::Value { id: vid, value: LiteralType::Null };
            self.consume(TokenType::Semi)?;
            proof {
                lemma_ids_inc_singleton(vid as int, old(self).id as int, self.id as int);
            }
            Ok(Statement::Return { expr: e })
        } else {
            let e = self.expr()?;
            self.consume(TokenType::Semi)?;
            Ok(Statement::Return { expr: e })
        }
    }

    /// Parses a while statement: a condition expression with no parentheses
    /// required, then a block body.
    pub fn while_stmt(&mut self) -> (r: Result<Statement, Diagnostic>)
        requires
            old(self).wf(),
        ensures
            final(self).wf(),
            final(self).tokens == old(self).tokens,
            old(self).crnt <= final(self).crnt,
            old(self).id <= final(self).id,
            final(self).id as int - old(self).id as int <= 2 * (final(self).crnt as int - old(
                self,
            ).crnt as int),
            r is Ok ==> final(self).crnt > old(self).crnt,
            r matches Ok(s) ==> ids_inc(sids(s), old(self).id as int, final(self).id as int),
            r matches Ok(s) ==> (s matches Statement::While { .. }),
            is_atom(old(self).cur()) && old(self).ahead(1).token == TokenType::LeftBrace && old(
                self,
            ).ahead(2).token == TokenType::RightBrace ==> (r matches Ok(s) && (s
                matches Statement::While { cond, body } && cond == atom_expr(
                old(self).cur(),
                old(self).id as int,
            ) && body@.len() == 1 && (body@[0] matches Statement::Block { stmts: b } && b@.len()
                == 0)) && final(self).crnt == old(self).crnt + 3 && final(self).id == old(
                self,
            ).id + 1),
        decreases old(self).remaining(), 9int,
    {
        let cond = self.expr()?;
        let ghost i1 = self.id as int;
        let body = self.block_stmts()?;
        proof {
            lemma_ids_inc_concat(eids(cond), sids_seq(body@), old(self).id as int, i1,
                self.id as int);
        }
        Ok(Statement::While { cond, body })
    }

    /// Parses a loop statement: an optional leading numeric repeat count,
    /// then a block body. A negative count clamps to one iteration; an
    /// absent count means an infinite loop.
    pub fn loop_stmt(&mut self) -> (r: Result<Statement, Diagnostic>)
        requires
            old(self).wf(),
        ensures
            final(self).wf(),
            final(self).tokens == old(self).tokens,
            old(self).crnt <= final(self).crnt,
            old(self).id <= final(self).id,
            final(self).id as int - old(self).id as int <= 2 * (final(self).crnt as int - old(
                self,
            ).crnt as int),
            r is Ok ==> final(self).crnt > old(self).crnt,
            r matches Ok(s) ==> ids_inc(sids(s), old(self).id as int, final(self).id as int),
            r matches Ok(s) ==> (s matches Statement::Loop { iter, .. } && iter == loop_count(
                old(self).cur(),
            )),
            old(self).cur().token == TokenType::LeftBrace && old(self).ahead(1).token
                == TokenType::RightBrace ==> (r matches Ok(s) && (s matches Statement::Loop {
                iter,
                body,
            } && iter is None && body@.len() == 1 && (body@[0] matches Statement::Block {
                stmts: b,
            } && b@.len() == 0)) && final(self).crnt == old(self).crnt + 2 && final(self).id
                == old(self).id),
            old(self).cur().token == TokenType::NumberLit && (old(self).cur().value matches Some(
                LiteralKind::Number { .. },
            )) && old(self).ahead(1).token == TokenType::LeftBrace && old(self).ahead(2).token
                == TokenType::RightBrace ==> (r matches Ok(s) && (s matches Statement::Loop {
                iter,
                body,
            } && iter == loop_count(old(self).cur()) && body@.len() == 1 && (body@[0]
                matches Statement::Block { stmts: b } && b@.len() == 0)) && final(self).crnt
                == old(self).crnt + 3 && final(self).id == old(self).id),
            old(self).cur().token == TokenType::NumberLit && !(old(self).cur().value matches Some(
                LiteralKind::Number { .. },
            )) ==> (r matches Err(d) && d.code == ErrorCode::MalformedLiteral),
        decreases old(self).remaining(), 13int,
    {
        let iter: Option<usize> = if self.is_token(TokenType::NumberLit) {
            let numtok = self.consume(TokenType::NumberLit)?;
            let num = match numtok.value {
                Some(LiteralKind::Number { value }) => value,
                _ => {
                    return Err(
                        self.throw_error(ErrorCode::MalformedLiteral, vec![self.peek().lexeme]),
                    );
                },
            };
            if num < 0 {
                Some(1)
            } else {
                Some(#[verifier::truncate] (num as usize))
            }
        } else {
            None
        };
        let ghost i1 = self.id as int;
        let body = self.block_stmts()?;
        proof {
            lemma_ids_inc_widen(
                sids_seq(body@),
                i1,
                self.id as int,
                old(self).id as int,
                self.id as int,
            );
        }
        Ok(Statement::Loop { iter, body })
    }

    /// Parses a break statement: nothing but its terminating semicolon.
    pub fn break_stmt(&mut self) -> (r: Result<Statement, Diagnostic>)
        requires
            old(self).wf(),
        ensures
            final(self).wf(),
            final(self).tokens == old(self).tokens,
            old(self).crnt <= final(self).crnt,
            final(self).id == old(self).id,
            (r is Ok) == (old(self).cur().token == TokenType::Semi),
            r matches Ok(s) ==> s == Statement::Break && final(self).crnt == old(self).crnt + 1,
        decreases old(self).remaining(), 13int,
    {
        self.consume(TokenType::Semi)?;
        Ok(Statement::Break)
    }

    /// Parses a match statement: a subject expression, then zero or more
    /// cases keyed by a literal or uppercase-leading identifier, an optional
    /// default case, and the closing brace. A block with no cases and no
    /// default parses to an empty case list and an empty default body.
    pub fn match_stmt(&mut self) -> (r: Result<Statement, Diagnostic>)
        requires
            old(self).wf(),
        ensures
            final(self).wf(),
            final(self).tokens == old(self).tokens,
            old(self).crnt <= final(self).crnt,
            old(self).id <= final(self).id,
            final(self).id as int - old(self).id as int <= 2 * (final(self).crnt as int - old(
                self,
            ).crnt as int),
            r is Ok ==> final(self).crnt > old(self).crnt,
            r matches Ok(s) ==> ids_inc(sids(s), old(self).id as int, final(self).id as int),
            r matches Ok(s) ==> (s matches Statement::Match { .. }),
            is_atom(old(self).cur()) && old(self).ahead(1).token == TokenType::LeftBrace && old(
                self,
            ).ahead(2).token == TokenType::RightBrace ==> (r matches Ok(s) && (s
                matches Statement::Match { cond, cases, def_case } && cond == atom_expr(
                old(self).cur(),
                old(self).id as int,
            ) && cases@.len() == 0 && (def_case matches FuncBody::Statements(v) && v@.len() == 0))
                && final(self).crnt == old(self).crnt + 3 && final(self).id == old(self).id + 1),
            is_atom(old(self).cur()) && old(self).ahead(1).token == TokenType::LeftBrace
                && is_value_literal(old(self).ahead(2).token) && lit_of(old(self).ahead(2))
                is Some && old(self).ahead(3).token == TokenType::ArrowBig && is_atom(
                old(self).ahead(4),
            ) && old(self).ahead(5).token == TokenType::Comma && old(self).ahead(6).token
                == TokenType::RightBrace ==> (r matches Ok(s) && (s matches Statement::Match {
                cond,
                cases,
                def_case,
            } && cond == atom_expr(old(self).cur(), old(self).id as int) && cases@.len() == 1
                && cases@[0].0 == atom_expr(old(self).ahead(2), old(self).id + 1) && (cases@[0].1
                matches FuncBody::Expression(b) && *b == atom_expr(
                old(self).ahead(4),
                old(self).id + 2,
            )) && (def_case matches FuncBody::Statements(v) && v@.len() == 0)) && final(self).crnt
                == old(self).crnt + 7 && final(self).id == old(self).id + 3),
        decreases old(self).remaining(), 9int,
    {
        let cond = self.expr()?;
        let ghost i1 = self.id as int;
        self.consume(TokenType::LeftBrace)?;
        let mut cases: Vec<(Expression, FuncBody)> = Vec::new();
        proof {
            assert(cases@ =~= Seq::<(Expression, FuncBody)>::empty());
        }
        while self.is_literal() || (self.is_token(TokenType::Ident) && self.is_uppercase_ident())
            invariant
                self.wf(),
                self.tokens == old(self).tokens,
                old(self).crnt < self.crnt,
                old(self).id as int <= i1 <= self.id as int,
                self.id as int - old(self).id as int <= 2 * (self.crnt as int - old(
                    self,
                ).crnt as int),
                ids_inc(eids(cond), old(self).id as int, i1),
                ids_inc(case_ids(cases@), i1, self.id as int),
                is_atom(old(self).cur()) && old(self).ahead(1).token == TokenType::LeftBrace
                    && old(self).ahead(2).token == TokenType::RightBrace ==> cases@.len() == 0
                    && self.crnt == old(self).crnt + 2 && self.id == old(self).id + 1,
                (is_atom(old(self).cur()) && old(self).ahead(1).token == TokenType::LeftBrace
                    && is_value_literal(old(self).ahead(2).token) && lit_of(old(self).ahead(2))
                    is Some && old(self).ahead(3).token == TokenType::ArrowBig && is_atom(
                    old(self).ahead(4),
                ) && old(self).ahead(5).token == TokenType::Comma && old(self).ahead(6).token
                    == TokenType::RightBrace) ==> ((cases@.len() == 0 && self.crnt == old(
                    self,
                ).crnt + 2 && self.id == old(self).id + 1) || (cases@.len() == 1 && cases@[0].0
                    == atom_expr(old(self).ahead(2), old(self).id + 1) && (cases@[0].1
                    matches FuncBody::Expression(b) && *b == atom_expr(
                    old(self).ahead(4),
                    old(self).id + 2,
                )) && self.crnt == old(self).crnt + 6 && self.id == old(self).id + 3)),
            decreases self.remaining(),
        {
            let ghost idb = self.id as int;
            let key = self.expr()?;
            let ghost idc = self.id as int;
            self.consume(TokenType::ArrowBig)?;
            let case_body: FuncBody = if self.if_token_advance(TokenType::LeftBrace) {
                let b = self.block_stmts()?;
                FuncBody::Statements(b)
            } else {
                let b = self.expr()?;
                self.consume(TokenType::Comma)?;
                FuncBody::Expression(Box::new(b))
            };
            proof {
                lemma_case_ids_push(cases@, (key, case_body));
                lemma_ids_inc_concat(eids(key), fbids(case_body), idb, idc, self.id as int);
                lemma_ids_inc_concat(
                    case_ids(cases@),
                    eids(key) + fbids(case_body),
                    i1,
                    idb,
                    self.id as int,
                );
                assert(case_ids(cases@) + eids(key) + fbids(case_body) =~= (case_ids(cases@) + (
                eids(key) + fbids(case_body))));
            }
            cases.push((key, case_body));
        }
        let ghost i2 = self.id as int;
        let mut def_case: FuncBody = FuncBody::Statements(Vec::new());
        proof {
            assert(fbids(def_case) =~= Seq::<int>::empty());
        }
        if self.if_token_consume(TokenType::Underscore) {
            self.consume(TokenType::ArrowBig)?;
            if self.if_token_consume(TokenType::LeftBrace) {
                let b = self.block_stmts()?;
                def_case = FuncBody::Statements(b);
            } else {
                let b = self.expr()?;
                def_case = FuncBody::Expression(Box::new(b));
            }
        }
        let res = Statement::Match { cond, cases, def_case };
        self.consume(TokenType::RightBrace)?;
        proof {
            lemma_ids_inc_concat(eids(cond), case_ids(cases@), old(self).id as int, i1, i2);
            lemma_ids_inc_concat(
                eids(cond) + case_ids(cases@),
                fbids(def_case),
                old(self).id as int,
                i2,
                self.id as int,
            );
        }
        Ok(res)
    }

    /// Parses a module declaration: a string-literal path and a semicolon.
    pub fn mod_stmt(&mut self) -> (r: Result<Statement, Diagnostic>)
        requires
            old(self).wf(),
        ensures
            final(self).wf(),
            final(self).tokens == old(self).tokens,
            old(self).crnt <= final(self).crnt,
            final(self).id == old(self).id,
            (r is Ok) == (old(self).cur().token == TokenType::StringLit && old(self).tokens@[old(
                self,
            ).crnt + 1].token == TokenType::Semi),
            r matches Ok(s) ==> s == (Statement::Mod { src: old(self).cur().lexeme })
                && final(self).crnt == old(self).crnt + 2,
        decreases old(self).remaining(), 13int,
    {
        let src = self.consume(TokenType::StringLit)?.lexeme;
        self.consume(TokenType::Semi)?;
        Ok(Statement::Mod { src })
    }

    /// Parses a use declaration: either a wildcard, or comma-separated names
    /// with optional aliases, terminated by `from`, a string-literal path
    /// and a semicolon.
    pub fn use_stmt(&mut self) -> (r: Result<Statement, Diagnostic>)
        requires
            old(self).wf(),
        ensures
            final(self).wf(),
            final(self).tokens == old(self).tokens,
            old(self).crnt <= final(self).crnt,
            final(self).id == old(self).id,
            r is Ok ==> final(self).crnt > old(self).crnt,
            r matches Ok(s) ==> (s matches Statement::Use { .. }),
            r matches Ok(s) ==> ids_inc(sids(s), old(self).id as int, final(self).id as int),
            r matches Ok(s) ==> (s matches Statement::Use { all, .. } && all == (old(
                self,
            ).cur().token == TokenType::Mult)),
            old(self).cur().token == TokenType::Mult && old(self).ahead(1).token
                == TokenType::From && old(self).ahead(2).token == TokenType::StringLit && old(
                self,
            ).ahead(3).token == TokenType::Semi ==> (r matches Ok(s) && (s
                matches Statement::Use { src, names, all } && src == old(self).ahead(2).lexeme
                && names@.len() == 0 && all) && final(self).crnt == old(self).crnt + 4 && final(self).id == old(self).id),
            old(self).cur().token == TokenType::Ident && old(self).ahead(1).token
                == TokenType::From && old(self).ahead(2).token == TokenType::StringLit && old(
                self,
            ).ahead(3).token == TokenType::Semi ==> (r matches Ok(s) && (s
                matches Statement::Use { src, names, all } && src == old(self).ahead(2).lexeme
                && names@ =~= seq![(old(self).cur(), Option::<Token>::None)] && !all) && final(self).crnt == old(self).crnt + 4 && final(self).id == old(self).id),
        decreases old(self).remaining(), 13int,
    {
        let mut names: Vec<(Token, Option<Token>)> = Vec::new();
        let mut all = false;
        if self.if_token_advance(TokenType::Mult) {
            all = true;
            self.consume(TokenType::From)?;
        } else {
            while !self.if_token_advance(TokenType::From)
                invariant
                    self.wf(),
                    self.tokens == old(self).tokens,
                    old(self).crnt <= self.crnt,
                    self.id == old(self).id,
                    (old(self).cur().token == TokenType::Ident && old(self).ahead(1).token
                        == TokenType::From) ==> ((names@.len() == 0 && *self == *old(self)) || (
                    names@ =~= seq![(old(self).cur(), Option::<Token>::None)] && self.crnt == old(
                        self,
                    ).crnt + 1)),
                decreases self.remaining(),
            {
                let name = self.consume(TokenType::Ident)?;
                if self.if_token_consume(TokenType::As) {
                    let as_name = self.consume(TokenType::Ident)?;
                    names.push((name, Some(as_name)));
                } else {
                    names.push((name, None));
                }
                self.if_token_consume(TokenType::Comma);
            }
        }
        let src = self.consume(TokenType::StringLit)?.lexeme;
        self.consume(TokenType::Semi)?;
        Ok(Statement::Use { src, names, all })
    }

    /// Parses an enum declaration: optional visibility, an
    /// uppercase-leading name, then comma-separated members up to the
    /// closing brace; every separator must be a comma unless immediately
    /// followed by the closing brace.
    pub fn enum_stmt(&mut self) -> (r: Result<Statement, Diagnostic>)
        requires
            old(self).wf(),
        ensures
            final(self).wf(),
            final(self).tokens == old(self).tokens,
            old(self).crnt <= final(self).crnt,
            final(self).id == old(self).id,
            r is Ok ==> final(self).crnt > old(self).crnt,
            r matches Ok(s) ==> (s matches Statement::Enum { .. }),
            r matches Ok(s) ==> ids_inc(sids(s), old(self).id as int, final(self).id as int),
            r matches Ok(s) ==> (s matches Statement::Enum { is_pub, .. } && is_pub == (old(
                self,
            ).cur().token == TokenType::Pub)),
            old(self).cur().token == TokenType::Ident && old(self).cur().lexeme@.len() > 0
                && char_is_uppercase(old(self).cur().lexeme@[0]) && old(self).ahead(1).token
                == TokenType::LeftBrace && old(self).ahead(2).token == TokenType::RightBrace ==> (
            r matches Ok(s) && (s matches Statement::Enum { name, enums, is_pub } && name == old(
                self,
            ).cur() && enums@.len() == 0 && !is_pub) && final(self).crnt == old(self).crnt + 3
                && final(self).id == old(self).id),
            old(self).cur().token != TokenType::Pub && (old(self).cur().lexeme@.len() == 0
                || !char_is_uppercase(old(self).cur().lexeme@[0])) ==> (r matches Err(d) && d.code
                == ErrorCode::ExpectedUppercaseIdentifier),
            old(self).cur().token == TokenType::Ident && old(self).cur().lexeme@.len() > 0
                && char_is_uppercase(old(self).cur().lexeme@[0]) && old(self).ahead(1).token
                == TokenType::LeftBrace && old(self).ahead(2).token == TokenType::Ident && old(
                self,
            ).ahead(3).token == TokenType::RightBrace ==> (r matches Ok(s) && (s
                matches Statement::Enum { name, enums, .. } && name == old(self).cur() && enums@
                =~= seq![old(self).ahead(2)]) && final(self).crnt == old(self).crnt + 4),
        decreases old(self).remaining(), 13int,
    {
        let mut is_pub = false;
        if self.if_token_consume(TokenType::Pub) {
            is_pub = true;
        }
        let name = self.consume_uppercase_ident()?;
        self.consume(TokenType::LeftBrace)?;
        let mut enums: Vec<Token> = Vec::new();
        while !self.if_token_consume(TokenType::RightBrace)
            invariant
                self.wf(),
                self.tokens == old(self).tokens,
                old(self).crnt < self.crnt,
                self.id == old(self).id,
                old(self).cur().token == TokenType::Ident && old(self).cur().lexeme@.len() > 0
                    && char_is_uppercase(old(self).cur().lexeme@[0]) && old(self).ahead(1).token
                    == TokenType::LeftBrace && old(self).ahead(2).token == TokenType::RightBrace
                    ==> enums@.len() == 0 && self.crnt == old(self).crnt + 2,
                (old(self).cur().token == TokenType::Ident && old(self).cur().lexeme@.len() > 0
                    && char_is_uppercase(old(self).cur().lexeme@[0]) && old(self).ahead(1).token
                    == TokenType::LeftBrace && old(self).ahead(2).token == TokenType::Ident
                    && old(self).ahead(3).token == TokenType::RightBrace) ==> ((enums@.len() == 0
                    && self.crnt == old(self).crnt + 2) || (enums@ =~= seq![old(self).ahead(2)]
                    && self.crnt == old(self).crnt + 3)),
            decreases self.remaining(),
        {
            let enm = self.consume(TokenType::Ident)?;
            enums.push(enm);
            proof {
                assert(self.crnt > old(self).crnt);
            }
            if !self.if_token_consume(TokenType::Comma) && !self.is_token(
                TokenType::RightBrace,
            ) {
                return Err(
                    self.throw_error(ErrorCode::UnexpectedToken, vec![self.peek().lexeme]),
                );
            }
        }
        Ok(Statement::Enum { name, enums, is_pub })
    }

    /// Parses statements up to the closing brace, which it also consumes,
    /// and hands back the raw statement list.
    pub fn block_stmts(&mut self) -> (r: Result<Vec<Statement>, Diagnostic>)
        requires
            old(self).wf(),
        ensures
            final(self).wf(),
            final(self).tokens == old(self).tokens,
            old(self).crnt <= final(self).crnt,
            old(self).id <= final(self).id,
            final(self).id as int - old(self).id as int <= 2 * (final(self).crnt as int - old(
                self,
            ).crnt as int),
            r is Ok ==> final(self).crnt > old(self).crnt,
            r matches Ok(v) ==> ids_inc(sids_seq(v@), old(self).id as int, final(self).id as int),
            old(self).cur().token == TokenType::LeftBrace && old(self).ahead(1).token
                == TokenType::RightBrace ==> (r matches Ok(v) && v@.len() == 1 && (v@[0]
                matches Statement::Block { stmts: b } && b@.len() == 0) && final(self).crnt == old(
                self,
            ).crnt + 2 && final(self).id == old(self).id),
            old(self).cur().token == TokenType::Eof ==> (r matches Err(d) && d.code
                == ErrorCode::UnexpectedToken),
        decreases old(self).remaining(), 12int,
    {
        let s = self.block_stmt()?;
        match s {
            Statement::Block { stmts } => {
                self.consume(TokenType::RightBrace)?;
                Ok(stmts)
            },
            _ => Err(
                self.throw_error(
                    ErrorCode::UnexpectedToken,
                    vec![String::from_str("a block statement")],
                ),
            ),
        }
    }

    /// Parses statements until the closing brace or end-of-input, leaving
    /// the closing brace for the caller and wrapping the list in a block
    /// statement.
    pub fn block_stmt(&mut self) -> (r: Result<Statement, Diagnostic>)
        requires
            old(self).wf(),
        ensures
            final(self).wf(),
            final(self).tokens == old(self).tokens,
            old(self).crnt <= final(self).crnt,
            old(self).id <= final(self).id,
            final(self).id as int - old(self).id as int <= 2 * (final(self).crnt as int - old(
                self,
            ).crnt as int),
            r matches Ok(s) ==> (s matches Statement::Block { .. }),
            r matches Ok(s) ==> ids_inc(sids(s), old(self).id as int, final(self).id as int),
            old(self).cur().token == TokenType::RightBrace || old(self).cur().token
                == TokenType::Eof ==> (r matches Ok(s) && (s matches Statement::Block { stmts: b }
                && b@.len() == 0) && *final(self) == *old(self)),
            old(self).cur().token == TokenType::LeftBrace && old(self).ahead(1).token
                == TokenType::RightBrace ==> (r matches Ok(s) && (s matches Statement::Block {
                stmts: b,
            } && b@.len() == 1 && (b@[0] matches Statement::Block { stmts: bi } && bi@.len()
                == 0)) && final(self).crnt == old(self).crnt + 1 && final(self).id == old(
                self,
            ).id),
        decreases old(self).remaining(), 11int,
    {
        let mut stmts: Vec<Statement> = Vec::new();
        proof {
            assert(stmts@ =~= Seq::<Statement>::empty());
        }
        while !self.is_token(TokenType::RightBrace) && !self.check(TokenType::Eof)
            invariant
                self.wf(),
                self.tokens == old(self).tokens,
                old(self).crnt <= self.crnt,
                old(self).id <= self.id,
                self.id as int - old(self).id as int <= 2 * (self.crnt as int - old(
                    self,
                ).crnt as int),
                ids_inc(sids_seq(stmts@), old(self).id as int, self.id as int),
                old(self).cur().token == TokenType::RightBrace || old(self).cur().token
                    == TokenType::Eof ==> *self == *old(self) && stmts@.len() == 0,
                old(self).cur().token == TokenType::LeftBrace && old(self).ahead(1).token
                    == TokenType::RightBrace ==> ((stmts@.len() == 0 && *self == *old(self)) || (
                stmts@.len() == 1 && (stmts@[0] matches Statement::Block { stmts: bi }
                    && bi@.len() == 0) && self.crnt == old(self).crnt + 1 && self.id == old(
                    self,
                ).id)),
            decreases self.remaining(),
        {
            let ghost idb = self.id as int;
            let s = self.stmt()?;
            proof {
                lemma_sids_seq_push(stmts@, s);
                lemma_ids_inc_concat(
                    sids_seq(stmts@),
                    sids(s),
                    old(self).id as int,
                    idb,
                    self.id as int,
                );
            }
            stmts.push(s);
        }
        Ok(Statement::Block { stmts })
    }

    /// Parses a bare expression statement: retreats over the token the
    /// dispatcher consumed, parses one expression and its terminating
    /// semicolon.
    pub fn expr_stmt(&mut self) -> (r: Result<Statement, Diagnostic>)
        requires
            old(self).wf(),
            old(self).crnt >= 1,
            old(self).id as int <= 2 * old(self).crnt as int,
        ensures
            final(self).wf(),
            final(self).tokens == old(self).tokens,
            old(self).id <= final(self).id,
            final(self).crnt + 1 >= old(self).crnt,
            final(self).id as int - old(self).id as int <= 2 * (final(self).crnt as int - old(
                self,
            ).crnt as int) + 2,
            r is Ok ==> final(self).crnt > old(self).crnt,
            r matches Ok(s) ==> (s matches Statement::Expression { .. }),
            r matches Ok(s) ==> ids_inc(sids(s), old(self).id as int, final(self).id as int),
            is_atom(old(self).tokens@[old(self).crnt - 1]) && old(self).cur().token
                == TokenType::Semi ==> (r matches Ok(s) && s == (Statement::Expression {
                expr: atom_expr(old(self).tokens@[old(self).crnt - 1], old(self).id as int),
            }) && final(self).crnt == old(self).crnt + 1 && final(self).id == old(self).id + 1),
        decreases old(self).remaining() + 1, 9int,
    {
        self.retreat();
        let e = self.expr()?;
        self.consume(TokenType::Semi)?;
        Ok(Statement::Expression { expr: e })
    }

    /// Builds the synthetic null type token used by null-initialized
    /// variable declarations.
    pub fn create_null_token(&self, line: usize) -> (t: Token)
        requires
            self.pos_ok(),
        ensures
            t.token == TokenType::NullIdent,
            t.lexeme@ == "null"@,
            t.value is None,
            t.line == line,
            t.pos == self.cur().pos,
    {
        Token {
            token: TokenType::NullIdent,
            pos: self.peek().pos,
            lexeme: String::from_str("null"),
            value: Option::None,
            line,
        }
    }
}

} // verus!

