//! The parser: tokens to statements, by recursive descent with precedence climbing.
//!
//! The grammar is given by spec functions on the sequence of the tokens; the
//! parser is proved to build the tree that they describe.

use crate::ast::lexer::{token_views, Token, TokenKind, TokenKindView, TokenView};
use crate::ast::types::ValueView;
use crate::ast::{
    binding_power, expression_views, ASTAssignment, ASTBinaryOperator, ASTBinaryOperatorKind,
    ASTExpression, ASTStatement, ASTUnaryOperator, ASTUnaryOperatorKind, ASTVariableDeclaration,
    ExpressionView, StatementView,
};
use vstd::prelude::*;

verus! {

/// The kind of the token at a position; behind the last token, the end of input.
pub open spec fn kind_at(tokens: Seq<TokenView>, pos: int) -> TokenKindView {
    if 0 <= pos < tokens.len() {
        tokens[pos].kind
    } else {
        TokenKindView::EOF
    }
}

/// The binary operator that a token stands for.
pub open spec fn binary_operator(kind: TokenKindView) -> Option<ASTBinaryOperatorKind> {
    match kind {
        TokenKindView::Plus => Some(ASTBinaryOperatorKind::Plus),
        TokenKindView::Minus => Some(ASTBinaryOperatorKind::Minus),
        TokenKindView::Asterisk => Some(ASTBinaryOperatorKind::Multiply),
        TokenKindView::Slash => Some(ASTBinaryOperatorKind::Divide),
        TokenKindView::Percent => Some(ASTBinaryOperatorKind::Modulo),
        TokenKindView::DoubleStar => Some(ASTBinaryOperatorKind::Exponentiation),
        TokenKindView::Ampersand => Some(ASTBinaryOperatorKind::BitwiseAnd),
        TokenKindView::Pipe => Some(ASTBinaryOperatorKind::BitwiseOr),
        TokenKindView::Caret => Some(ASTBinaryOperatorKind::BitwiseXor),
        TokenKindView::LeftShift => Some(ASTBinaryOperatorKind::LeftShift),
        TokenKindView::RightShift => Some(ASTBinaryOperatorKind::RightShift),
        TokenKindView::EqualEqual => Some(ASTBinaryOperatorKind::Equal),
        TokenKindView::BangEqual => Some(ASTBinaryOperatorKind::NotEqual),
        TokenKindView::Less => Some(ASTBinaryOperatorKind::Less),
        TokenKindView::Greater => Some(ASTBinaryOperatorKind::Greater),
        TokenKindView::LessEqual => Some(ASTBinaryOperatorKind::LessEqual),
        TokenKindView::GreaterEqual => Some(ASTBinaryOperatorKind::GreaterEqual),
        TokenKindView::DoubleAmpersand => Some(ASTBinaryOperatorKind::LogicalAnd),
        TokenKindView::DoublePipe => Some(ASTBinaryOperatorKind::LogicalOr),
        _ => None,
    }
}

/// The unary operator that a token stands for.
pub open spec fn unary_operator(kind: TokenKindView) -> Option<ASTUnaryOperatorKind> {
    match kind {
        TokenKindView::Plus => Some(ASTUnaryOperatorKind::Plus),
        TokenKindView::Minus => Some(ASTUnaryOperatorKind::Minus),
        TokenKindView::Bang => Some(ASTUnaryOperatorKind::LogicalNot),
        _ => None,
    }
}

/// The least binding power that the right operand of an operator admits:
/// that of the operator itself for `**`, which groups to the right, and the
/// next greater for every other operator, which groups to the left.
pub open spec fn right_power(operator: ASTBinaryOperatorKind) -> int {
    if operator is Exponentiation {
        binding_power(operator) as int
    } else {
        binding_power(operator) + 1
    }
}

/// The tokens without whitespace and comments.
pub open spec fn significant(tokens: Seq<TokenView>) -> Seq<TokenView>
    decreases tokens.len(),
{
    if tokens.len() == 0 {
        tokens
    } else if tokens.last().kind is Whitespace {
        significant(tokens.drop_last())
    } else {
        significant(tokens.drop_last()).push(tokens.last())
    }
}

/// An expression that begins at `pos`, and the position behind it: an
/// operand, and the operators of binding power `min` or more that follow it
/// with their right operands.
pub open spec fn parse_binary(tokens: Seq<TokenView>, pos: int, min: int) -> Option<
    (ExpressionView, int),
>
    decreases tokens.len() - pos, 3int,
{
    if 0 <= pos < tokens.len() {
        match parse_unary(tokens, pos) {
            Some((left, next)) => if pos < next <= tokens.len() {
                climb(tokens, left, next, min)
            } else {
                None
            },
            None => None,
        }
    } else {
        None
    }
}

/// The expression that grows from the operand `left`, which ends at `pos`, by
/// the operators of binding power `min` or more that follow.
pub open spec fn climb(tokens: Seq<TokenView>, left: ExpressionView, pos: int, min: int)
    -> Option<(ExpressionView, int)>
    decreases tokens.len() - pos, 0int,
{
    match binary_operator(kind_at(tokens, pos)) {
        Some(operator) => if 0 <= pos < tokens.len() && binding_power(operator) >= min {
            match parse_binary(tokens, pos + 1, right_power(operator)) {
                Some((right, next)) => if pos + 1 < next <= tokens.len() {
                    climb(
                        tokens,
                        ExpressionView::Binary {
                            left: Box::new(left),
                            operator,
                            token: tokens[pos],
                            right: Box::new(right),
                        },
                        next,
                        min,
                    )
                } else {
                    None
                },
                None => None,
            }
        } else {
            Some((left, pos))
        },
        None => Some((left, pos)),
    }
}

/// An operand that begins at `pos`: a primary expression behind any number
/// of the unary operators `+`, `-` and `!`.
pub open spec fn parse_unary(tokens: Seq<TokenView>, pos: int) -> Option<(ExpressionView, int)>
    decreases tokens.len() - pos, 2int,
{
    if 0 <= pos < tokens.len() {
        match unary_operator(kind_at(tokens, pos)) {
            Some(operator) => match parse_unary(tokens, pos + 1) {
                Some((operand, next)) => Some(
                    (
                        ExpressionView::Unary {
                            operator,
                            token: tokens[pos],
                            operand: Box::new(operand),
                        },
                        next,
                    ),
                ),
                None => None,
            },
            None => parse_primary(tokens, pos),
        }
    } else {
        None
    }
}

/// A primary expression that begins at `pos`: a literal, an expression in
/// parentheses, a call, or an identifier. An identifier begins a call where
/// an opening parenthesis follows it.
pub open spec fn parse_primary(tokens: Seq<TokenView>, pos: int) -> Option<(ExpressionView, int)>
    decreases tokens.len() - pos, 1int,
{
    if 0 <= pos < tokens.len() {
        match tokens[pos].kind {
            TokenKindView::Number(n) => Some(
                (ExpressionView::Literal(ValueView::Integer(n)), pos + 1),
            ),
            TokenKindView::Float(f) => Some((ExpressionView::Literal(ValueView::Float(f)), pos + 1)),
            TokenKindView::Boolean(b) => Some(
                (ExpressionView::Literal(ValueView::Boolean(b)), pos + 1),
            ),
            TokenKindView::String(s) => Some(
                (ExpressionView::Literal(ValueView::String(s)), pos + 1),
            ),
            TokenKindView::LeftParen => match parse_binary(tokens, pos + 1, 1) {
                Some((inner, next)) => if kind_at(tokens, next) is RightParen {
                    Some((ExpressionView::Parenthesized(Box::new(inner)), next + 1))
                } else {
                    None
                },
                None => None,
            },
            TokenKindView::Identifier(name) => if kind_at(tokens, pos + 1) is LeftParen {
                match parse_arguments(tokens, pos + 2) {
                    Some((arguments, next)) => Some(
                        (ExpressionView::FunctionCall { name, arguments }, next),
                    ),
                    None => None,
                }
            } else {
                Some((ExpressionView::Identifier(name), pos + 1))
            },
            _ => None,
        }
    } else {
        None
    }
}

/// The arguments of a call from `pos`, behind the opening parenthesis, to the
/// closing one: none, or expressions with a comma between two.
pub open spec fn parse_arguments(tokens: Seq<TokenView>, pos: int) -> Option<
    (Seq<ExpressionView>, int),
>
    decreases tokens.len() - pos, 5int,
{
    if kind_at(tokens, pos) is RightParen {
        Some((Seq::empty(), pos + 1))
    } else {
        parse_more_arguments(tokens, pos, Seq::empty())
    }
}

/// The arguments of a call that follow the arguments `done`, from `pos` to
/// the closing parenthesis.
pub open spec fn parse_more_arguments(
    tokens: Seq<TokenView>,
    pos: int,
    done: Seq<ExpressionView>,
) -> Option<(Seq<ExpressionView>, int)>
    decreases tokens.len() - pos, 4int,
{
    match parse_binary(tokens, pos, 1) {
        Some((argument, next)) => if pos < next {
            if kind_at(tokens, next) is Comma {
                parse_more_arguments(tokens, next + 1, done.push(argument))
            } else if kind_at(tokens, next) is RightParen {
                Some((done.push(argument), next + 1))
            } else {
                None
            }
        } else {
            None
        },
        None => None,
    }
}

/// An expression that begins at `pos`.
pub open spec fn parse_expression(tokens: Seq<TokenView>, pos: int) -> Option<
    (ExpressionView, int),
> {
    parse_binary(tokens, pos, 1)
}

/// A statement that begins at `pos`, and the position behind its expression.
/// `let` and `const` begin a declaration, an identifier before `=` an
/// assignment; anything else is an expression.
pub open spec fn parse_statement(tokens: Seq<TokenView>, pos: int) -> Option<(StatementView, int)> {
    match kind_at(tokens, pos) {
        TokenKindView::Let | TokenKindView::Const => match kind_at(tokens, pos + 1) {
            TokenKindView::Identifier(name) => if kind_at(tokens, pos + 2) is Equal {
                match parse_expression(tokens, pos + 3) {
                    Some((initializer, next)) => Some(
                        (
                            StatementView::VariableDeclaration {
                                name,
                                initializer,
                                is_mutable: kind_at(tokens, pos) is Let,
                            },
                            next,
                        ),
                    ),
                    None => None,
                }
            } else {
                None
            },
            _ => None,
        },
        TokenKindView::Identifier(name) => if kind_at(tokens, pos + 1) is Equal {
            match parse_expression(tokens, pos + 2) {
                Some((value, next)) => Some((StatementView::Assignment { name, value }, next)),
                None => None,
            }
        } else {
            match parse_expression(tokens, pos) {
                Some((expression, next)) => Some((StatementView::Expression(expression), next)),
                None => None,
            }
        },
        _ => match parse_expression(tokens, pos) {
            Some((expression, next)) => Some((StatementView::Expression(expression), next)),
            None => None,
        },
    }
}

/// The position behind a statement whose expression ends at `pos`: behind the
/// semicolon, where one follows.
pub open spec fn statement_end(tokens: Seq<TokenView>, pos: int) -> int {
    if kind_at(tokens, pos) is Semicolon {
        pos + 1
    } else {
        pos
    }
}


/// Whether an executable parse result is the one that the grammar gives:
/// the same tree and end, with the end behind the start and inside the tokens.
pub open spec fn parsed_as(
    result: Option<(ASTExpression, usize)>,
    expected: Option<(ExpressionView, int)>,
    pos: int,
    length: int,
) -> bool {
    match expected {
        Some((expression, next)) => result matches Some((parsed, end)) && parsed@ == expression
            && end == next && pos < end <= length,
        None => result is None,
    }
}

/// Whether executable argument lists are those that the grammar gives.
pub open spec fn parsed_arguments_as(
    result: Option<(Vec<ASTExpression>, usize)>,
    expected: Option<(Seq<ExpressionView>, int)>,
    pos: int,
    length: int,
) -> bool {
    match expected {
        Some((arguments, next)) => result matches Some((parsed, end)) && expression_views(parsed@)
            == arguments && end == next && pos < end <= length,
        None => result is None,
    }
}

/// Reads statements from a token stream, one at a call.
pub struct Parser {
    pub tokens: Vec<Token>,
    pub current: usize,
}

impl Parser {
    /// The tokens that the parser reads, as contracts see them.
    pub open spec fn stream(&self) -> Seq<TokenView> {
        token_views(self.tokens@)
    }

    /// A parser at the beginning of `tokens`, without their whitespace and comments.
    pub fn new(tokens: Vec<Token>) -> (r: Self)
        ensures
            r.stream() == significant(token_views(tokens@)),
            r.current == 0,
    {
        let mut kept: Vec<Token> = Vec::new();
        let mut i: usize = 0;
        while i < tokens.len()
            invariant
                i <= tokens@.len(),
                token_views(kept@) == significant(token_views(tokens@).subrange(0, i as int)),
            decreases tokens@.len() - i,
        {
            proof {
                let longer = token_views(tokens@).subrange(0, i + 1);
                assert(longer.drop_last() =~= token_views(tokens@).subrange(0, i as int));
                assert(longer.last() == tokens@[i as int]@);
            }
            let whitespace = matches!(tokens[i].kind, TokenKind::Whitespace);
            if !whitespace {
                let ghost before = token_views(kept@);
                kept.push(tokens[i].clone());
                assert(token_views(kept@) =~= before.push(tokens@[i as int]@));
            }
            i += 1;
        }
        proof {
            assert(token_views(tokens@).subrange(0, i as int) =~= token_views(tokens@));
        }
        Parser { tokens: kept, current: 0 }
    }

    /// The next statement, or `None` where the tokens from the cursor on
    /// begin with no statement. A statement moves the cursor behind it, and
    /// behind the semicolon that follows it; without one the cursor stays.
    pub fn next_statement(&mut self) -> (r: Option<ASTStatement>)
        ensures
            final(self).tokens == old(self).tokens,
            match parse_statement(old(self).stream(), old(self).current as int) {
                Some((statement, next)) => r matches Some(parsed) && parsed@ == statement
                    && final(self).current == statement_end(old(self).stream(), next),
                None => r is None && final(self).current == old(self).current,
            },
    {
        let pos = self.current;
        let length = self.tokens.len();
        if pos >= length {
            return None;
        }
        let parsed = match &self.tokens[pos].kind {
            TokenKind::Let => self.parse_declaration(pos, true),
            TokenKind::Const => self.parse_declaration(pos, false),
            TokenKind::Identifier(name) => {
                if pos + 1 < length && matches!(self.tokens[pos + 1].kind, TokenKind::Equal) {
                    match self.parse_binary(pos + 2, 1) {
                        Some((value, next)) => Some(
                            (
                                ASTStatement::assignment(ASTAssignment::new(name.clone(), value)),
                                next,
                            ),
                        ),
                        None => None,
                    }
                } else {
                    self.parse_expression_statement(pos)
                }
            },
            _ => self.parse_expression_statement(pos),
        };
        match parsed {
            Some((statement, next)) => {
                if next < length && matches!(self.tokens[next].kind, TokenKind::Semicolon) {
                    self.current = next + 1;
                } else {
                    self.current = next;
                }
                Some(statement)
            },
            None => None,
        }
    }

    /// A declaration that begins at `pos` with `let` or `const`.
    fn parse_declaration(&self, pos: usize, is_mutable: bool) -> (r: Option<(ASTStatement, usize)>)
        requires
            pos < self.tokens@.len(),
        ensures
            match (kind_at(self.stream(), pos + 1), parse_expression(self.stream(), pos + 3)) {
                (TokenKindView::Identifier(name), Some((initializer, next))) => if kind_at(
                    self.stream(),
                    pos + 2,
                ) is Equal {
                    r matches Some((parsed, end)) && end == next && end <= self.tokens@.len()
                        && parsed@ == (StatementView::VariableDeclaration {
                        name,
                        initializer,
                        is_mutable,
                    })
                } else {
                    r is None
                },
                _ => r is None,
            },
    {
        let length = self.tokens.len();
        if length - pos <= 2 {
            return None;
        }
        let name = match &self.tokens[pos + 1].kind {
            TokenKind::Identifier(name) => name,
            _ => {
                return None;
            },
        };
        if !matches!(self.tokens[pos + 2].kind, TokenKind::Equal) {
            return None;
        }
        match self.parse_binary(pos + 3, 1) {
            Some((initializer, next)) => Some(
                (
                    ASTStatement::variable_declaration(
                        ASTVariableDeclaration::new(name.clone(), initializer, is_mutable),
                    ),
                    next,
                ),
            ),
            None => None,
        }
    }

    /// An expression statement that begins at `pos`.
    fn parse_expression_statement(&self, pos: usize) -> (r: Option<(ASTStatement, usize)>)
        requires
            pos < self.tokens@.len(),
        ensures
            match parse_expression(self.stream(), pos as int) {
                Some((expression, next)) => r matches Some((parsed, end)) && end == next && end
                    <= self.tokens@.len() && parsed@ == StatementView::Expression(expression),
                None => r is None,
            },
    {
        match self.parse_binary(pos, 1) {
            Some((expression, next)) => Some((ASTStatement::expression(expression), next)),
            None => None,
        }
    }

    /// The binary operator that the token at `pos` stands for.
    fn binary_operator_at(&self, pos: usize) -> (r: Option<ASTBinaryOperatorKind>)
        ensures
            r == binary_operator(kind_at(self.stream(), pos as int)),
    {
        if pos >= self.tokens.len() {
            return None;
        }
        match &self.tokens[pos].kind {
            TokenKind::Plus => Some(ASTBinaryOperatorKind::Plus),
            TokenKind::Minus => Some(ASTBinaryOperatorKind::Minus),
            TokenKind::Asterisk => Some(ASTBinaryOperatorKind::Multiply),
            TokenKind::Slash => Some(ASTBinaryOperatorKind::Divide),
            TokenKind::Percent => Some(ASTBinaryOperatorKind::Modulo),
            TokenKind::DoubleStar => Some(ASTBinaryOperatorKind::Exponentiation),
            TokenKind::Ampersand => Some(ASTBinaryOperatorKind::BitwiseAnd),
            TokenKind::Pipe => Some(ASTBinaryOperatorKind::BitwiseOr),
            TokenKind::Caret => Some(ASTBinaryOperatorKind::BitwiseXor),
            TokenKind::LeftShift => Some(ASTBinaryOperatorKind::LeftShift),
            TokenKind::RightShift => Some(ASTBinaryOperatorKind::RightShift),
            TokenKind::EqualEqual => Some(ASTBinaryOperatorKind::Equal),
            TokenKind::BangEqual => Some(ASTBinaryOperatorKind::NotEqual),
            TokenKind::Less => Some(ASTBinaryOperatorKind::Less),
            TokenKind::Greater => Some(ASTBinaryOperatorKind::Greater),
            TokenKind::LessEqual => Some(ASTBinaryOperatorKind::LessEqual),
            TokenKind::GreaterEqual => Some(ASTBinaryOperatorKind::GreaterEqual),
            TokenKind::DoubleAmpersand => Some(ASTBinaryOperatorKind::LogicalAnd),
            TokenKind::DoublePipe => Some(ASTBinaryOperatorKind::LogicalOr),
            _ => None,
        }
    }

    /// An expression that begins at `pos`, with the operators of binding
    /// power `min` or more.
    pub fn parse_binary(&self, pos: usize, min: u8) -> (r: Option<(ASTExpression, usize)>)
        ensures
            parsed_as(
                r,
                parse_binary(self.stream(), pos as int, min as int),
                pos as int,
                self.stream().len() as int,
            ),
        decreases self.tokens@.len() - pos, 3int,
    {
        if pos >= self.tokens.len() {
            return None;
        }
        match self.parse_unary(pos) {
            Some((left, next)) => self.climb(left, next, min),
            None => None,
        }
    }

    /// Extends the operand `left`, which ends at `pos`, by the operators of
    /// binding power `min` or more that follow, each with its right operand.
    fn climb(&self, left: ASTExpression, pos: usize, min: u8) -> (r: Option<(ASTExpression, usize)>)
        requires
            pos <= self.tokens@.len(),
        ensures
            match climb(self.stream(), left@, pos as int, min as int) {
                Some((expression, next)) => r matches Some((parsed, end)) && parsed@ == expression
                    && end == next && pos <= end <= self.stream().len(),
                None => r is None,
            },
        decreases self.tokens@.len() - pos, 0int,
    {
        if pos >= self.tokens.len() {
            return Some((left, pos));
        }
        let kind = match self.binary_operator_at(pos) {
            Some(kind) => kind,
            None => {
                return Some((left, pos));
            },
        };
        let operator = ASTBinaryOperator::new(kind, self.tokens[pos].clone());
        let power = operator.precedence();
        if power < min {
            return Some((left, pos));
        }
        let right_min = if matches!(kind, ASTBinaryOperatorKind::Exponentiation) {
            power
        } else {
            power + 1
        };
        match self.parse_binary(pos + 1, right_min) {
            Some((right, next)) => self.climb(ASTExpression::binary(operator, left, right), next, min),
            None => None,
        }
    }

    /// An operand that begins at `pos`.
    fn parse_unary(&self, pos: usize) -> (r: Option<(ASTExpression, usize)>)
        ensures
            parsed_as(
                r,
                parse_unary(self.stream(), pos as int),
                pos as int,
                self.stream().len() as int,
            ),
        decreases self.tokens@.len() - pos, 2int,
    {
        if pos >= self.tokens.len() {
            return None;
        }
        let kind = match &self.tokens[pos].kind {
            TokenKind::Plus => ASTUnaryOperatorKind::Plus,
            TokenKind::Minus => ASTUnaryOperatorKind::Minus,
            TokenKind::Bang => ASTUnaryOperatorKind::LogicalNot,
            _ => {
                return self.parse_primary(pos);
            },
        };
        match self.parse_unary(pos + 1) {
            Some((operand, next)) => Some(
                (
                    ASTExpression::unary(
                        ASTUnaryOperator::new(kind, self.tokens[pos].clone()),
                        operand,
                    ),
                    next,
                ),
            ),
            None => None,
        }
    }

    /// A primary expression that begins at `pos`.
    fn parse_primary(&self, pos: usize) -> (r: Option<(ASTExpression, usize)>)
        ensures
            parsed_as(
                r,
                parse_primary(self.stream(), pos as int),
                pos as int,
                self.stream().len() as int,
            ),
        decreases self.tokens@.len() - pos, 1int,
    {
        let length = self.tokens.len();
        if pos >= length {
            return None;
        }
        match &self.tokens[pos].kind {
            TokenKind::Number(n) => Some((ASTExpression::number(*n), pos + 1)),
            TokenKind::Float(f) => Some((ASTExpression::float(*f), pos + 1)),
            TokenKind::Boolean(b) => Some((ASTExpression::boolean(*b), pos + 1)),
            TokenKind::String(s) => Some((ASTExpression::string(s.clone()), pos + 1)),
            TokenKind::LeftParen => match self.parse_binary(pos + 1, 1) {
                Some((inner, next)) => {
                    if next < length && matches!(self.tokens[next].kind, TokenKind::RightParen) {
                        Some((ASTExpression::paranthesized(inner), next + 1))
                    } else {
                        None
                    }
                },
                None => None,
            },
            TokenKind::Identifier(name) => {
                if pos + 1 < length && matches!(self.tokens[pos + 1].kind, TokenKind::LeftParen) {
                    match self.parse_arguments(pos + 2) {
                        Some((arguments, next)) => Some(
                            (ASTExpression::function_call(name.clone(), arguments), next),
                        ),
                        None => None,
                    }
                } else {
                    Some((ASTExpression::identifier(name.clone()), pos + 1))
                }
            },
            _ => None,
        }
    }

    /// The arguments of a call from `pos` to the closing parenthesis.
    fn parse_arguments(&self, pos: usize) -> (r: Option<(Vec<ASTExpression>, usize)>)
        requires
            pos <= self.tokens@.len(),
        ensures
            parsed_arguments_as(
                r,
                parse_arguments(self.stream(), pos as int),
                pos as int,
                self.stream().len() as int,
            ),
        decreases self.tokens@.len() - pos, 5int,
    {
        if pos < self.tokens.len() && matches!(self.tokens[pos].kind, TokenKind::RightParen) {
            let none: Vec<ASTExpression> = Vec::new();
            assert(expression_views(none@) =~= Seq::<ExpressionView>::empty());
            return Some((none, pos + 1));
        }
        let none: Vec<ASTExpression> = Vec::new();
        assert(expression_views(none@) =~= Seq::<ExpressionView>::empty());
        self.parse_more_arguments(pos, none)
    }

    /// The arguments of a call behind the arguments `done`.
    fn parse_more_arguments(&self, pos: usize, done: Vec<ASTExpression>) -> (r: Option<
        (Vec<ASTExpression>, usize),
    >)
        requires
            pos <= self.tokens@.len(),
        ensures
            parsed_arguments_as(
                r,
                parse_more_arguments(self.stream(), pos as int, expression_views(done@)),
                pos as int,
                self.stream().len() as int,
            ),
        decreases self.tokens@.len() - pos, 4int,
    {
        let length = self.tokens.len();
        let (argument, next) = match self.parse_binary(pos, 1) {
            Some(parsed) => parsed,
            None => {
                return None;
            },
        };
        if next >= length {
            return None;
        }
        let ghost before = expression_views(done@);
        let ghost added = argument@;
        let mut done = done;
        done.push(argument);
        assert(expression_views(done@) =~= before.push(added));
        match &self.tokens[next].kind {
            TokenKind::Comma => self.parse_more_arguments(next + 1, done),
            TokenKind::RightParen => Some((done, next + 1)),
            _ => None,
        }
    }
}

} // verus!
