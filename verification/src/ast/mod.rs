//! Syntax tree of Arc, with the stages that produce and evaluate it.

pub mod error;
pub mod evaluator;
pub mod float;
pub mod lexer;
pub mod order;
pub mod parser;
pub mod symbol_table;
pub mod text;
pub mod types;
pub mod visitor;

use crate::ast::lexer::{Token, TokenView};
use crate::ast::types::{Value, ValueView};
use vstd::prelude::*;

verus! {

/// What a binary operator computes.
#[derive(Clone, Copy, Debug, PartialEq, Eq, Structural)]
pub enum ASTBinaryOperatorKind {
    Plus,
    Minus,
    Multiply,
    Divide,
    Modulo,
    Exponentiation,
    BitwiseAnd,
    BitwiseOr,
    BitwiseXor,
    LeftShift,
    RightShift,
    Equal,
    NotEqual,
    Less,
    Greater,
    LessEqual,
    GreaterEqual,
    LogicalAnd,
    LogicalOr,
}

/// What a unary operator computes.
#[derive(Clone, Copy, Debug, PartialEq, Eq, Structural)]
pub enum ASTUnaryOperatorKind {
    Plus,
    Minus,
    LogicalNot,
}


/// Binding power of a binary operator, from 1 for the loosest to 11 for the tightest.
pub open spec fn binding_power(kind: ASTBinaryOperatorKind) -> u8 {
    match kind {
        ASTBinaryOperatorKind::LogicalOr => 1,
        ASTBinaryOperatorKind::LogicalAnd => 2,
        ASTBinaryOperatorKind::Equal | ASTBinaryOperatorKind::NotEqual => 3,
        ASTBinaryOperatorKind::Less
        | ASTBinaryOperatorKind::Greater
        | ASTBinaryOperatorKind::LessEqual
        | ASTBinaryOperatorKind::GreaterEqual => 4,
        ASTBinaryOperatorKind::BitwiseOr => 5,
        ASTBinaryOperatorKind::BitwiseXor => 6,
        ASTBinaryOperatorKind::BitwiseAnd => 7,
        ASTBinaryOperatorKind::LeftShift | ASTBinaryOperatorKind::RightShift => 8,
        ASTBinaryOperatorKind::Plus | ASTBinaryOperatorKind::Minus => 9,
        ASTBinaryOperatorKind::Multiply
        | ASTBinaryOperatorKind::Divide
        | ASTBinaryOperatorKind::Modulo => 10,
        ASTBinaryOperatorKind::Exponentiation => 11,
    }
}

/// A binary operator: what it computes, and the token it was read from.
#[derive(Debug, PartialEq)]
pub struct ASTBinaryOperator {
    pub kind: ASTBinaryOperatorKind,
    pub token: Token,
}

impl ASTBinaryOperator {
    pub fn new(kind: ASTBinaryOperatorKind, token: Token) -> (r: Self)
        ensures
            r.kind == kind,
            r.token == token,
    {
        ASTBinaryOperator { kind, token }
    }

    /// Binding power of the operator.
    pub fn precedence(&self) -> (r: u8)
        ensures
            r == binding_power(self.kind),
            1 <= r <= 11,
    {
        match self.kind {
            ASTBinaryOperatorKind::LogicalOr => 1,
            ASTBinaryOperatorKind::LogicalAnd => 2,
            ASTBinaryOperatorKind::Equal | ASTBinaryOperatorKind::NotEqual => 3,
            ASTBinaryOperatorKind::Less
            | ASTBinaryOperatorKind::Greater
            | ASTBinaryOperatorKind::LessEqual
            | ASTBinaryOperatorKind::GreaterEqual => 4,
            ASTBinaryOperatorKind::BitwiseOr => 5,
            ASTBinaryOperatorKind::BitwiseXor => 6,
            ASTBinaryOperatorKind::BitwiseAnd => 7,
            ASTBinaryOperatorKind::LeftShift | ASTBinaryOperatorKind::RightShift => 8,
            ASTBinaryOperatorKind::Plus | ASTBinaryOperatorKind::Minus => 9,
            ASTBinaryOperatorKind::Multiply
            | ASTBinaryOperatorKind::Divide
            | ASTBinaryOperatorKind::Modulo => 10,
            ASTBinaryOperatorKind::Exponentiation => 11,
        }
    }
}

/// A unary operator: what it computes, and the token it was read from.
#[derive(Debug, PartialEq)]
pub struct ASTUnaryOperator {
    pub kind: ASTUnaryOperatorKind,
    pub token: Token,
}

impl ASTUnaryOperator {
    pub fn new(kind: ASTUnaryOperatorKind, token: Token) -> (r: Self)
        ensures
            r.kind == kind,
            r.token == token,
    {
        ASTUnaryOperator { kind, token }
    }
}

/// A literal value.
#[derive(Debug, PartialEq)]
pub struct ASTNumberExpression {
    pub value: Value,
}

/// Two operands joined by a binary operator.
#[derive(Debug, PartialEq)]
pub struct ASTBinaryExpression {
    pub left: Box<ASTExpression>,
    pub operator: ASTBinaryOperator,
    pub right: Box<ASTExpression>,
}

/// An expression in parentheses.
#[derive(Debug, PartialEq)]
pub struct ASTParanthesizedExpression {
    pub expression: Box<ASTExpression>,
}

/// A unary operator applied to an operand.
#[derive(Debug, PartialEq)]
pub struct ASTUnaryExpression {
    pub operator: ASTUnaryOperator,
    pub operand: Box<ASTExpression>,
}

/// A name that stands for a variable.
#[derive(Debug, PartialEq)]
pub struct ASTIdentifierExpression {
    pub name: String,
}

impl ASTIdentifierExpression {
    pub fn new(name: String) -> (r: Self)
        ensures
            r.name == name,
    {
        ASTIdentifierExpression { name }
    }
}

/// A call of a function by name.
#[derive(Debug, PartialEq)]
pub struct ASTFunctionCallExpression {
    pub name: String,
    pub arguments: Vec<ASTExpression>,
}

impl ASTFunctionCallExpression {
    pub fn new(name: String, arguments: Vec<ASTExpression>) -> (r: Self)
        ensures
            r.name == name,
            r.arguments == arguments,
    {
        ASTFunctionCallExpression { name, arguments }
    }
}

/// The forms of expression.
#[derive(Debug, PartialEq)]
pub enum ASTExpressionKind {
    Number(ASTNumberExpression),
    Binary(ASTBinaryExpression),
    Paranthesized(ASTParanthesizedExpression),
    Unary(ASTUnaryExpression),
    Identifier(ASTIdentifierExpression),
    FunctionCall(ASTFunctionCallExpression),
}

/// An expression: a tree that owns its operands.
#[derive(Debug, PartialEq)]
pub struct ASTExpression {
    pub kind: ASTExpressionKind,
}

/// An expression as contracts see it.
#[allow(inconsistent_fields)]
pub enum ExpressionView {
    Literal(ValueView),
    Binary {
        left: Box<ExpressionView>,
        operator: ASTBinaryOperatorKind,
        token: TokenView,
        right: Box<ExpressionView>,
    },
    Parenthesized(Box<ExpressionView>),
    Unary { operator: ASTUnaryOperatorKind, token: TokenView, operand: Box<ExpressionView> },
    Identifier(Seq<char>),
    FunctionCall { name: Seq<char>, arguments: Seq<ExpressionView> },
}

/// The view of an expression: the same tree, with texts as sequences of characters.
pub open spec fn expression_view(expression: ASTExpression) -> ExpressionView
    decreases expression,
{
    match expression.kind {
        ASTExpressionKind::Number(number) => ExpressionView::Literal(number.value@),
        ASTExpressionKind::Binary(binary) => ExpressionView::Binary {
            left: Box::new(expression_view(*binary.left)),
            operator: binary.operator.kind,
            token: binary.operator.token@,
            right: Box::new(expression_view(*binary.right)),
        },
        ASTExpressionKind::Paranthesized(inner) => ExpressionView::Parenthesized(
            Box::new(expression_view(*inner.expression)),
        ),
        ASTExpressionKind::Unary(unary) => ExpressionView::Unary {
            operator: unary.operator.kind,
            token: unary.operator.token@,
            operand: Box::new(expression_view(*unary.operand)),
        },
        ASTExpressionKind::Identifier(identifier) => ExpressionView::Identifier(identifier.name@),
        ASTExpressionKind::FunctionCall(call) => ExpressionView::FunctionCall {
            name: call.name@,
            arguments: Seq::new(
                call.arguments@.len(),
                |i: int|
                    if 0 <= i < call.arguments@.len() {
                        expression_view(call.arguments@[i])
                    } else {
                        ExpressionView::Identifier(Seq::empty())
                    },
            ),
        },
    }
}

impl View for ASTExpression {
    type V = ExpressionView;

    open spec fn view(&self) -> ExpressionView {
        expression_view(*self)
    }
}

impl ASTExpression {
    pub fn new(kind: ASTExpressionKind) -> (r: Self)
        ensures
            r.kind == kind,
    {
        ASTExpression { kind }
    }

    /// A literal of a value.
    pub fn literal(value: Value) -> (r: Self)
        ensures
            r@ == ExpressionView::Literal(value@),
    {
        ASTExpression::new(ASTExpressionKind::Number(ASTNumberExpression { value }))
    }

    /// An integer literal.
    pub fn number(number: i64) -> (r: Self)
        ensures
            r@ == ExpressionView::Literal(ValueView::Integer(number)),
    {
        ASTExpression::literal(Value::Integer(number))
    }

    /// A float literal.
    pub fn float(float: crate::ast::float::FloatBits) -> (r: Self)
        ensures
            r@ == ExpressionView::Literal(ValueView::Float(float)),
    {
        ASTExpression::literal(Value::Float(float))
    }

    /// A literal of a truth value.
    pub fn boolean(boolean: bool) -> (r: Self)
        ensures
            r@ == ExpressionView::Literal(ValueView::Boolean(boolean)),
    {
        ASTExpression::literal(Value::Boolean(boolean))
    }

    /// A text literal.
    pub fn string(string: String) -> (r: Self)
        ensures
            r@ == ExpressionView::Literal(ValueView::String(string@)),
    {
        ASTExpression::literal(Value::String(string))
    }

    /// Two operands joined by an operator.
    pub fn binary(operator: ASTBinaryOperator, left: ASTExpression, right: ASTExpression) -> (r:
        Self)
        ensures
            r@ == (ExpressionView::Binary {
                left: Box::new(left@),
                operator: operator.kind,
                token: operator.token@,
                right: Box::new(right@),
            }),
    {
        ASTExpression::new(
            ASTExpressionKind::Binary(
                ASTBinaryExpression { left: Box::new(left), operator, right: Box::new(right) },
            ),
        )
    }

    /// An expression in parentheses.
    pub fn paranthesized(expression: ASTExpression) -> (r: Self)
        ensures
            r@ == ExpressionView::Parenthesized(Box::new(expression@)),
    {
        ASTExpression::new(
            ASTExpressionKind::Paranthesized(
                ASTParanthesizedExpression { expression: Box::new(expression) },
            ),
        )
    }

    /// An operator applied to an operand.
    pub fn unary(operator: ASTUnaryOperator, operand: ASTExpression) -> (r: Self)
        ensures
            r@ == (ExpressionView::Unary {
                operator: operator.kind,
                token: operator.token@,
                operand: Box::new(operand@),
            }),
    {
        ASTExpression::new(
            ASTExpressionKind::Unary(ASTUnaryExpression { operator, operand: Box::new(operand) }),
        )
    }

    /// A variable by its name.
    pub fn identifier(name: String) -> (r: Self)
        ensures
            r@ == ExpressionView::Identifier(name@),
    {
        ASTExpression::new(ASTExpressionKind::Identifier(ASTIdentifierExpression { name }))
    }

    /// A call of the function `name` on `arguments`.
    pub fn function_call(name: String, arguments: Vec<ASTExpression>) -> (r: Self)
        ensures
            r@ == (ExpressionView::FunctionCall {
                name: name@,
                arguments: expression_views(arguments@),
            }),
    {
        let r = ASTExpression::new(
            ASTExpressionKind::FunctionCall(ASTFunctionCallExpression { name, arguments }),
        );
        proof {
            lemma_view_of_kind(r);
        }
        r
    }
}

/// The view of a binary expression.
pub open spec fn binary_view(binary: ASTBinaryExpression) -> ExpressionView {
    ExpressionView::Binary {
        left: Box::new(binary.left@),
        operator: binary.operator.kind,
        token: binary.operator.token@,
        right: Box::new(binary.right@),
    }
}

/// The view of a unary expression.
pub open spec fn unary_view(unary: ASTUnaryExpression) -> ExpressionView {
    ExpressionView::Unary {
        operator: unary.operator.kind,
        token: unary.operator.token@,
        operand: Box::new(unary.operand@),
    }
}

/// The view of a call.
pub open spec fn call_view(call: ASTFunctionCallExpression) -> ExpressionView {
    ExpressionView::FunctionCall { name: call.name@, arguments: expression_views(call.arguments@) }
}

/// The view of an expression is the view of its form.
pub proof fn lemma_view_of_kind(expression: ASTExpression)
    ensures
        expression@ == (match expression.kind {
            ASTExpressionKind::Number(number) => ExpressionView::Literal(number.value@),
            ASTExpressionKind::Binary(binary) => binary_view(binary),
            ASTExpressionKind::Paranthesized(inner) => ExpressionView::Parenthesized(
                Box::new(inner.expression@),
            ),
            ASTExpressionKind::Unary(unary) => unary_view(unary),
            ASTExpressionKind::Identifier(identifier) => ExpressionView::Identifier(
                identifier.name@,
            ),
            ASTExpressionKind::FunctionCall(call) => call_view(call),
        }),
{
    match expression.kind {
        ASTExpressionKind::FunctionCall(call) => {
            assert(expression@->FunctionCall_arguments =~= expression_views(call.arguments@));
        },
        _ => {},
    }
}

/// The views of a sequence of expressions.
pub open spec fn expression_views(expressions: Seq<ASTExpression>) -> Seq<ExpressionView> {
    Seq::new(expressions.len(), |i: int| expressions[i]@)
}

/// A declaration of a variable: `let` declares a mutable one, `const` an immutable one.
#[derive(Debug, PartialEq)]
pub struct ASTVariableDeclaration {
    pub name: String,
    pub initializer: Box<ASTExpression>,
    pub is_mutable: bool,
}

impl ASTVariableDeclaration {
    pub fn new(name: String, initializer: ASTExpression, is_mutable: bool) -> (r: Self)
        ensures
            r.name == name,
            *r.initializer == initializer,
            r.is_mutable == is_mutable,
    {
        ASTVariableDeclaration { name, initializer: Box::new(initializer), is_mutable }
    }
}

/// An assignment of a new value to a variable.
#[derive(Debug, PartialEq)]
pub struct ASTAssignment {
    pub name: String,
    pub value: Box<ASTExpression>,
}

impl ASTAssignment {
    pub fn new(name: String, value: ASTExpression) -> (r: Self)
        ensures
            r.name == name,
            *r.value == value,
    {
        ASTAssignment { name, value: Box::new(value) }
    }
}

/// The forms of statement.
#[derive(Debug, PartialEq)]
pub enum ASTStatementKind {
    Expression(ASTExpression),
    VariableDeclaration(ASTVariableDeclaration),
    Assignment(ASTAssignment),
}

/// A statement.
#[derive(Debug, PartialEq)]
pub struct ASTStatement {
    pub kind: ASTStatementKind,
}

/// A statement as contracts see it.
pub enum StatementView {
    Expression(ExpressionView),
    VariableDeclaration { name: Seq<char>, initializer: ExpressionView, is_mutable: bool },
    Assignment { name: Seq<char>, value: ExpressionView },
}

impl View for ASTStatement {
    type V = StatementView;

    open spec fn view(&self) -> StatementView {
        match self.kind {
            ASTStatementKind::Expression(expression) => StatementView::Expression(expression@),
            ASTStatementKind::VariableDeclaration(declaration) => {
                StatementView::VariableDeclaration {
                    name: declaration.name@,
                    initializer: declaration.initializer@,
                    is_mutable: declaration.is_mutable,
                }
            },
            ASTStatementKind::Assignment(assignment) => StatementView::Assignment {
                name: assignment.name@,
                value: assignment.value@,
            },
        }
    }
}

impl ASTStatement {
    pub fn new(kind: ASTStatementKind) -> (r: Self)
        ensures
            r.kind == kind,
    {
        ASTStatement { kind }
    }

    /// A statement that evaluates an expression.
    pub fn expression(expr: ASTExpression) -> (r: Self)
        ensures
            r@ == StatementView::Expression(expr@),
    {
        ASTStatement::new(ASTStatementKind::Expression(expr))
    }

    /// A statement that declares a variable.
    pub fn variable_declaration(decl: ASTVariableDeclaration) -> (r: Self)
        ensures
            r@ == (StatementView::VariableDeclaration {
                name: decl.name@,
                initializer: decl.initializer@,
                is_mutable: decl.is_mutable,
            }),
    {
        ASTStatement::new(ASTStatementKind::VariableDeclaration(decl))
    }

    /// A statement that assigns to a variable.
    pub fn assignment(assign: ASTAssignment) -> (r: Self)
        ensures
            r@ == (StatementView::Assignment { name: assign.name@, value: assign.value@ }),
    {
        ASTStatement::new(ASTStatementKind::Assignment(assign))
    }
}

/// The view of a declaration.
pub open spec fn declaration_view(declaration: ASTVariableDeclaration) -> StatementView {
    StatementView::VariableDeclaration {
        name: declaration.name@,
        initializer: declaration.initializer@,
        is_mutable: declaration.is_mutable,
    }
}

/// The view of an assignment.
pub open spec fn assignment_view(assignment: ASTAssignment) -> StatementView {
    StatementView::Assignment { name: assignment.name@, value: assignment.value@ }
}

/// The views of a sequence of statements.
pub open spec fn statement_views(statements: Seq<ASTStatement>) -> Seq<StatementView> {
    statements.map_values(|s: ASTStatement| s@)
}

/// A program: statements in the order in which they run.
pub struct Ast {
    pub statements: Vec<ASTStatement>,
}

impl Ast {
    /// A program without statements.
    pub fn new() -> (r: Self)
        ensures
            r.statements@.len() == 0,
    {
        Ast { statements: Vec::new() }
    }

    /// Adds a statement behind those that the program has.
    pub fn add_statement(&mut self, statement: ASTStatement)
        ensures
            final(self).statements@ == old(self).statements@.push(statement),
    {
        self.statements.push(statement);
    }
}

} // verus!
