//! Visitors of the syntax tree.

use crate::ast::{
    assignment_view, binary_view, call_view, declaration_view, expression_views,
    lemma_view_of_kind,
    statement_views, unary_view, ASTAssignment, ASTBinaryExpression, ASTExpression,
    ASTExpressionKind, ASTFunctionCallExpression, ASTIdentifierExpression, ASTNumberExpression,
    ASTParanthesizedExpression, ASTStatement, ASTStatementKind, ASTUnaryExpression,
    ASTVariableDeclaration, Ast, ExpressionView, StatementView,
};
use vstd::prelude::*;

verus! {

/// A visitor of the syntax tree: one method for each form of node. A visit
/// of a node visits its children in order, from left to right, each once,
/// and changes no node. Every visitor writes its own walk, since a default
/// method cannot yet call itself through the tree; [`do_visit_statement`],
/// [`do_visit_expression`] and the `walk_` functions are the steps that all
/// walks share: a visitor that has nothing of its own to do at a node hands
/// the node to the `walk_` function of its form.
///
/// Four relations say what the visits of a visitor do. Each holds of any two
/// visitors, unless the visitor says more.
pub trait ASTVisitor: Sized {
    /// What holds of a visitor between two visits.
    open spec fn valid(&self) -> bool {
        true
    }

    /// Whether `self` is what the visitor `before` becomes by a visit of
    /// `statement`.
    open spec fn visited(&self, before: &Self, statement: StatementView) -> bool {
        true
    }

    /// Whether `self` is what the visitor `before` becomes by the method of
    /// the form of `statement`, a declaration or an assignment.
    open spec fn visited_form(&self, before: &Self, statement: StatementView) -> bool {
        true
    }

    /// Whether `self` is what the visitor `before` becomes by a visit of
    /// `expression`.
    open spec fn visited_expression(&self, before: &Self, expression: ExpressionView) -> bool {
        true
    }

    /// Whether `self` is what the visitor `before` becomes by the method of
    /// the form of `expression`.
    open spec fn visited_node(&self, before: &Self, expression: ExpressionView) -> bool {
        true
    }

    /// Visits a statement.
    fn visit_statement(&mut self, statement: &ASTStatement)
        requires
            old(self).valid(),
        ensures
            final(self).valid(),
            final(self).visited(old(self), statement@),
    ;

    /// Visits an expression.
    fn visit_expression(&mut self, expression: &ASTExpression)
        requires
            old(self).valid(),
        ensures
            final(self).valid(),
            final(self).visited_expression(old(self), expression@),
    ;

    /// Visits a literal.
    fn visit_number(&mut self, number: &ASTNumberExpression)
        requires
            old(self).valid(),
        ensures
            final(self).valid(),
            final(self).visited_node(old(self), ExpressionView::Literal(number.value@)),
    ;

    /// Visits a binary operator with its operands.
    fn visit_binary_expression(&mut self, expr: &ASTBinaryExpression)
        requires
            old(self).valid(),
        ensures
            final(self).valid(),
            final(self).visited_node(old(self), binary_view(*expr)),
    ;

    /// Visits an expression in parentheses.
    fn visit_parenthesized_expression(&mut self, paren_expr: &ASTParanthesizedExpression)
        requires
            old(self).valid(),
        ensures
            final(self).valid(),
            final(self).visited_node(
                old(self),
                ExpressionView::Parenthesized(Box::new(paren_expr.expression@)),
            ),
    ;

    /// Visits a unary operator with its operand.
    fn visit_unary_expression(&mut self, unary_expr: &ASTUnaryExpression)
        requires
            old(self).valid(),
        ensures
            final(self).valid(),
            final(self).visited_node(old(self), unary_view(*unary_expr)),
    ;

    /// Visits an identifier.
    fn visit_identifier(&mut self, ident: &ASTIdentifierExpression)
        requires
            old(self).valid(),
        ensures
            final(self).valid(),
            final(self).visited_node(old(self), ExpressionView::Identifier(ident.name@)),
    ;

    /// Visits a call with its arguments.
    fn visit_function_call(&mut self, func_call: &ASTFunctionCallExpression)
        requires
            old(self).valid(),
        ensures
            final(self).valid(),
            final(self).visited_node(old(self), call_view(*func_call)),
    ;

    /// Visits a declaration with its initializer.
    fn visit_variable_declaration(&mut self, decl: &ASTVariableDeclaration)
        requires
            old(self).valid(),
        ensures
            final(self).valid(),
            final(self).visited_form(old(self), declaration_view(*decl)),
    ;

    /// Visits an assignment with its right-hand side.
    fn visit_assignment(&mut self, assign: &ASTAssignment)
        requires
            old(self).valid(),
        ensures
            final(self).valid(),
            final(self).visited_form(old(self), assignment_view(*assign)),
    ;
}

/// Hands a statement to the method of its form: the step that every visitor
/// shares, for a visitor to call from its own `visit_statement`. An
/// expression statement is visited as an expression; a declaration and an
/// assignment go to their own methods.
pub fn do_visit_statement<V: ASTVisitor>(visitor: &mut V, statement: &ASTStatement)
    requires
        old(visitor).valid(),
    ensures
        final(visitor).valid(),
        match statement@ {
            StatementView::Expression(expression) => final(visitor).visited_expression(
                old(visitor),
                expression,
            ),
            _ => final(visitor).visited_form(old(visitor), statement@),
        },
{
    match &statement.kind {
        ASTStatementKind::Expression(expr) => visitor.visit_expression(expr),
        ASTStatementKind::VariableDeclaration(decl) => visitor.visit_variable_declaration(decl),
        ASTStatementKind::Assignment(assign) => visitor.visit_assignment(assign),
    }
}

/// Hands an expression to the method of its form: the step that every visitor
/// shares, for a visitor to call from its own `visit_expression`.
pub fn do_visit_expression<V: ASTVisitor>(visitor: &mut V, expression: &ASTExpression)
    requires
        old(visitor).valid(),
    ensures
        final(visitor).valid(),
        final(visitor).visited_node(old(visitor), expression@),
{
    proof {
        lemma_view_of_kind(*expression);
    }
    match &expression.kind {
        ASTExpressionKind::Number(number) => visitor.visit_number(number),
        ASTExpressionKind::Binary(expr) => visitor.visit_binary_expression(expr),
        ASTExpressionKind::Paranthesized(paren_expr) => visitor.visit_parenthesized_expression(
            paren_expr,
        ),
        ASTExpressionKind::Unary(unary_expr) => visitor.visit_unary_expression(unary_expr),
        ASTExpressionKind::Identifier(ident) => visitor.visit_identifier(ident),
        ASTExpressionKind::FunctionCall(func_call) => visitor.visit_function_call(func_call),
    }
}

/// Whether the visitor `after` is what `before` becomes by visits of
/// `expressions`, one behind the other.
pub open spec fn visited_each<V: ASTVisitor>(after: V, before: V, expressions: Seq<ExpressionView>)
    -> bool
    decreases expressions.len(),
{
    if expressions.len() == 0 {
        after == before
    } else {
        exists|between: V|
            visited_each(between, before, expressions.drop_last())
                && #[trigger] after.visited_expression(&between, expressions.last())
    }
}

/// The children of a binary expression in order: the left operand, then the
/// right one, each handed to the method of its form.
pub fn walk_binary_expression<V: ASTVisitor>(visitor: &mut V, expr: &ASTBinaryExpression)
    requires
        old(visitor).valid(),
    ensures
        final(visitor).valid(),
        exists|between: V| #[trigger]
            between.visited_node(old(visitor), expr.left@) && final(visitor).visited_node(
                &between,
                expr.right@,
            ),
{
    do_visit_expression(visitor, &expr.left);
    let ghost between = *visitor;
    do_visit_expression(visitor, &expr.right);
    assert(between.visited_node(old(visitor), expr.left@) && visitor.visited_node(
        &between,
        expr.right@,
    ));
}

/// The child of an expression in parentheses: the expression inside.
pub fn walk_parenthesized_expression<V: ASTVisitor>(
    visitor: &mut V,
    paren_expr: &ASTParanthesizedExpression,
)
    requires
        old(visitor).valid(),
    ensures
        final(visitor).valid(),
        final(visitor).visited_expression(old(visitor), paren_expr.expression@),
{
    visitor.visit_expression(&paren_expr.expression);
}

/// The child of a unary expression: the operand, handed to the method of its form.
pub fn walk_unary_expression<V: ASTVisitor>(visitor: &mut V, unary_expr: &ASTUnaryExpression)
    requires
        old(visitor).valid(),
    ensures
        final(visitor).valid(),
        final(visitor).visited_node(old(visitor), unary_expr.operand@),
{
    do_visit_expression(visitor, &unary_expr.operand);
}

/// The children of a call in order: its arguments, from the first to the last.
pub fn walk_function_call<V: ASTVisitor>(visitor: &mut V, func_call: &ASTFunctionCallExpression)
    requires
        old(visitor).valid(),
    ensures
        final(visitor).valid(),
        visited_each(*final(visitor), *old(visitor), expression_views(func_call.arguments@)),
{
    let ghost arguments = expression_views(func_call.arguments@);
    let mut i: usize = 0;
    while i < func_call.arguments.len()
        invariant
            i <= func_call.arguments@.len(),
            arguments == expression_views(func_call.arguments@),
            visitor.valid(),
            visited_each(*visitor, *old(visitor), arguments.subrange(0, i as int)),
        decreases func_call.arguments@.len() - i,
    {
        let ghost between = *visitor;
        visitor.visit_expression(&func_call.arguments[i]);
        proof {
            let longer = arguments.subrange(0, i + 1);
            assert(longer.drop_last() =~= arguments.subrange(0, i as int));
            assert(longer.last() == func_call.arguments@[i as int]@);
            assert(visitor.visited_expression(&between, longer.last()));
        }
        i += 1;
    }
    proof {
        assert(arguments.subrange(0, i as int) =~= arguments);
    }
}

/// The child of a declaration: its initializer.
pub fn walk_variable_declaration<V: ASTVisitor>(visitor: &mut V, decl: &ASTVariableDeclaration)
    requires
        old(visitor).valid(),
    ensures
        final(visitor).valid(),
        final(visitor).visited_expression(old(visitor), decl.initializer@),
{
    visitor.visit_expression(&decl.initializer);
}

/// The child of an assignment: its right-hand side.
pub fn walk_assignment<V: ASTVisitor>(visitor: &mut V, assign: &ASTAssignment)
    requires
        old(visitor).valid(),
    ensures
        final(visitor).valid(),
        final(visitor).visited_expression(old(visitor), assign.value@),
{
    visitor.visit_expression(&assign.value);
}

/// Whether the visitor `after` is what `before` becomes by visits of
/// `statements`, one behind the other.
pub open spec fn visited_all<V: ASTVisitor>(after: V, before: V, statements: Seq<StatementView>)
    -> bool
    decreases statements.len(),
{
    if statements.len() == 0 {
        after == before
    } else {
        exists|between: V|
            visited_all(between, before, statements.drop_last()) && #[trigger] after.visited(
                &between,
                statements.last(),
            )
    }
}

impl Ast {
    /// Visits the statements of the program in order.
    pub fn visit<V: ASTVisitor>(&self, visitor: &mut V)
        requires
            old(visitor).valid(),
        ensures
            final(visitor).valid(),
            visited_all(*final(visitor), *old(visitor), statement_views(self.statements@)),
    {
        let ghost statements = statement_views(self.statements@);
        let mut i: usize = 0;
        while i < self.statements.len()
            invariant
                i <= self.statements@.len(),
                statements == statement_views(self.statements@),
                visitor.valid(),
                visited_all(*visitor, *old(visitor), statements.subrange(0, i as int)),
            decreases self.statements@.len() - i,
        {
            let ghost between = *visitor;
            visitor.visit_statement(&self.statements[i]);
            proof {
                let longer = statements.subrange(0, i + 1);
                assert(longer.drop_last() =~= statements.subrange(0, i as int));
                assert(longer.last() == self.statements@[i as int]@);
                assert(visitor.visited(&between, longer.last()));
            }
            i += 1;
        }
        proof {
            assert(statements.subrange(0, i as int) =~= statements);
        }
    }
}

} // verus!
