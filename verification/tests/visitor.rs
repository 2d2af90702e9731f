use arc_lang::ast::float::{FloatBits, FloatOperation, FloatUnit};
use arc_lang::ast::lexer::tokenize;
use arc_lang::ast::parser::Parser;
use arc_lang::ast::visitor::{
    do_visit_expression, do_visit_statement, walk_assignment, walk_binary_expression,
    walk_function_call, walk_parenthesized_expression, walk_unary_expression,
    walk_variable_declaration, ASTVisitor,
};
use arc_lang::ast::{
    ASTAssignment, ASTBinaryExpression, ASTExpression, ASTFunctionCallExpression,
    ASTIdentifierExpression, ASTNumberExpression, ASTParanthesizedExpression, ASTStatement,
    ASTUnaryExpression, ASTVariableDeclaration, Ast,
};

struct Host;

impl FloatUnit for Host {
    fn parse(&self, literal: &str) -> FloatBits {
        FloatBits(literal.parse::<f64>().unwrap_or(0.0).to_bits())
    }

    fn from_integer(&self, value: i64) -> FloatBits {
        FloatBits((value as f64).to_bits())
    }

    fn truncate(&self, value: FloatBits) -> i64 {
        f64::from_bits(value.0) as i64
    }

    fn render(&self, value: FloatBits) -> String {
        f64::from_bits(value.0).to_string()
    }

    fn compute(&self, operation: FloatOperation, left: FloatBits, right: FloatBits) -> FloatBits {
        let a = f64::from_bits(left.0);
        let b = f64::from_bits(right.0);
        let r = match operation {
            FloatOperation::Add => a + b,
            FloatOperation::Subtract => a - b,
            FloatOperation::Multiply => a * b,
            FloatOperation::Divide => a / b,
            FloatOperation::Remainder => a % b,
            FloatOperation::Power => a.powf(b),
        };
        FloatBits(r.to_bits())
    }
}

/// Writes down the nodes in the order of the walk.
struct Recorder {
    seen: Vec<String>,
}

impl ASTVisitor for Recorder {
    fn visit_statement(&mut self, statement: &ASTStatement) {
        self.seen.push("statement".to_string());
        do_visit_statement(self, statement);
    }

    fn visit_expression(&mut self, expression: &ASTExpression) {
        do_visit_expression(self, expression);
    }

    fn visit_number(&mut self, number: &ASTNumberExpression) {
        self.seen.push(format!("{:?}", number.value));
    }

    fn visit_binary_expression(&mut self, expr: &ASTBinaryExpression) {
        self.seen.push(format!("{:?}", expr.operator.kind));
        self.visit_expression(&expr.left);
        self.visit_expression(&expr.right);
    }

    fn visit_parenthesized_expression(&mut self, paren_expr: &ASTParanthesizedExpression) {
        self.seen.push("paren".to_string());
        self.visit_expression(&paren_expr.expression);
    }

    fn visit_unary_expression(&mut self, unary_expr: &ASTUnaryExpression) {
        self.seen.push(format!("{:?}", unary_expr.operator.kind));
        self.visit_expression(&unary_expr.operand);
    }

    fn visit_identifier(&mut self, ident: &ASTIdentifierExpression) {
        self.seen.push(ident.name.clone());
    }

    fn visit_function_call(&mut self, func_call: &ASTFunctionCallExpression) {
        self.seen.push(format!("call {}", func_call.name));
        for argument in &func_call.arguments {
            self.visit_expression(argument);
        }
    }

    fn visit_variable_declaration(&mut self, decl: &ASTVariableDeclaration) {
        self.seen.push(format!("declare {}", decl.name));
        self.visit_expression(&decl.initializer);
    }

    fn visit_assignment(&mut self, assign: &ASTAssignment) {
        self.seen.push(format!("assign {}", assign.name));
        self.visit_expression(&assign.value);
    }
}

fn program(source: &str) -> Ast {
    let mut ast = Ast::new();
    let mut parser = Parser::new(tokenize(source, &Host));
    while let Some(statement) = parser.next_statement() {
        ast.add_statement(statement);
    }
    ast
}

#[test]
fn a_walk_is_in_pre_order_from_left_to_right() {
    let ast = program("let a = 1 + 2 * b; a = -(a); f(a, true, \"s\") - !c");
    let mut recorder = Recorder { seen: vec![] };
    ast.visit(&mut recorder);
    assert_eq!(
        recorder.seen,
        vec![
            "statement",
            "declare a",
            "Plus",
            "Integer(1)",
            "Multiply",
            "Integer(2)",
            "b",
            "statement",
            "assign a",
            "Minus",
            "paren",
            "a",
            "statement",
            "Minus",
            "call f",
            "a",
            "Boolean(true)",
            "String(\"s\")",
            "LogicalNot",
            "c",
        ]
    );
}

/// Counts the leaves and leaves every other node to the shared steps.
struct Leaves {
    seen: Vec<String>,
}

impl ASTVisitor for Leaves {
    fn visit_statement(&mut self, statement: &ASTStatement) {
        do_visit_statement(self, statement);
    }

    fn visit_expression(&mut self, expression: &ASTExpression) {
        do_visit_expression(self, expression);
    }

    fn visit_number(&mut self, number: &ASTNumberExpression) {
        self.seen.push(format!("{:?}", number.value));
    }

    fn visit_binary_expression(&mut self, expr: &ASTBinaryExpression) {
        walk_binary_expression(self, expr);
    }

    fn visit_parenthesized_expression(&mut self, paren_expr: &ASTParanthesizedExpression) {
        walk_parenthesized_expression(self, paren_expr);
    }

    fn visit_unary_expression(&mut self, unary_expr: &ASTUnaryExpression) {
        walk_unary_expression(self, unary_expr);
    }

    fn visit_identifier(&mut self, ident: &ASTIdentifierExpression) {
        self.seen.push(ident.name.clone());
    }

    fn visit_function_call(&mut self, func_call: &ASTFunctionCallExpression) {
        walk_function_call(self, func_call);
    }

    fn visit_variable_declaration(&mut self, decl: &ASTVariableDeclaration) {
        walk_variable_declaration(self, decl);
    }

    fn visit_assignment(&mut self, assign: &ASTAssignment) {
        walk_assignment(self, assign);
    }
}

#[test]
fn the_shared_walks_visit_the_children_in_order() {
    let ast = program("let a = (1 + b) * -c; a = f(2, g(d), e) - 3; !h && i");
    let mut leaves = Leaves { seen: vec![] };
    ast.visit(&mut leaves);
    assert_eq!(
        leaves.seen,
        vec!["Integer(1)", "b", "c", "Integer(2)", "d", "e", "Integer(3)", "h", "i"]
    );
}

#[test]
fn an_empty_program_visits_nothing() {
    let ast = program("");
    assert!(ast.statements.is_empty());
    let mut recorder = Recorder { seen: vec![] };
    ast.visit(&mut recorder);
    assert!(recorder.seen.is_empty());
}

#[test]
fn the_shared_steps_dispatch_on_the_form() {
    let ast = program("x; let y = 2; y = 3");
    let mut recorder = Recorder { seen: vec![] };
    for statement in &ast.statements {
        do_visit_statement(&mut recorder, statement);
    }
    assert_eq!(recorder.seen, vec!["x", "declare y", "Integer(2)", "assign y", "Integer(3)"]);
    let mut single = Recorder { seen: vec![] };
    do_visit_expression(&mut single, &ASTExpression::number(7));
    do_visit_expression(&mut single, &ASTExpression::identifier("z".to_string()));
    assert_eq!(single.seen, vec!["Integer(7)", "z"]);
}
