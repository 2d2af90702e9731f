use arc_lang::ast::float::{FloatBits, FloatOperation, FloatUnit};
use arc_lang::ast::lexer::{tokenize, Lexer, TextSpan, Token, TokenKind};

struct Host;

impl FloatUnit for Host {
    fn parse(&self, literal: &str) -> FloatBits {
        FloatBits(literal.parse::<f64>().unwrap_or(0.0).to_bits())
    }

    fn from_integer(&self, value: i64) -> FloatBits {
        FloatBits((value as f64).to_bits())
    }

    fn truncate(&self, value: FloatBits) -> i64 {
        f64::from_bits(value.0) as i64
    }

    fn render(&self, value: FloatBits) -> String {
        f64::from_bits(value.0).to_string()
    }

    fn compute(&self, operation: FloatOperation, left: FloatBits, right: FloatBits) -> FloatBits {
        let a = f64::from_bits(left.0);
        let b = f64::from_bits(right.0);
        let r = match operation {
            FloatOperation::Add => a + b,
            FloatOperation::Subtract => a - b,
            FloatOperation::Multiply => a * b,
            FloatOperation::Divide => a / b,
            FloatOperation::Remainder => a % b,
            FloatOperation::Power => a.powf(b),
        };
        FloatBits(r.to_bits())
    }
}

fn float(x: f64) -> TokenKind {
    TokenKind::Float(FloatBits(x.to_bits()))
}

fn kinds(input: &str) -> Vec<TokenKind> {
    tokenize(input, &Host).into_iter().map(|t| t.kind).collect()
}

fn literals(input: &str) -> Vec<String> {
    tokenize(input, &Host).into_iter().map(|t| t.span.literal).collect()
}

fn name(text: &str) -> TokenKind {
    TokenKind::Identifier(text.to_string())
}

fn text(text: &str) -> TokenKind {
    TokenKind::String(text.to_string())
}

#[test]
fn an_empty_input_is_the_end_token_alone() {
    let mut lexer = Lexer::new("");
    let end = lexer.next_token(&Host).unwrap();
    assert_eq!(end.kind, TokenKind::EOF);
    assert_eq!(end.span, TextSpan::new(0, 0, String::new()));
    assert_eq!(lexer.current_pos, 1);
    assert!(lexer.next_token(&Host).is_none());
    assert!(lexer.next_token(&Host).is_none());
    assert_eq!(lexer.current_pos, 1);
}

#[test]
fn the_end_token_comes_once() {
    let mut lexer = Lexer::new("1");
    assert_eq!(lexer.next_token(&Host).unwrap().kind, TokenKind::Number(1));
    assert_eq!(lexer.next_token(&Host).unwrap().kind, TokenKind::EOF);
    assert!(lexer.next_token(&Host).is_none());
}

#[test]
fn spans_count_characters_and_hold_the_text() {
    let tokens = tokenize("let  ab=12", &Host);
    let spans: Vec<(usize, usize, &str)> =
        tokens.iter().map(|t| (t.span.start, t.span.end, t.span.literal.as_str())).collect();
    assert_eq!(
        spans,
        vec![
            (0, 3, "let"),
            (3, 4, " "),
            (4, 5, " "),
            (5, 7, "ab"),
            (7, 8, "="),
            (8, 10, "12"),
            (0, 0, ""),
        ]
    );
    assert_eq!(tokens[0].span.length(), 3);
    assert_eq!(tokens[5].span.length(), 2);
}

#[test]
fn positions_count_characters_not_bytes() {
    let tokens = tokenize("é+ü", &Host);
    assert_eq!(tokens[0].kind, name("é"));
    assert_eq!(tokens[1].kind, TokenKind::Plus);
    assert_eq!((tokens[1].span.start, tokens[1].span.end), (1, 2));
    assert_eq!(tokens[2].kind, name("ü"));
    assert_eq!((tokens[2].span.start, tokens[2].span.end), (2, 3));
    assert_eq!(tokens[2].span.literal, "ü");
    assert_eq!(tokens[3].kind, TokenKind::EOF);
}

#[test]
fn integers_and_floats_are_told_apart() {
    assert_eq!(kinds("42"), vec![TokenKind::Number(42), TokenKind::EOF]);
    assert_eq!(kinds("3.14"), vec![float(3.14), TokenKind::EOF]);
    assert_eq!(kinds("007"), vec![TokenKind::Number(7), TokenKind::EOF]);
    assert_eq!(kinds("0.5"), vec![float(0.5), TokenKind::EOF]);
    assert_eq!(kinds("10.0"), vec![float(10.0), TokenKind::EOF]);
}

#[test]
fn a_dot_belongs_to_a_number_only_before_a_digit() {
    assert_eq!(kinds("1.x"), vec![TokenKind::Number(1), TokenKind::Bad, name("x"), TokenKind::EOF]);
    assert_eq!(kinds("1."), vec![TokenKind::Number(1), TokenKind::Bad, TokenKind::EOF]);
    assert_eq!(
        kinds("1.5.25"),
        vec![float(1.5), TokenKind::Bad, TokenKind::Number(25), TokenKind::EOF]
    );
    assert_eq!(literals("1.5.25"), vec!["1.5", ".", "25", ""]);
}

#[test]
fn an_integer_literal_that_does_not_fit_is_zero() {
    assert_eq!(kinds("9223372036854775807"), vec![TokenKind::Number(i64::MAX), TokenKind::EOF]);
    assert_eq!(kinds("9223372036854775808"), vec![TokenKind::Number(0), TokenKind::EOF]);
    assert_eq!(
        kinds("99999999999999999999999999 1"),
        vec![TokenKind::Number(0), TokenKind::Whitespace, TokenKind::Number(1), TokenKind::EOF]
    );
    assert_eq!(literals("99999999999999999999999999")[0], "99999999999999999999999999");
}

#[test]
fn consume_number_reads_a_run_of_digits() {
    let mut lexer = Lexer::new("123abc");
    assert_eq!(lexer.consume_number(), 123);
    assert_eq!(lexer.current_pos, 3);
    assert_eq!(lexer.consume_number(), 0);
    assert_eq!(lexer.current_pos, 3);
    let mut big = Lexer::new("92233720368547758070");
    assert_eq!(big.consume_number(), 0);
    assert_eq!(big.current_pos, 20);
}

#[test]
fn strings_resolve_their_escapes() {
    assert_eq!(kinds("\"Arc\""), vec![text("Arc"), TokenKind::EOF]);
    assert_eq!(kinds(r#""a\nb\tc\rd\\e\"f""#), vec![text("a\nb\tc\rd\\e\"f"), TokenKind::EOF]);
    assert_eq!(kinds(r#""a\qb""#), vec![text("a\\qb"), TokenKind::EOF]);
    assert_eq!(kinds("\"\""), vec![text(""), TokenKind::EOF]);
    assert_eq!(literals("\"a b\" 1")[0], "\"a b\"");
}

#[test]
fn an_open_string_runs_to_the_end_of_the_input() {
    assert_eq!(kinds("\"abc"), vec![text("abc"), TokenKind::EOF]);
    assert_eq!(kinds("\"abc\\"), vec![text("abc"), TokenKind::EOF]);
    assert_eq!(kinds("\""), vec![text(""), TokenKind::EOF]);
}

#[test]
fn keywords_are_whole_words() {
    assert_eq!(
        kinds("let const true false"),
        vec![
            TokenKind::Let,
            TokenKind::Whitespace,
            TokenKind::Const,
            TokenKind::Whitespace,
            TokenKind::Boolean(true),
            TokenKind::Whitespace,
            TokenKind::Boolean(false),
            TokenKind::EOF,
        ]
    );
    assert_eq!(kinds("letter"), vec![name("letter"), TokenKind::EOF]);
    assert_eq!(kinds("truest"), vec![name("truest"), TokenKind::EOF]);
    assert_eq!(kinds("_x1"), vec![name("_x1"), TokenKind::EOF]);
    assert_eq!(kinds("x_2y"), vec![name("x_2y"), TokenKind::EOF]);
    assert_eq!(kinds("Let"), vec![name("Let"), TokenKind::EOF]);
}

#[test]
fn operators_of_two_characters_need_one_character_of_lookahead() {
    assert_eq!(
        kinds("***<<<=<>>>=>&&&|||!=!"),
        vec![
            TokenKind::DoubleStar,
            TokenKind::Asterisk,
            TokenKind::LeftShift,
            TokenKind::LessEqual,
            TokenKind::Less,
            TokenKind::RightShift,
            TokenKind::GreaterEqual,
            TokenKind::Greater,
            TokenKind::DoubleAmpersand,
            TokenKind::Ampersand,
            TokenKind::DoublePipe,
            TokenKind::Pipe,
            TokenKind::BangEqual,
            TokenKind::Bang,
            TokenKind::EOF,
        ]
    );
    assert_eq!(kinds("="), vec![TokenKind::Equal, TokenKind::EOF]);
    assert_eq!(kinds("=="), vec![TokenKind::EqualEqual, TokenKind::EOF]);
    assert_eq!(kinds("==="), vec![TokenKind::EqualEqual, TokenKind::Equal, TokenKind::EOF]);
    assert_eq!(kinds("!=="), vec![TokenKind::BangEqual, TokenKind::Equal, TokenKind::EOF]);
}

#[test]
fn single_characters_have_their_kinds() {
    assert_eq!(
        kinds("+-*/%^(),{};"),
        vec![
            TokenKind::Plus,
            TokenKind::Minus,
            TokenKind::Asterisk,
            TokenKind::Slash,
            TokenKind::Percent,
            TokenKind::Caret,
            TokenKind::LeftParen,
            TokenKind::RightParen,
            TokenKind::Comma,
            TokenKind::LeftBrace,
            TokenKind::RightBrace,
            TokenKind::Semicolon,
            TokenKind::EOF,
        ]
    );
}

#[test]
fn an_unknown_character_is_a_bad_token() {
    assert_eq!(kinds("@"), vec![TokenKind::Bad, TokenKind::EOF]);
    assert_eq!(kinds("1 # 2").len(), 6);
    assert_eq!(kinds("$")[0], TokenKind::Bad);
    assert_eq!(kinds("\0")[0], TokenKind::Bad);
}

#[test]
fn whitespace_is_one_token_for_each_character() {
    assert_eq!(
        kinds(" \t\n"),
        vec![TokenKind::Whitespace, TokenKind::Whitespace, TokenKind::Whitespace, TokenKind::EOF]
    );
    assert_eq!(kinds("\u{a0}"), vec![TokenKind::Whitespace, TokenKind::EOF]);
}

#[test]
fn comments_are_whitespace() {
    assert_eq!(kinds("// a comment"), vec![TokenKind::Whitespace, TokenKind::EOF]);
    assert_eq!(literals("1// c\n2"), vec!["1", "// c", "\n", "2", ""]);
    assert_eq!(
        kinds("1/* x */2"),
        vec![TokenKind::Number(1), TokenKind::Whitespace, TokenKind::Number(2), TokenKind::EOF]
    );
    assert_eq!(literals("1/* x\n* y */2")[1], "/* x\n* y */");
    assert_eq!(kinds("/* open"), vec![TokenKind::Whitespace, TokenKind::EOF]);
    assert_eq!(literals("/* a **/ b")[0], "/* a **/");
    assert_eq!(kinds("/*/ 1"), vec![TokenKind::Whitespace, TokenKind::EOF]);
    assert_eq!(kinds("/"), vec![TokenKind::Slash, TokenKind::EOF]);
}

#[test]
fn the_cursor_can_be_read_and_moved() {
    let mut lexer = Lexer::new("ab");
    assert_eq!(lexer.current_char(), Some('a'));
    assert_eq!(lexer.peek_char(0), Some('a'));
    assert_eq!(lexer.peek_char(1), Some('b'));
    assert_eq!(lexer.peek_char(2), None);
    assert_eq!(lexer.peek_char(usize::MAX), None);
    assert_eq!(lexer.consume(), Some('a'));
    assert_eq!(lexer.consume(), Some('b'));
    assert_eq!(lexer.current_char(), None);
    assert_eq!(lexer.consume(), None);
    assert_eq!(lexer.current_pos, 3);
    assert_eq!(lexer.consume(), None);
    assert_eq!(lexer.current_pos, 3);
}

#[test]
fn characters_are_classified() {
    assert!(Lexer::is_whitespace(&' '));
    assert!(Lexer::is_whitespace(&'\n'));
    assert!(!Lexer::is_whitespace(&'a'));
    assert!(Lexer::is_number_start(&'0'));
    assert!(Lexer::is_number_start(&'9'));
    assert!(!Lexer::is_number_start(&'a'));
    assert!(!Lexer::is_number_start(&'٣'));
    assert!(Lexer::is_identifier_start(&'a'));
    assert!(Lexer::is_identifier_start(&'_'));
    assert!(Lexer::is_identifier_start(&'é'));
    assert!(!Lexer::is_identifier_start(&'1'));
    assert!(Lexer::is_identifier_continue(&'1'));
    assert!(Lexer::is_identifier_continue(&'_'));
    assert!(!Lexer::is_identifier_continue(&'-'));
}

#[test]
fn the_scanners_can_be_called_alone() {
    let mut lexer = Lexer::new("// c\nx");
    lexer.consume_single_line_comment();
    assert_eq!(lexer.current_pos, 4);
    let mut block = Lexer::new("a */b");
    block.consume_multi_line_comment();
    assert_eq!(block.current_pos, 4);
    let mut word = Lexer::new("const1 ");
    assert_eq!(word.consume_identifier(), name("const1"));
    assert_eq!(word.current_pos, 6);
    let mut quoted = Lexer::new("\"hi\" there");
    assert_eq!(quoted.consume_string(), text("hi"));
    assert_eq!(quoted.current_pos, 4);
    let mut mark = Lexer::new("<=1");
    assert_eq!(mark.consume_punctuation(), TokenKind::LessEqual);
    assert_eq!(mark.current_pos, 2);
    let mut number = Lexer::new("2.5+");
    assert_eq!(number.consume_number_or_float(&Host), float(2.5));
    assert_eq!(number.current_pos, 3);
}

#[test]
fn a_token_lexed_again_from_its_text_has_the_same_kind() {
    let source = "let x1 = 3.25 + 42 * (y - \"a\\n\") // note\n/* b */ const t = true && !false || a <= b << 2 @ \"open";
    let tokens: Vec<Token> = tokenize(source, &Host);
    assert!(tokens.len() > 30);
    assert_eq!(tokens.last().unwrap().kind, TokenKind::EOF);
    for token in tokens.iter() {
        let again = tokenize(&token.span.literal, &Host);
        assert_eq!(again.len(), if token.kind == TokenKind::EOF { 1 } else { 2 });
        assert_eq!(again[0].kind, token.kind);
        assert_eq!(again[0].span.literal, token.span.literal);
        assert_eq!(again[0].span.start, 0);
        assert_eq!(again[0].span.end, token.span.length());
    }
}

#[test]
fn the_end_token_rescans_to_the_end_token() {
    let tokens = tokenize("x", &Host);
    let end = tokens.last().unwrap();
    assert_eq!(end.kind, TokenKind::EOF);
    assert_eq!(end.span.literal, "");
    let mut lexer = Lexer::new(&end.span.literal);
    let again = lexer.next_token(&Host).unwrap();
    assert_eq!(again.kind, TokenKind::EOF);
    assert_eq!(again.span, TextSpan::new(0, 0, String::new()));
    assert!(lexer.next_token(&Host).is_none());
}

#[test]
fn the_scanners_stay_behind_the_end_of_the_input() {
    let mut word = Lexer::new("ab");
    word.current_pos = 5;
    assert_eq!(word.consume_identifier(), name(""));
    assert_eq!(word.current_pos, 5);
    word.current_pos = 2;
    assert_eq!(word.consume_identifier(), name(""));
    assert_eq!(word.current_pos, 2);
    let mut number = Lexer::new("12");
    number.current_pos = 7;
    assert_eq!(number.consume_number_or_float(&Host), TokenKind::Number(0));
    assert_eq!(number.current_pos, 7);
    number.current_pos = 2;
    assert_eq!(number.consume_number_or_float(&Host), TokenKind::Number(0));
    assert_eq!(number.current_pos, 2);
    let mut quoted = Lexer::new("\"a");
    quoted.current_pos = 2;
    assert_eq!(quoted.consume_string(), text(""));
    assert_eq!(quoted.current_pos, 3);
    assert_eq!(quoted.consume_string(), text(""));
    assert_eq!(quoted.current_pos, 3);
    quoted.current_pos = 1;
    assert_eq!(quoted.consume_string(), text(""));
    assert_eq!(quoted.current_pos, 2);
}

#[test]
fn ascii_characters_are_classified_as_stated() {
    for code in 0u32..128 {
        let c = char::from_u32(code).unwrap();
        assert_eq!(Lexer::is_whitespace(&c), c == ' ' || ('\t'..='\r').contains(&c), "{code}");
        let letter = c.is_ascii_lowercase() || c.is_ascii_uppercase();
        assert_eq!(Lexer::is_identifier_start(&c), letter || c == '_', "{code}");
        assert_eq!(
            Lexer::is_identifier_continue(&c),
            letter || c.is_ascii_digit() || c == '_',
            "{code}"
        );
        assert_eq!(Lexer::is_number_start(&c), ('0'..='9').contains(&c), "{code}");
    }
}

#[test]
fn a_statement_is_scanned_whole() {
    assert_eq!(
        kinds("7 - (30 + 7) * 8 / 2"),
        vec![
            TokenKind::Number(7),
            TokenKind::Whitespace,
            TokenKind::Minus,
            TokenKind::Whitespace,
            TokenKind::LeftParen,
            TokenKind::Number(30),
            TokenKind::Whitespace,
            TokenKind::Plus,
            TokenKind::Whitespace,
            TokenKind::Number(7),
            TokenKind::RightParen,
            TokenKind::Whitespace,
            TokenKind::Asterisk,
            TokenKind::Whitespace,
            TokenKind::Number(8),
            TokenKind::Whitespace,
            TokenKind::Slash,
            TokenKind::Whitespace,
            TokenKind::Number(2),
            TokenKind::EOF,
        ]
    );
}
