use faysal_lang::lexer::Lexer;
use faysal_lang::token::Token;

fn lex(src: &str) -> Vec<Token> {
    Lexer::new(src).tokenize()
}

fn names(tokens: &[Token]) -> Vec<String> {
    tokens.iter().map(|t| format!("{:?}", t)).collect()
}

#[test]
fn tokenize_declaration() {
    let t = lex("hayde x hiyye 5");
    assert_eq!(
        names(&t),
        vec!["Hayde", "Identifier(\"x\")", "Hiyye", "Number(\"5\")", "Eof"]
    );
}

#[test]
fn tokenize_ends_with_one_eof_and_drops_line_breaks() {
    let t = lex("3mol 1\n\n3mol 2\n");
    assert_eq!(names(&t), vec!["ThreeMol", "Number(\"1\")", "ThreeMol", "Number(\"2\")", "Eof"]);
    assert_eq!(t.iter().filter(|x| matches!(x, Token::Eof)).count(), 1);
}

#[test]
fn tokenize_empty_input() {
    assert_eq!(names(&lex("")), vec!["Eof"]);
    assert_eq!(names(&lex("   \t\r ")), vec!["Eof"]);
}

#[test]
fn comment_runs_to_end_of_line() {
    let t = lex("// nothing here\n3mol x // trailing");
    assert_eq!(names(&t), vec!["ThreeMol", "Identifier(\"x\")", "Eof"]);
}

#[test]
fn string_escape_and_unterminated() {
    let t = lex("\"a\\nb\" \"open");
    assert_eq!(names(&t), vec!["Text(\"a\\nb\")", "Text(\"open\")", "Eof"]);
    match &t[0] {
        Token::Text(s) => assert_eq!(s, "a\nb"),
        _ => panic!("expected text"),
    }
}

#[test]
fn string_keeps_other_backslashes() {
    let t = lex("\"a\\tb\"");
    match &t[0] {
        Token::Text(s) => assert_eq!(s, "a\\tb"),
        _ => panic!("expected text"),
    }
}

#[test]
fn number_literal_keeps_its_digits_and_points() {
    let t = lex("3.14 1.2.3");
    assert_eq!(names(&t), vec!["Number(\"3.14\")", "Number(\"1.2.3\")", "Eof"]);
}

#[test]
fn three_mol_is_a_keyword_but_three_is_a_number() {
    let t = lex("3mol 3 3mo");
    assert_eq!(
        names(&t),
        vec!["ThreeMol", "Number(\"3\")", "Number(\"3\")", "Identifier(\"mo\")", "Eof"]
    );
}

#[test]
fn keywords_win_over_identifiers() {
    let t = lex("hayde hiyye ong_no_cap cap eza betshil lakan walla deal highkey lowkey khalas yalla waqif haydee _x");
    assert_eq!(
        names(&t),
        vec![
            "Hayde", "Hiyye", "OngNoCap", "Cap", "Eza", "Betshil", "Lakan", "Walla", "Deal",
            "Highkey", "Lowkey", "Khalas", "Yalla", "Waqif", "Identifier(\"haydee\")",
            "Identifier(\"_x\")", "Eof"
        ]
    );
}

#[test]
fn operators_with_lookahead() {
    let t = lex("= == ! != > >= < <= && || + - * / % ( )");
    assert_eq!(
        names(&t),
        vec![
            "Hiyye", "EqualEqual", "Not", "NotEquals", "Greater", "GreaterEq", "Less", "LessEq",
            "And", "Or", "Plus", "Minus", "Star", "Slash", "Percent", "LeftParen", "RightParen",
            "Eof"
        ]
    );
}

#[test]
fn lone_ampersand_and_pipe_and_unknown_chars_are_skipped() {
    let t = lex("a & b | c # @ d");
    assert_eq!(
        names(&t),
        vec!["Identifier(\"a\")", "Identifier(\"b\")", "Identifier(\"c\")", "Identifier(\"d\")", "Eof"]
    );
}

#[test]
fn lexer_helpers() {
    let mut l = Lexer::new("  ab");
    assert_eq!(l.current_char(), Some(' '));
    assert_eq!(l.peek_char(2), Some('a'));
    assert_eq!(l.peek_char(9), None);
    l.skip_whitespace();
    assert_eq!(l.position, 2);
    assert_eq!(l.read_identifier(), "ab");
    assert_eq!(l.current_char(), None);
    let mut c = Lexer::new("// x\ny");
    c.skip_comment();
    assert_eq!(c.current_char(), Some('\n'));
    c.advance();
    assert_eq!(c.current_char(), Some('y'));
    let mut s = Lexer::new("\"hi\"rest");
    assert_eq!(s.read_string(), "hi");
    assert_eq!(s.current_char(), Some('r'));
}

#[test]
fn unicode_letters_and_digits() {
    let t = lex("café ٣ x٣");
    assert_eq!(
        names(&t),
        vec!["Identifier(\"café\")", "Number(\"٣\")", "Identifier(\"x٣\")", "Eof"]
    );
}
