use tiny::lexical::chars_of;
use tiny::lexical::lexical_analizer::lexical_analysis;
use tiny::lexical::tokens::Token;
use tiny::lexical::Lexeme;

fn tokenize(src: &str) -> Vec<Lexeme> {
    let cs = chars_of(src);
    lexical_analysis(&cs)
}

#[test]
fn round_trip_two_char_operator() {
    let lexes = tokenize("==");
    assert_eq!(lexes.len(), 2);
    assert_eq!(lexes[0].ttype, Token::Equal);
    assert_eq!(lexes[0].token, "==");
    assert_eq!(lexes[0].line_number, 1);
    assert_eq!(lexes[1].ttype, Token::EndOfFile);
}

#[test]
fn round_trip_not_equal() {
    let lexes = tokenize("!=");
    assert_eq!(lexes.len(), 2);
    assert_eq!(lexes[0].ttype, Token::NotEqual);
    assert_eq!(lexes[0].token, "!=");
}

#[test]
fn round_trip_keyword() {
    let lexes = tokenize("while");
    assert_eq!(lexes.len(), 2);
    assert_eq!(lexes[0].ttype, Token::While);
    assert_eq!(lexes[0].token, "while");
}

#[test]
fn round_trip_number() {
    let lexes = tokenize("123");
    assert_eq!(lexes.len(), 2);
    assert_eq!(lexes[0].ttype, Token::Number);
    assert_eq!(lexes[0].token, "123");
}

#[test]
fn round_trip_identifier() {
    let lexes = tokenize("x_1");
    assert_eq!(lexes.len(), 2);
    assert_eq!(lexes[0].ttype, Token::Var);
    assert_eq!(lexes[0].token, "x_1");
}

#[test]
fn round_trip_single_assign() {
    let lexes = tokenize("=");
    assert_eq!(lexes.len(), 2);
    assert_eq!(lexes[0].ttype, Token::Assign);
    assert_eq!(lexes[0].token, "=");
}

#[test]
fn maximal_munch_lower_equal() {
    let lexes = tokenize("<=");
    assert_eq!(lexes.len(), 2);
    assert_eq!(lexes[0].ttype, Token::LowerEqual);
    assert_eq!(lexes[0].token, "<=");
}

#[test]
fn maximal_munch_pushback() {
    let lexes = tokenize("<x");
    assert_eq!(lexes.len(), 3);
    assert_eq!(lexes[0].ttype, Token::Lower);
    assert_eq!(lexes[0].token, "<");
    assert_eq!(lexes[1].ttype, Token::Var);
    assert_eq!(lexes[1].token, "x");
    assert_eq!(lexes[2].ttype, Token::EndOfFile);
}

#[test]
fn comment_skipping() {
    let with_comment = tokenize("x=1;#comment\noutput x;");
    let without = tokenize("x=1;\noutput x;");
    assert_eq!(with_comment.len(), without.len());
    for (a, b) in with_comment.iter().zip(without.iter()) {
        assert_eq!(a.ttype, b.ttype);
        assert_eq!(a.token, b.token);
        assert_eq!(a.line_number, b.line_number);
    }
    // everything after the comment's newline is on line 2
    assert_eq!(with_comment[4].token, "output");
    assert_eq!(with_comment[4].line_number, 2);
    assert_eq!(with_comment[0].line_number, 1);
}

#[test]
fn bang_alone_is_invalid() {
    let lexes = tokenize("! ");
    assert_eq!(lexes[0].ttype, Token::InvalidToken);
    assert_eq!(lexes[0].token, "!");
}

#[test]
fn bang_at_end_is_unexpected_eof() {
    let lexes = tokenize("!");
    assert_eq!(lexes[0].ttype, Token::UnexpectedEof);
    assert_eq!(lexes[0].token, "");
    assert_eq!(lexes[1].ttype, Token::EndOfFile);
}

#[test]
fn stray_character_is_invalid() {
    let lexes = tokenize("x @ y");
    assert_eq!(lexes[0].ttype, Token::Var);
    assert_eq!(lexes[1].ttype, Token::InvalidToken);
    assert_eq!(lexes[1].token, "@");
    assert_eq!(lexes[2].ttype, Token::Var);
}

#[test]
fn newlines_count_lines() {
    let lexes = tokenize("a\nb\nc");
    assert_eq!(lexes[0].line_number, 1);
    assert_eq!(lexes[1].line_number, 2);
    assert_eq!(lexes[2].line_number, 3);
}

#[test]
fn from_string_classifies_keywords() {
    assert_eq!(Token::from_string("program"), Token::Program);
    assert_eq!(Token::from_string("done"), Token::Done);
    assert_eq!(Token::from_string("read"), Token::Read);
    assert_eq!(Token::from_string("not"), Token::Not);
    assert_eq!(Token::from_string("%"), Token::Mod);
    assert_eq!(Token::from_string("/"), Token::Div);
    assert_eq!(Token::from_string(">="), Token::GreaterEqual);
    assert_eq!(Token::from_string("somename"), Token::Var);
}

#[test]
fn token_names() {
    assert_eq!(Token::to_string(&Token::EndOfFile), Ok("EOF"));
    assert_eq!(Token::to_string(&Token::LowerEqual), Ok("LOWER_EQUAL"));
    assert_eq!(Token::to_string(&Token::Var), Ok("VAR"));
}
