use vstd::prelude::*;

use crate::lexical::tokens::Token;
use crate::lexical::tokens::token_of_text;
use crate::lexical::Lexeme;
use crate::lexical::LexView;

verus! {

// ---------------------------------------------------------------------------
// Character classes
// ---------------------------------------------------------------------------

/// Blank characters that separate lexemes without ending a line.
pub open spec fn is_space_char(c: char) -> bool {
    c == ' ' || c == '\t' || c == '\r'
}

/// The characters that form single-character operator or punctuation lexemes.
pub open spec fn is_symbol_char(c: char) -> bool {
    c == ';' || c == '+' || c == '-' || c == '*' || c == '/' || c == '%' || c == '^'
}

/// Decimal digits.
pub open spec fn is_digit_char(c: char) -> bool {
    48 <= c as u32 <= 57
}

/// ASCII letters.
pub open spec fn is_letter_char(c: char) -> bool {
    (97 <= c as u32 <= 122) || (65 <= c as u32 <= 90)
}

/// Characters that may start an identifier.
pub open spec fn is_ident_start_char(c: char) -> bool {
    c == '_' || is_letter_char(c)
}

/// Characters that may continue an identifier.
pub open spec fn is_ident_char(c: char) -> bool {
    is_ident_start_char(c) || is_digit_char(c)
}

pub fn is_digit(c: char) -> (r: bool)
    ensures
        r == is_digit_char(c),
{
    let u = c as u32;
    48 <= u && u <= 57
}

pub fn is_letter(c: char) -> (r: bool)
    ensures
        r == is_letter_char(c),
{
    let u = c as u32;
    (97 <= u && u <= 122) || (65 <= u && u <= 90)
}

pub fn is_ident(c: char) -> (r: bool)
    ensures
        r == is_ident_char(c),
{
    c == '_' || is_letter(c) || is_digit(c)
}

/// The line counter after one more newline; it sticks at its largest value
/// rather than wrap.
pub open spec fn next_line_no(line: u16) -> u16 {
    if line < 65535 {
        (line + 1) as u16
    } else {
        line
    }
}

// ---------------------------------------------------------------------------
// The scanner, as a mathematical function of the character stream
// ---------------------------------------------------------------------------

/// Position and line after skipping blanks, newlines and comments from `pos`.
pub open spec fn spec_skip_blank(s: Seq<char>, pos: int, line: u16) -> (int, u16)
    decreases s.len() - pos, 1int,
{
    if pos < 0 || pos >= s.len() {
        (pos, line)
    } else if is_space_char(s[pos]) {
        spec_skip_blank(s, pos + 1, line)
    } else if s[pos] == '\n' {
        spec_skip_blank(s, pos + 1, next_line_no(line))
    } else if s[pos] == '#' {
        spec_skip_comment(s, pos + 1, line)
    } else {
        (pos, line)
    }
}

/// Position and line after skipping the rest of a comment line.
pub open spec fn spec_skip_comment(s: Seq<char>, pos: int, line: u16) -> (int, u16)
    decreases s.len() - pos, 0int,
{
    if pos < 0 || pos >= s.len() {
        (pos, line)
    } else if s[pos] == '\n' {
        spec_skip_blank(s, pos + 1, next_line_no(line))
    } else {
        spec_skip_comment(s, pos + 1, line)
    }
}

/// First position at or after `pos` whose character no longer continues an
/// identifier.
pub open spec fn spec_scan_ident_end(s: Seq<char>, pos: int) -> int
    decreases s.len() - pos,
{
    if pos < 0 || pos >= s.len() {
        pos
    } else if is_ident_char(s[pos]) {
        spec_scan_ident_end(s, pos + 1)
    } else {
        pos
    }
}

/// First position at or after `pos` whose character is not a digit.
pub open spec fn spec_scan_digit_end(s: Seq<char>, pos: int) -> int
    decreases s.len() - pos,
{
    if pos < 0 || pos >= s.len() {
        pos
    } else if is_digit_char(s[pos]) {
        spec_scan_digit_end(s, pos + 1)
    } else {
        pos
    }
}

/// One step of the scanner: the lexeme found at `pos`, and where scanning
/// resumes.
pub struct LexStep {
    pub text: Seq<char>,
    pub ttype: Token,
    pub line: u16,
    pub next_pos: int,
    pub next_line: u16,
}

impl LexStep {
    /// The lexeme this step yields.
    pub open spec fn lex(self) -> LexView {
        LexView { ttype: self.ttype, text: self.text, line: self.line }
    }
}

/// The next lexeme of `s` at `pos`, by maximal munch: two-character operators
/// are preferred over their one-character prefixes; identifiers and numbers
/// run as far as their character class allows.  A `!` not followed by `=` is
/// an invalid token, or an unexpected end of file when nothing follows it.
/// Any other character that starts no lexeme is an invalid token.
pub open spec fn spec_next_lexeme(s: Seq<char>, pos: int, line: u16) -> LexStep {
    let sk = spec_skip_blank(s, pos, line);
    let p = sk.0;
    let l = sk.1;
    if p >= s.len() {
        LexStep { text: Seq::empty(), ttype: Token::EndOfFile, line: l, next_pos: p, next_line: l }
    } else {
        let c = s[p];
        if c == '=' || c == '<' || c == '>' {
            if p + 1 < s.len() && s[p + 1] == '=' {
                LexStep {
                    text: seq![c, '='],
                    ttype: token_of_text(seq![c, '=']),
                    line: l,
                    next_pos: p + 2,
                    next_line: l,
                }
            } else {
                LexStep {
                    text: seq![c],
                    ttype: token_of_text(seq![c]),
                    line: l,
                    next_pos: p + 1,
                    next_line: l,
                }
            }
        } else if c == '!' {
            if p + 1 >= s.len() {
                LexStep {
                    text: Seq::empty(),
                    ttype: Token::UnexpectedEof,
                    line: l,
                    next_pos: p + 1,
                    next_line: l,
                }
            } else if s[p + 1] == '=' {
                LexStep {
                    text: seq!['!', '='],
                    ttype: Token::NotEqual,
                    line: l,
                    next_pos: p + 2,
                    next_line: l,
                }
            } else {
                LexStep {
                    text: seq!['!'],
                    ttype: Token::InvalidToken,
                    line: l,
                    next_pos: p + 2,
                    next_line: l,
                }
            }
        } else if is_symbol_char(c) {
            LexStep {
                text: seq![c],
                ttype: token_of_text(seq![c]),
                line: l,
                next_pos: p + 1,
                next_line: l,
            }
        } else if is_ident_start_char(c) {
            let e = spec_scan_ident_end(s, p + 1);
            LexStep {
                text: s.subrange(p, e),
                ttype: token_of_text(s.subrange(p, e)),
                line: l,
                next_pos: e,
                next_line: l,
            }
        } else if is_digit_char(c) {
            let e = spec_scan_digit_end(s, p + 1);
            LexStep {
                text: s.subrange(p, e),
                ttype: Token::Number,
                line: l,
                next_pos: e,
                next_line: l,
            }
        } else {
            LexStep {
                text: seq![c],
                ttype: Token::InvalidToken,
                line: l,
                next_pos: p + 1,
                next_line: l,
            }
        }
    }
}

/// All lexemes of `s` from `pos` on, ending with the terminal lexeme.
/// Scanning does not stop at a fault lexeme: the fault is reported in the
/// stream, through its category, and scanning resumes after it.
pub open spec fn spec_tokenize_from(s: Seq<char>, pos: int, line: u16) -> Seq<LexView>
    decreases s.len() - pos,
{
    let st = spec_next_lexeme(s, pos, line);
    if st.ttype == Token::EndOfFile {
        seq![st.lex()]
    } else if pos < st.next_pos <= s.len() {
        seq![st.lex()] + spec_tokenize_from(s, st.next_pos, st.next_line)
    } else {
        seq![st.lex()]
    }
}

/// The lexemes of the whole character stream.
pub open spec fn spec_tokenize(s: Seq<char>) -> Seq<LexView> {
    spec_tokenize_from(s, 0, 1)
}

/// The contents of a lexeme vector.
pub open spec fn lex_views(ls: Seq<Lexeme>) -> Seq<LexView> {
    ls.map_values(|l: Lexeme| l@)
}

/// A well-formed lexeme stream: it ends with the terminal lexeme, and only
/// there.
pub open spec fn wf_lexes(ls: Seq<Lexeme>) -> bool {
    &&& ls.len() > 0
    &&& ls[ls.len() - 1].ttype == Token::EndOfFile
    &&& forall|i: int| 0 <= i < ls.len() - 1 ==> ls[i].ttype != Token::EndOfFile
}

// ---------------------------------------------------------------------------
// Bounds of the scanner's positions
// ---------------------------------------------------------------------------

pub proof fn lemma_skip_blank_in_range(s: Seq<char>, pos: int, line: u16)
    requires
        0 <= pos <= s.len(),
    ensures
        pos <= spec_skip_blank(s, pos, line).0 <= s.len(),
    decreases s.len() - pos, 1int,
{
    if pos < s.len() {
        if is_space_char(s[pos]) {
            lemma_skip_blank_in_range(s, pos + 1, line);
        } else if s[pos] == '\n' {
            lemma_skip_blank_in_range(s, pos + 1, next_line_no(line));
        } else if s[pos] == '#' {
            lemma_skip_comment_in_range(s, pos + 1, line);
        }
    }
}

pub proof fn lemma_skip_comment_in_range(s: Seq<char>, pos: int, line: u16)
    requires
        0 <= pos <= s.len(),
    ensures
        pos <= spec_skip_comment(s, pos, line).0 <= s.len(),
    decreases s.len() - pos, 0int,
{
    if pos < s.len() {
        if s[pos] == '\n' {
            lemma_skip_blank_in_range(s, pos + 1, next_line_no(line));
        } else {
            lemma_skip_comment_in_range(s, pos + 1, line);
        }
    }
}

pub proof fn lemma_scan_ident_end_in_range(s: Seq<char>, pos: int)
    requires
        0 <= pos <= s.len(),
    ensures
        pos <= spec_scan_ident_end(s, pos) <= s.len(),
    decreases s.len() - pos,
{
    if pos < s.len() && is_ident_char(s[pos]) {
        lemma_scan_ident_end_in_range(s, pos + 1);
    }
}

pub proof fn lemma_scan_digit_end_in_range(s: Seq<char>, pos: int)
    requires
        0 <= pos <= s.len(),
    ensures
        pos <= spec_scan_digit_end(s, pos) <= s.len(),
    decreases s.len() - pos,
{
    if pos < s.len() && is_digit_char(s[pos]) {
        lemma_scan_digit_end_in_range(s, pos + 1);
    }
}

/// Every step of the scanner stays within the stream, and advances unless it
/// yields the terminal lexeme.
pub proof fn lemma_next_lexeme_in_range(s: Seq<char>, pos: int, line: u16)
    requires
        0 <= pos <= s.len(),
    ensures
        pos <= spec_next_lexeme(s, pos, line).next_pos <= s.len(),
        spec_next_lexeme(s, pos, line).ttype != Token::EndOfFile ==> pos < spec_next_lexeme(
            s,
            pos,
            line,
        ).next_pos,
    decreases s.len() - pos,
{
    lemma_skip_blank_in_range(s, pos, line);
    let p = spec_skip_blank(s, pos, line).0;
    if p < s.len() {
        let c = s[p];
        if is_ident_start_char(c) {
            lemma_scan_ident_end_in_range(s, p + 1);
        } else if is_digit_char(c) {
            lemma_scan_digit_end_in_range(s, p + 1);
        }
    }
}

// ---------------------------------------------------------------------------
// The round trip over single terminals
// ---------------------------------------------------------------------------

/// A keyword or identifier text.
pub open spec fn is_ident_text(s: Seq<char>) -> bool {
    s.len() > 0 && is_ident_start_char(s[0]) && forall|i: int|
        0 <= i < s.len() ==> is_ident_char(s[i])
}

/// A number text.
pub open spec fn is_number_text(s: Seq<char>) -> bool {
    s.len() > 0 && forall|i: int| 0 <= i < s.len() ==> is_digit_char(s[i])
}

/// A string of the grammar's terminal set: one operator or punctuation mark,
/// a keyword or identifier, or a number.
pub open spec fn is_terminal_text(s: Seq<char>) -> bool {
    ||| (s.len() == 1 && (is_symbol_char(s[0]) || s[0] == '=' || s[0] == '<' || s[0] == '>'))
    ||| (s.len() == 2 && (s[0] == '=' || s[0] == '<' || s[0] == '>' || s[0] == '!') && s[1] == '=')
    ||| is_ident_text(s)
    ||| is_number_text(s)
}

/// The category such a string belongs to.
pub open spec fn terminal_category(s: Seq<char>) -> Token {
    if is_number_text(s) {
        Token::Number
    } else {
        token_of_text(s)
    }
}

pub proof fn lemma_scan_ident_end_all(s: Seq<char>, pos: int)
    requires
        0 <= pos <= s.len(),
        forall|j: int| pos <= j < s.len() ==> is_ident_char(s[j]),
    ensures
        spec_scan_ident_end(s, pos) == s.len(),
    decreases s.len() - pos,
{
    if pos < s.len() {
        lemma_scan_ident_end_all(s, pos + 1);
    }
}

pub proof fn lemma_scan_digit_end_all(s: Seq<char>, pos: int)
    requires
        0 <= pos <= s.len(),
        forall|j: int| pos <= j < s.len() ==> is_digit_char(s[j]),
    ensures
        spec_scan_digit_end(s, pos) == s.len(),
    decreases s.len() - pos,
{
    if pos < s.len() {
        lemma_scan_digit_end_all(s, pos + 1);
    }
}

/// The tokenizer's round trip over the terminal set: a string that is
/// exactly one terminal of the grammar scans to exactly one lexeme carrying
/// the full original text and the matching category, on line one, followed
/// by the terminal lexeme.
pub proof fn lemma_tokenizer_round_trip(s: Seq<char>)
    requires
        is_terminal_text(s),
    ensures
        spec_tokenize(s) == seq![
            LexView { ttype: terminal_category(s), text: s, line: 1u16 },
            LexView { ttype: Token::EndOfFile, text: Seq::<char>::empty(), line: 1u16 },
        ],
{
    let c = s[0];
    assert(!is_space_char(c) && c != '\n' && c != '#');
    assert(spec_skip_blank(s, 0, 1) == (0int, 1u16));
    let st = spec_next_lexeme(s, 0, 1);
    if s.len() == 2 && (c == '=' || c == '<' || c == '>' || c == '!') && s[1] == '=' {
        assert(st.text =~= s);
        if c == '!' {
            reveal_strlit(";");
            reveal_strlit("=");
            reveal_strlit("==");
            reveal_strlit("!=");
            assert(s =~= "!="@);
            assert(token_of_text(s) == Token::NotEqual);
        }
        assert(st.ttype == terminal_category(s));
        assert(st.next_pos == s.len());
    } else if s.len() == 1 && (is_symbol_char(c) || c == '=' || c == '<' || c == '>') {
        assert(st.text =~= s);
        assert(st.ttype == terminal_category(s));
        assert(st.next_pos == s.len());
    } else if is_ident_text(s) {
        lemma_scan_ident_end_all(s, 1);
        assert(st.text =~= s);
        assert(st.ttype == terminal_category(s));
        assert(st.next_pos == s.len());
    } else {
        assert(is_number_text(s));
        lemma_scan_digit_end_all(s, 1);
        assert(st.text =~= s);
        assert(st.ttype == Token::Number);
        assert(st.next_pos == s.len());
    }
    assert(st.line == 1u16 && st.next_line == 1u16);
    assert(st.ttype != Token::EndOfFile);
    let st2 = spec_next_lexeme(s, s.len() as int, 1);
    assert(spec_skip_blank(s, s.len() as int, 1) == (s.len() as int, 1u16));
    assert(st2.ttype == Token::EndOfFile && st2.text =~= Seq::<char>::empty());
    assert(spec_tokenize_from(s, s.len() as int, 1) =~= seq![st2.lex()]);
    assert(spec_tokenize(s) =~= seq![st.lex()] + spec_tokenize_from(s, s.len() as int, 1));
    assert(spec_tokenize(s) =~= seq![
        LexView { ttype: terminal_category(s), text: s, line: 1u16 },
        LexView { ttype: Token::EndOfFile, text: Seq::<char>::empty(), line: 1u16 },
    ]);
}

// ---------------------------------------------------------------------------
// The executable scanner
// ---------------------------------------------------------------------------

/// Position and line after the blanks, newlines and comments at `pos`.
pub fn skip_blank(src: &Vec<char>, pos: usize, line: u16) -> (r: (usize, u16))
    requires
        pos <= src@.len(),
    ensures
        r.0 <= src@.len(),
        (r.0 as int, r.1) == spec_skip_blank(src@, pos as int, line),
    decreases src@.len() - pos, 1int,
{
    if pos >= src.len() {
        (pos, line)
    } else {
        let c = src[pos];
        if c == ' ' || c == '\t' || c == '\r' {
            skip_blank(src, pos + 1, line)
        } else if c == '\n' {
            let l2 = if line < 65535 {
                line + 1
            } else {
                line
            };
            skip_blank(src, pos + 1, l2)
        } else if c == '#' {
            skip_comment(src, pos + 1, line)
        } else {
            (pos, line)
        }
    }
}

/// Position and line after the rest of a comment line.
pub fn skip_comment(src: &Vec<char>, pos: usize, line: u16) -> (r: (usize, u16))
    requires
        pos <= src@.len(),
    ensures
        r.0 <= src@.len(),
        (r.0 as int, r.1) == spec_skip_comment(src@, pos as int, line),
    decreases src@.len() - pos, 0int,
{
    if pos >= src.len() {
        (pos, line)
    } else {
        let c = src[pos];
        if c == '\n' {
            let l2 = if line < 65535 {
                line + 1
            } else {
                line
            };
            skip_blank(src, pos + 1, l2)
        } else {
            skip_comment(src, pos + 1, line)
        }
    }
}

/// First position at or after `pos` that no longer continues an identifier.
pub fn scan_ident_end(src: &Vec<char>, pos: usize) -> (r: usize)
    requires
        pos <= src@.len(),
    ensures
        pos <= r <= src@.len(),
        r as int == spec_scan_ident_end(src@, pos as int),
{
    let mut i: usize = pos;
    loop
        invariant_except_break
            pos <= i <= src@.len(),
            spec_scan_ident_end(src@, pos as int) == spec_scan_ident_end(src@, i as int),
        ensures
            pos <= i <= src@.len() && i as int == spec_scan_ident_end(src@, pos as int),
        decreases src@.len() - i,
    {
        if i >= src.len() {
            break ;
        }
        if !is_ident(src[i]) {
            break ;
        }
        i += 1;
    }
    i
}

/// First position at or after `pos` whose character is not a digit.
pub fn scan_digit_end(src: &Vec<char>, pos: usize) -> (r: usize)
    requires
        pos <= src@.len(),
    ensures
        pos <= r <= src@.len(),
        r as int == spec_scan_digit_end(src@, pos as int),
{
    let mut i: usize = pos;
    loop
        invariant_except_break
            pos <= i <= src@.len(),
            spec_scan_digit_end(src@, pos as int) == spec_scan_digit_end(src@, i as int),
        ensures
            pos <= i <= src@.len() && i as int == spec_scan_digit_end(src@, pos as int),
        decreases src@.len() - i,
    {
        if i >= src.len() {
            break ;
        }
        if !is_digit(src[i]) {
            break ;
        }
        i += 1;
    }
    i
}

/// Scans the next lexeme of `src` at `pos`, and returns it together with the
/// position and line where scanning resumes.
pub fn next_token(src: &Vec<char>, pos: usize, line: u16) -> (r: (Lexeme, usize, u16))
    requires
        pos <= src@.len(),
    ensures
        ({
            let st = spec_next_lexeme(src@, pos as int, line);
            r.0@ == st.lex() && r.1 as int == st.next_pos && r.2 == st.next_line && r.1
                <= src@.len()
        }),
{
    let (p, l) = skip_blank(src, pos, line);
    if p >= src.len() {
        return (Lexeme { ttype: Token::EndOfFile, token: String::new(), line_number: l }, p, l);
    }
    let c = src[p];
    if c == '=' || c == '<' || c == '>' {
        if p + 1 < src.len() && src[p + 1] == '=' {
            let mut text: Vec<char> = Vec::new();
            text.push(c);
            text.push('=');
            let ttype = Token::from_chars(&text);
            proof {
                assert(text@ =~= seq![c, '=']);
            }
            let t = crate::lexical::string_of_chars(&text);
            (Lexeme { ttype, token: t, line_number: l }, p + 2, l)
        } else {
            let mut text: Vec<char> = Vec::new();
            text.push(c);
            let ttype = Token::from_chars(&text);
            proof {
                assert(text@ =~= seq![c]);
            }
            let t = crate::lexical::string_of_chars(&text);
            (Lexeme { ttype, token: t, line_number: l }, p + 1, l)
        }
    } else if c == '!' {
        if p + 1 >= src.len() {
            (Lexeme { ttype: Token::UnexpectedEof, token: String::new(), line_number: l }, p + 1, l)
        } else if src[p + 1] == '=' {
            let mut text: Vec<char> = Vec::new();
            text.push('!');
            text.push('=');
            proof {
                assert(text@ =~= seq!['!', '=']);
            }
            let t = crate::lexical::string_of_chars(&text);
            (Lexeme { ttype: Token::NotEqual, token: t, line_number: l }, p + 2, l)
        } else {
            let mut text: Vec<char> = Vec::new();
            text.push('!');
            proof {
                assert(text@ =~= seq!['!']);
            }
            let t = crate::lexical::string_of_chars(&text);
            (Lexeme { ttype: Token::InvalidToken, token: t, line_number: l }, p + 2, l)
        }
    } else if c == ';' || c == '+' || c == '-' || c == '*' || c == '/' || c == '%' || c == '^' {
        let mut text: Vec<char> = Vec::new();
        text.push(c);
        let ttype = Token::from_chars(&text);
        proof {
            assert(text@ =~= seq![c]);
        }
        let t = crate::lexical::string_of_chars(&text);
        (Lexeme { ttype, token: t, line_number: l }, p + 1, l)
    } else if c == '_' || is_letter(c) {
        let e = scan_ident_end(src, p + 1);
        let text = crate::lexical::copy_range(src, p, e);
        let ttype = Token::from_chars(&text);
        let t = crate::lexical::string_of_chars(&text);
        (Lexeme { ttype, token: t, line_number: l }, e, l)
    } else if is_digit(c) {
        let e = scan_digit_end(src, p + 1);
        let text = crate::lexical::copy_range(src, p, e);
        let t = crate::lexical::string_of_chars(&text);
        (Lexeme { ttype: Token::Number, token: t, line_number: l }, e, l)
    } else {
        let mut text: Vec<char> = Vec::new();
        text.push(c);
        proof {
            assert(text@ =~= seq![c]);
        }
        let t = crate::lexical::string_of_chars(&text);
        (Lexeme { ttype: Token::InvalidToken, token: t, line_number: l }, p + 1, l)
    }
}

/// Scans the whole character stream into its lexemes.  Fault lexemes are kept
/// in the stream; the terminal lexeme closes it.
pub fn lexical_analysis(src: &Vec<char>) -> (lexes: Vec<Lexeme>)
    ensures
        lex_views(lexes@) == spec_tokenize(src@),
        wf_lexes(lexes@),
{
    let mut lexes: Vec<Lexeme> = Vec::new();
    let mut pos: usize = 0;
    let mut line: u16 = 1;
    loop
        invariant_except_break
            pos <= src@.len(),
            lex_views(lexes@) + spec_tokenize_from(src@, pos as int, line) == spec_tokenize(src@),
            forall|i: int| 0 <= i < lexes@.len() ==> lexes@[i].ttype != Token::EndOfFile,
        ensures
            lex_views(lexes@) == spec_tokenize(src@),
            wf_lexes(lexes@),
        decreases src@.len() - pos,
    {
        proof {
            lemma_next_lexeme_in_range(src@, pos as int, line);
        }
        let ghost prev = lexes@;
        let (lex, p2, l2) = next_token(src, pos, line);
        let is_eof = lex.ttype == Token::EndOfFile;
        lexes.push(lex);
        proof {
            assert(lex_views(lexes@) =~= lex_views(prev) + seq![lexes@[lexes@.len() - 1]@]);
        }
        if is_eof {
            proof {
                assert(lex_views(lexes@) =~= spec_tokenize(src@));
            }
            break ;
        }
        proof {
            assert(lex_views(lexes@) + spec_tokenize_from(src@, p2 as int, l2) =~= spec_tokenize(
                src@,
            ));
        }
        pos = p2;
        line = l2;
    }
    lexes
}

} // verus!
