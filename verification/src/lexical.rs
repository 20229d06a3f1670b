use vstd::prelude::*;

pub mod lexical_analizer;
pub mod tokens;

use crate::lexical::tokens::Token;

verus! {

use vstd::std_specs::iter::IteratorSpec;

broadcast use vstd::string::next_postcondition, vstd::string::axiom_spec_iter;

/// A classified fragment of source text: its text, its category, and the
/// source line it was scanned on.
#[derive(Debug)]
pub struct Lexeme {
    pub ttype: Token,
    pub token: String,
    pub line_number: u16,
}

/// The mathematical content of a lexeme.
pub struct LexView {
    pub ttype: Token,
    pub text: Seq<char>,
    pub line: u16,
}

impl View for Lexeme {
    type V = LexView;

    open spec fn view(&self) -> LexView {
        LexView { ttype: self.ttype, text: self.token@, line: self.line_number }
    }
}

impl Lexeme {
    /// A fresh lexeme with the same content.
    pub fn duplicate(&self) -> (r: Lexeme)
        ensures
            r@ == self@,
    {
        Lexeme { ttype: self.ttype, token: self.token.clone(), line_number: self.line_number }
    }
}

/// The characters of a string slice, in order.
pub fn chars_of(s: &str) -> (r: Vec<char>)
    ensures
        r@ == s@,
{
    let mut it = s.chars();
    let mut r: Vec<char> = Vec::new();
    loop
        invariant_except_break
            it.obeys_prophetic_iter_laws(),
            r@ + it.remaining() == s@,
        ensures
            r@ == s@,
        decreases s@.len() - r@.len(),
    {
        match it.next() {
            Some(c) => {
                r.push(c);
                proof {
                    assert(r@ + it.remaining() =~= s@);
                }
            },
            None => {
                proof {
                    assert(r@ =~= s@);
                }
                break ;
            },
        }
    }
    r
}

/// Whether two character vectors hold the same characters.
pub fn chars_eq(a: &Vec<char>, b: &Vec<char>) -> (r: bool)
    ensures
        r <==> a@ == b@,
{
    if a.len() != b.len() {
        return false;
    }
    let mut i: usize = 0;
    while i < a.len()
        invariant
            a@.len() == b@.len(),
            i <= a@.len(),
            forall|j: int| 0 <= j < i ==> a@[j] == b@[j],
        decreases a@.len() - i,
    {
        if a[i] != b[i] {
            return false;
        }
        i += 1;
    }
    proof {
        assert(a@ =~= b@);
    }
    true
}

/// Whether the characters in `a` spell exactly the word `w`.
pub fn word_eq(a: &Vec<char>, w: &str) -> (r: bool)
    ensures
        r <==> a@ == w@,
{
    let ws = chars_of(w);
    chars_eq(a, &ws)
}

/// Relies on String::push: appends one character at the end of the string.
#[verifier::external_body]
pub fn push_char(s: &mut String, c: char)
    ensures
        final(s)@ == old(s)@.push(c),
{
    s.push(c);
}

/// A string holding exactly the given characters.
pub fn string_of_chars(cs: &Vec<char>) -> (r: String)
    ensures
        r@ == cs@,
{
    let mut r = String::new();
    let mut i: usize = 0;
    while i < cs.len()
        invariant
            i <= cs@.len(),
            r@ == cs@.subrange(0, i as int),
        decreases cs@.len() - i,
    {
        push_char(&mut r, cs[i]);
        proof {
            assert(r@ =~= cs@.subrange(0, i + 1 as int));
        }
        i += 1;
    }
    proof {
        assert(cs@.subrange(0, cs@.len() as int) =~= cs@);
    }
    r
}

/// A copy of the characters of `src` from `lo` (included) to `hi` (excluded).
pub fn copy_range(src: &Vec<char>, lo: usize, hi: usize) -> (r: Vec<char>)
    requires
        lo <= hi <= src@.len(),
    ensures
        r@ == src@.subrange(lo as int, hi as int),
{
    let mut r: Vec<char> = Vec::new();
    let mut i: usize = lo;
    while i < hi
        invariant
            lo <= i <= hi <= src@.len(),
            r@ == src@.subrange(lo as int, i as int),
        decreases hi - i,
    {
        r.push(src[i]);
        proof {
            assert(r@ =~= src@.subrange(lo as int, i + 1 as int));
        }
        i += 1;
    }
    r
}

} // verus!
