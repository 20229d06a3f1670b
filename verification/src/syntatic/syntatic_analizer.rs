use vstd::prelude::*;

use vstd::hash_map::StringHashMap;
use crate::lexical::Lexeme;
use crate::lexical::chars_of;
use crate::lexical::lexical_analizer::wf_lexes;
use crate::lexical::tokens::Token;
use crate::interpreter::commands::AssignCmd;
use crate::interpreter::commands::AssignCmdV;
use crate::interpreter::commands::Command;
use crate::interpreter::commands::CommandV;
use crate::interpreter::commands::IfCmd;
use crate::interpreter::commands::IfCmdV;
use crate::interpreter::commands::WhileCmd;
use crate::interpreter::commands::WhileCmdV;
use crate::interpreter::commands::exec_cmd;
use crate::interpreter::commands::spec_exec_cmd;
use crate::interpreter::commands::view_cmd;
use crate::interpreter::commands::view_cmds;
use crate::interpreter::expressions::BinaryInt;
use crate::interpreter::expressions::BinaryIntV;
use crate::interpreter::expressions::BoolOp;
use crate::interpreter::expressions::Expr;
use crate::interpreter::expressions::ExprType;
use crate::interpreter::expressions::ExprV;
use crate::interpreter::expressions::Expression;
use crate::interpreter::expressions::ExpressionV;
use crate::interpreter::expressions::IntOp;
use crate::interpreter::expressions::SingleBool;
use crate::interpreter::expressions::SingleBoolV;
use crate::interpreter::memory;
use crate::interpreter::memory::Fault;
use crate::interpreter::memory::MachV;
use crate::interpreter::memory::RunIo;
use crate::interpreter::memory::StepRes;
use crate::interpreter::memory::is_digit_seq;
use crate::interpreter::memory::mach;
use crate::interpreter::memory::spec_dec_value;

verus! {

// ---------------------------------------------------------------------------
// The parser's state and errors
// ---------------------------------------------------------------------------

/// The parser's cursor over the lexeme stream: one lexeme of lookahead, never
/// moving backwards.
pub struct State {
    pub lexes: Vec<Lexeme>,
    pub current: usize,
    pub line_number: u16,
}

/// Why a parse stopped: a lexeme that no grammar rule expected, or a number
/// literal outside the 32-bit range.
#[derive(Debug)]
pub enum ParseError {
    Unexpected(Lexeme),
    BadNumber(Lexeme),
}

/// Why a whole run stopped: the parse failed, or the program faulted.
#[derive(Debug)]
pub enum RunError {
    Parse(ParseError),
    Runtime(Fault),
}

/// The outcome of one grammar rule: the parsed value and the position after
/// it, or the position of the offending lexeme, with a flag telling a bad
/// number from an unexpected lexeme.
pub enum PRes<T> {
    Good(T, int),
    Fail(int, bool),
}

/// Whether a returned error carries the lexeme at the failing position.
pub open spec fn err_matches(pe: ParseError, lexes: Seq<Lexeme>, at: int, bad: bool) -> bool {
    match pe {
        ParseError::Unexpected(le) => !bad && 0 <= at < lexes.len() && le@ == lexes[at]@,
        ParseError::BadNumber(le) => bad && 0 <= at < lexes.len() && le@ == lexes[at]@,
    }
}

/// The tokens that may start a statement.
pub open spec fn is_cmd_start(t: Token) -> bool {
    t == Token::Var || t == Token::Output || t == Token::If || t == Token::While
}

/// The arithmetic operator tokens.
pub open spec fn is_arith_op(t: Token) -> bool {
    t == Token::Add || t == Token::Sub || t == Token::Mul || t == Token::Div || t == Token::Mod
        || t == Token::Pow
}

/// The relational operator tokens.
pub open spec fn is_rel_op(t: Token) -> bool {
    t == Token::Equal || t == Token::NotEqual || t == Token::Lower || t == Token::Greater
        || t == Token::LowerEqual || t == Token::GreaterEqual
}

/// The arithmetic operator a token names.
pub open spec fn spec_int_op(t: Token) -> IntOp {
    match t {
        Token::Add => IntOp::Add,
        Token::Sub => IntOp::Sub,
        Token::Mul => IntOp::Mul,
        Token::Div => IntOp::Div,
        Token::Mod => IntOp::Mod,
        _ => IntOp::Pow,
    }
}

/// The relational operator a token names.
pub open spec fn spec_bool_op(t: Token) -> BoolOp {
    match t {
        Token::Equal => BoolOp::Equal,
        Token::NotEqual => BoolOp::NotEqual,
        Token::Lower => BoolOp::Lower,
        Token::Greater => BoolOp::Greater,
        Token::LowerEqual => BoolOp::LowerEqual,
        _ => BoolOp::GreaterEqual,
    }
}

// ---------------------------------------------------------------------------
// The grammar, as mathematical functions of the lexeme stream
// ---------------------------------------------------------------------------

/// Consuming one expected token.
pub open spec fn spec_eat(lexes: Seq<Lexeme>, pos: int, desired: Token) -> PRes<()> {
    if pos < 0 || pos >= lexes.len() {
        PRes::Fail(pos, false)
    } else if lexes[pos].ttype == desired {
        PRes::Good((), pos + 1)
    } else {
        PRes::Fail(pos, false)
    }
}

/// `var ::= identifier`
pub open spec fn spec_proc_var(lexes: Seq<Lexeme>, pos: int) -> PRes<ExprV> {
    if pos < 0 || pos >= lexes.len() {
        PRes::Fail(pos, false)
    } else if lexes[pos].ttype == Token::Var {
        PRes::Good(
            ExprV { expr: ExprType::Var, value: 0, name: lexes[pos].token@, negated: false },
            pos + 1,
        )
    } else {
        PRes::Fail(pos, false)
    }
}

/// `const ::= number`; the digits must spell a value within the 32-bit
/// range, else the number is rejected.
pub open spec fn spec_proc_const(lexes: Seq<Lexeme>, pos: int) -> PRes<ExprV> {
    if pos < 0 || pos >= lexes.len() {
        PRes::Fail(pos, false)
    } else if lexes[pos].ttype == Token::Number {
        let text = lexes[pos].token@;
        if is_digit_seq(text) && spec_dec_value(text) <= 0x7fff_ffff {
            PRes::Good(
                ExprV {
                    expr: ExprType::ConstInt,
                    value: spec_dec_value(text) as i32,
                    name: Seq::empty(),
                    negated: false,
                },
                pos + 1,
            )
        } else {
            PRes::Fail(pos, true)
        }
    } else {
        PRes::Fail(pos, false)
    }
}

/// `intterm ::= var | const | read`
pub open spec fn spec_proc_int_term(lexes: Seq<Lexeme>, pos: int) -> PRes<ExprV> {
    if pos < 0 || pos >= lexes.len() {
        PRes::Fail(pos, false)
    } else if lexes[pos].ttype == Token::Var {
        spec_proc_var(lexes, pos)
    } else if lexes[pos].ttype == Token::Number {
        spec_proc_const(lexes, pos)
    } else if lexes[pos].ttype == Token::Read {
        PRes::Good(
            ExprV { expr: ExprType::ReadInt, value: 0, name: Seq::empty(), negated: false },
            pos + 1,
        )
    } else {
        PRes::Fail(pos, false)
    }
}

/// `intexpr ::= [ + | - ] intterm [ op intterm ]`: at most one operator
/// application; a leading minus negates the first term.
pub open spec fn spec_proc_int_expr(lexes: Seq<Lexeme>, pos: int) -> PRes<ExpressionV> {
    if pos < 0 || pos >= lexes.len() {
        PRes::Fail(pos, false)
    } else {
        let t0 = lexes[pos].ttype;
        let neg = t0 == Token::Sub;
        let p1 = if t0 == Token::Add || t0 == Token::Sub {
            pos + 1
        } else {
            pos
        };
        match spec_proc_int_term(lexes, p1) {
            PRes::Fail(at, bad) => PRes::Fail(at, bad),
            PRes::Good(t, p2) => {
                let t1 = ExprV { negated: neg, ..t };
                if 0 <= p2 < lexes.len() && is_arith_op(lexes[p2].ttype) {
                    match spec_proc_int_term(lexes, p2 + 1) {
                        PRes::Fail(at, bad) => PRes::Fail(at, bad),
                        PRes::Good(t2, p3) => PRes::Good(
                            ExpressionV::Bi(
                                BinaryIntV { left: t1, op: spec_int_op(lexes[p2].ttype), right: t2 },
                            ),
                            p3,
                        ),
                    }
                } else {
                    PRes::Good(ExpressionV::Ex(t1), p2)
                }
            },
        }
    }
}

/// `boolexpr ::= false | true | not boolexpr | intterm relop intterm`.
/// `not` flips a boolean literal; over a comparison it has no effect, as the
/// grammar defines no negation of comparisons.
pub open spec fn spec_proc_bool_expr(lexes: Seq<Lexeme>, pos: int, neg: bool) -> PRes<ExpressionV>
    decreases lexes.len() - pos,
{
    if pos < 0 || pos >= lexes.len() {
        PRes::Fail(pos, false)
    } else if lexes[pos].ttype == Token::False {
        PRes::Good(
            ExpressionV::Ex(
                ExprV {
                    expr: ExprType::ConstBool,
                    value: if neg {
                        1
                    } else {
                        0
                    },
                    name: Seq::empty(),
                    negated: false,
                },
            ),
            pos + 1,
        )
    } else if lexes[pos].ttype == Token::True {
        PRes::Good(
            ExpressionV::Ex(
                ExprV {
                    expr: ExprType::ConstBool,
                    value: if neg {
                        0
                    } else {
                        1
                    },
                    name: Seq::empty(),
                    negated: false,
                },
            ),
            pos + 1,
        )
    } else if lexes[pos].ttype == Token::Not {
        spec_proc_bool_expr(lexes, pos + 1, !neg)
    } else {
        match spec_proc_int_term(lexes, pos) {
            PRes::Fail(at, bad) => PRes::Fail(at, bad),
            PRes::Good(t1, p2) => {
                if 0 <= p2 < lexes.len() && is_rel_op(lexes[p2].ttype) {
                    match spec_proc_int_term(lexes, p2 + 1) {
                        PRes::Fail(at, bad) => PRes::Fail(at, bad),
                        PRes::Good(t2, p3) => PRes::Good(
                            ExpressionV::Sb(
                                SingleBoolV {
                                    left: t1,
                                    op: spec_bool_op(lexes[p2].ttype),
                                    right: t2,
                                },
                            ),
                            p3,
                        ),
                    }
                } else {
                    PRes::Fail(p2, false)
                }
            },
        }
    }
}

/// `assign ::= var = intexpr`
pub open spec fn spec_proc_assign(lexes: Seq<Lexeme>, pos: int) -> PRes<CommandV> {
    match spec_proc_var(lexes, pos) {
        PRes::Fail(at, bad) => PRes::Fail(at, bad),
        PRes::Good(v, p1) => match spec_eat(lexes, p1, Token::Assign) {
            PRes::Fail(at, bad) => PRes::Fail(at, bad),
            PRes::Good(u, p2) => match spec_proc_int_expr(lexes, p2) {
                PRes::Fail(at, bad) => PRes::Fail(at, bad),
                PRes::Good(e, p3) => PRes::Good(
                    CommandV::Assignment(AssignCmdV { expr: e, var: v.name }),
                    p3,
                ),
            },
        },
    }
}

/// `output ::= output intexpr`
pub open spec fn spec_proc_output(lexes: Seq<Lexeme>, pos: int) -> PRes<CommandV> {
    match spec_eat(lexes, pos, Token::Output) {
        PRes::Fail(at, bad) => PRes::Fail(at, bad),
        PRes::Good(u, p1) => match spec_proc_int_expr(lexes, p1) {
            PRes::Fail(at, bad) => PRes::Fail(at, bad),
            PRes::Good(e, p2) => PRes::Good(CommandV::Output(e), p2),
        },
    }
}

/// `if ::= if boolexpr then cmdlist [ else cmdlist ] done`; an absent else
/// is an empty block.
pub open spec fn spec_proc_if(lexes: Seq<Lexeme>, pos: int) -> PRes<CommandV>
    decreases lexes.len() - pos, 1int,
{
    match spec_eat(lexes, pos, Token::If) {
        PRes::Fail(at, bad) => PRes::Fail(at, bad),
        PRes::Good(u0, p1) => match spec_proc_bool_expr(lexes, p1, false) {
            PRes::Fail(at, bad) => PRes::Fail(at, bad),
            PRes::Good(cond, p2) => match spec_eat(lexes, p2, Token::Then) {
                PRes::Fail(at, bad) => PRes::Fail(at, bad),
                PRes::Good(u1, p3) => if pos < p3 <= lexes.len() {
                    match spec_proc_cmd_list(lexes, p3) {
                        PRes::Fail(at, bad) => PRes::Fail(at, bad),
                        PRes::Good(thn, p4) => if 0 <= p4 < lexes.len() && lexes[p4].ttype
                            == Token::Else {
                            if pos < p4 + 1 {
                                match spec_proc_cmd_list(lexes, p4 + 1) {
                                    PRes::Fail(at, bad) => PRes::Fail(at, bad),
                                    PRes::Good(els, p5) => match spec_eat(lexes, p5, Token::Done) {
                                        PRes::Fail(at, bad) => PRes::Fail(at, bad),
                                        PRes::Good(u2, p6) => PRes::Good(
                                            CommandV::If(
                                                IfCmdV {
                                                    condition: cond,
                                                    then_cmds: thn,
                                                    else_cmds: els,
                                                },
                                            ),
                                            p6,
                                        ),
                                    },
                                }
                            } else {
                                PRes::Fail(p4, false)
                            }
                        } else {
                            match spec_eat(lexes, p4, Token::Done) {
                                PRes::Fail(at, bad) => PRes::Fail(at, bad),
                                PRes::Good(u2, p5) => PRes::Good(
                                    CommandV::If(
                                        IfCmdV {
                                            condition: cond,
                                            then_cmds: thn,
                                            else_cmds: Seq::empty(),
                                        },
                                    ),
                                    p5,
                                ),
                            }
                        },
                    }
                } else {
                    PRes::Fail(p3, false)
                },
            },
        },
    }
}

/// `while ::= while boolexpr do cmdlist done`
pub open spec fn spec_proc_while(lexes: Seq<Lexeme>, pos: int) -> PRes<CommandV>
    decreases lexes.len() - pos, 1int,
{
    match spec_eat(lexes, pos, Token::While) {
        PRes::Fail(at, bad) => PRes::Fail(at, bad),
        PRes::Good(u0, p1) => match spec_proc_bool_expr(lexes, p1, false) {
            PRes::Fail(at, bad) => PRes::Fail(at, bad),
            PRes::Good(cond, p2) => match spec_eat(lexes, p2, Token::Do) {
                PRes::Fail(at, bad) => PRes::Fail(at, bad),
                PRes::Good(u1, p3) => if pos < p3 <= lexes.len() {
                    match spec_proc_cmd_list(lexes, p3) {
                        PRes::Fail(at, bad) => PRes::Fail(at, bad),
                        PRes::Good(body, p4) => match spec_eat(lexes, p4, Token::Done) {
                            PRes::Fail(at, bad) => PRes::Fail(at, bad),
                            PRes::Good(u2, p5) => PRes::Good(
                                CommandV::While(WhileCmdV { cond, cmds: body }),
                                p5,
                            ),
                        },
                    }
                } else {
                    PRes::Fail(p3, false)
                },
            },
        },
    }
}

/// `cmd ::= (assign | output | if | while) ;`
pub open spec fn spec_proc_cmd(lexes: Seq<Lexeme>, pos: int) -> PRes<CommandV>
    decreases lexes.len() - pos, 2int,
{
    if pos < 0 || pos >= lexes.len() {
        PRes::Fail(pos, false)
    } else {
        let t = lexes[pos].ttype;
        let inner = if t == Token::Var {
            spec_proc_assign(lexes, pos)
        } else if t == Token::Output {
            spec_proc_output(lexes, pos)
        } else if t == Token::If {
            spec_proc_if(lexes, pos)
        } else if t == Token::While {
            spec_proc_while(lexes, pos)
        } else {
            PRes::Fail(pos, false)
        };
        match inner {
            PRes::Fail(at, bad) => PRes::Fail(at, bad),
            PRes::Good(cmd, p2) => match spec_eat(lexes, p2, Token::Semicolon) {
                PRes::Fail(at, bad) => PRes::Fail(at, bad),
                PRes::Good(u, p3) => PRes::Good(cmd, p3),
            },
        }
    }
}

/// `cmdlist ::= cmd { cmd }`: statements follow each other as long as the
/// lookahead can start one.
pub open spec fn spec_proc_cmd_list(lexes: Seq<Lexeme>, pos: int) -> PRes<Seq<CommandV>>
    decreases lexes.len() - pos, 3int,
{
    match spec_proc_cmd(lexes, pos) {
        PRes::Fail(at, bad) => PRes::Fail(at, bad),
        PRes::Good(c, p2) => if 0 <= p2 < lexes.len() && is_cmd_start(lexes[p2].ttype) {
            if pos < p2 {
                match spec_proc_cmd_list(lexes, p2) {
                    PRes::Fail(at, bad) => PRes::Fail(at, bad),
                    PRes::Good(rest, p3) => PRes::Good(seq![c] + rest, p3),
                }
            } else {
                PRes::Good(seq![c], p2)
            }
        } else {
            PRes::Good(seq![c], p2)
        },
    }
}

/// `program ::= program cmdlist`
pub open spec fn spec_proc_program(lexes: Seq<Lexeme>, pos: int) -> PRes<CommandV> {
    match spec_eat(lexes, pos, Token::Program) {
        PRes::Fail(at, bad) => PRes::Fail(at, bad),
        PRes::Good(u, p1) => if pos < p1 <= lexes.len() {
            match spec_proc_cmd_list(lexes, p1) {
                PRes::Fail(at, bad) => PRes::Fail(at, bad),
                PRes::Good(cmds, p2) => PRes::Good(CommandV::Block(cmds), p2),
            }
        } else {
            PRes::Fail(p1, false)
        },
    }
}

/// The whole parse: the program rule, then the terminal lexeme.
pub open spec fn spec_parse(lexes: Seq<Lexeme>) -> PRes<CommandV> {
    match spec_proc_program(lexes, 0) {
        PRes::Fail(at, bad) => PRes::Fail(at, bad),
        PRes::Good(c, p) => match spec_eat(lexes, p, Token::EndOfFile) {
            PRes::Fail(at, bad) => PRes::Fail(at, bad),
            PRes::Good(u, p2) => PRes::Good(c, p2),
        },
    }
}

// ---------------------------------------------------------------------------
// The executable parser
// ---------------------------------------------------------------------------

/// The stream and the vestigial line counter are never changed by a rule.
pub open spec fn keeps(st_old: State, st_new: State) -> bool {
    st_new.lexes@ == st_old.lexes@ && st_new.line_number == st_old.line_number
}

/// Moves the cursor past the current lexeme.
fn advance(state: &mut State)
    requires
        old(state).current < old(state).lexes@.len(),
    ensures
        final(state).lexes@ == old(state).lexes@,
        final(state).line_number == old(state).line_number,
        final(state).current == old(state).current + 1,
{
    let n = state.lexes.len();
    state.current += 1;
}

/// Consumes the expected token, or reports the lookahead as unexpected.
pub fn eat(state: &mut State, desired: Token) -> (r: Result<(), ParseError>)
    requires
        old(state).current < old(state).lexes@.len(),
    ensures
        keeps(*old(state), *final(state)),
        ({
            let sp = spec_eat(old(state).lexes@, old(state).current as int, desired);
            match r {
                Ok(u) => sp == PRes::<()>::Good((), final(state).current as int) && final(state).current == old(state).current + 1,
                Err(pe) => (sp matches PRes::Fail(at, bad) && err_matches(
                    pe,
                    old(state).lexes@,
                    at,
                    bad,
                )) && final(state).current == old(state).current,
            }
        }),
{
    if state.lexes[state.current].ttype == desired {
        advance(state);
        Ok(())
    } else {
        Err(ParseError::Unexpected(state.lexes[state.current].duplicate()))
    }
}

/// `var ::= identifier`
pub fn proc_var(state: &mut State) -> (r: Result<Expr, ParseError>)
    requires
        wf_lexes(old(state).lexes@),
        old(state).current < old(state).lexes@.len(),
    ensures
        keeps(*old(state), *final(state)),
        ({
            let sp = spec_proc_var(old(state).lexes@, old(state).current as int);
            match r {
                Ok(e) => sp == PRes::<ExprV>::Good(e@, final(state).current as int) && old(state).current < final(state).current < old(state).lexes@.len(),
                Err(pe) => (sp matches PRes::Fail(at, bad) && err_matches(
                    pe,
                    old(state).lexes@,
                    at,
                    bad,
                )),
            }
        }),
{
    if state.lexes[state.current].ttype == Token::Var {
        let name = state.lexes[state.current].token.clone();
        advance(state);
        Ok(Expr { expr: ExprType::Var, value: 0, name, negated: false })
    } else {
        Err(ParseError::Unexpected(state.lexes[state.current].duplicate()))
    }
}

/// `const ::= number`; a literal outside the 32-bit range is rejected.
pub fn proc_const(state: &mut State) -> (r: Result<Expr, ParseError>)
    requires
        wf_lexes(old(state).lexes@),
        old(state).current < old(state).lexes@.len(),
    ensures
        keeps(*old(state), *final(state)),
        ({
            let sp = spec_proc_const(old(state).lexes@, old(state).current as int);
            match r {
                Ok(e) => sp == PRes::<ExprV>::Good(e@, final(state).current as int) && old(state).current < final(state).current < old(state).lexes@.len(),
                Err(pe) => (sp matches PRes::Fail(at, bad) && err_matches(
                    pe,
                    old(state).lexes@,
                    at,
                    bad,
                )),
            }
        }),
{
    if state.lexes[state.current].ttype != Token::Number {
        return Err(ParseError::Unexpected(state.lexes[state.current].duplicate()));
    }
    let cs = chars_of(state.lexes[state.current].token.as_str());
    proof {
        assert(cs@.subrange(0, cs@.len() as int) =~= cs@);
    }
    match memory::parse_magnitude(&cs, 0, cs.len(), 0x7fff_ffff) {
        Some(v) => {
            advance(state);
            Ok(Expr { expr: ExprType::ConstInt, value: v as i32, name: String::new(), negated: false })
        },
        None => Err(ParseError::BadNumber(state.lexes[state.current].duplicate())),
    }
}

/// `intterm ::= var | const | read`
pub fn proc_int_term(state: &mut State) -> (r: Result<Expr, ParseError>)
    requires
        wf_lexes(old(state).lexes@),
        old(state).current < old(state).lexes@.len(),
    ensures
        keeps(*old(state), *final(state)),
        ({
            let sp = spec_proc_int_term(old(state).lexes@, old(state).current as int);
            match r {
                Ok(e) => sp == PRes::<ExprV>::Good(e@, final(state).current as int) && old(state).current < final(state).current < old(state).lexes@.len(),
                Err(pe) => (sp matches PRes::Fail(at, bad) && err_matches(
                    pe,
                    old(state).lexes@,
                    at,
                    bad,
                )),
            }
        }),
{
    let t = state.lexes[state.current].ttype;
    if t == Token::Var {
        proc_var(state)
    } else if t == Token::Number {
        proc_const(state)
    } else if t == Token::Read {
        advance(state);
        Ok(Expr { expr: ExprType::ReadInt, value: 0, name: String::new(), negated: false })
    } else {
        Err(ParseError::Unexpected(state.lexes[state.current].duplicate()))
    }
}

/// The arithmetic operator a token names.
pub fn int_op_of(t: Token) -> (r: IntOp)
    ensures
        r == spec_int_op(t),
{
    match t {
        Token::Add => IntOp::Add,
        Token::Sub => IntOp::Sub,
        Token::Mul => IntOp::Mul,
        Token::Div => IntOp::Div,
        Token::Mod => IntOp::Mod,
        _ => IntOp::Pow,
    }
}

/// The relational operator a token names.
pub fn bool_op_of(t: Token) -> (r: BoolOp)
    ensures
        r == spec_bool_op(t),
{
    match t {
        Token::Equal => BoolOp::Equal,
        Token::NotEqual => BoolOp::NotEqual,
        Token::Lower => BoolOp::Lower,
        Token::Greater => BoolOp::Greater,
        Token::LowerEqual => BoolOp::LowerEqual,
        _ => BoolOp::GreaterEqual,
    }
}

/// `intexpr ::= [ + | - ] intterm [ op intterm ]`
pub fn proc_int_expr(state: &mut State) -> (r: Result<Expression, ParseError>)
    requires
        wf_lexes(old(state).lexes@),
        old(state).current < old(state).lexes@.len(),
    ensures
        keeps(*old(state), *final(state)),
        ({
            let sp = spec_proc_int_expr(old(state).lexes@, old(state).current as int);
            match r {
                Ok(e) => sp == PRes::<ExpressionV>::Good(e@, final(state).current as int) && old(state).current < final(state).current < old(state).lexes@.len(),
                Err(pe) => (sp matches PRes::Fail(at, bad) && err_matches(
                    pe,
                    old(state).lexes@,
                    at,
                    bad,
                )),
            }
        }),
{
    let t0 = state.lexes[state.current].ttype;
    let neg = t0 == Token::Sub;
    if t0 == Token::Add || t0 == Token::Sub {
        advance(state);
    }
    let t1 = match proc_int_term(state) {
        Err(pe) => {
            return Err(pe);
        },
        Ok(t) => t,
    };
    let t1 = if neg {
        Expr { negated: true, ..t1 }
    } else {
        t1
    };
    let t2t = state.lexes[state.current].ttype;
    if t2t == Token::Add || t2t == Token::Sub || t2t == Token::Mul || t2t == Token::Div || t2t
        == Token::Mod || t2t == Token::Pow {
        let op = int_op_of(t2t);
        advance(state);
        let t2 = match proc_int_term(state) {
            Err(pe) => {
                return Err(pe);
            },
            Ok(t) => t,
        };
        Ok(Expression::Bi(BinaryInt { left: t1, op, right: t2 }))
    } else {
        Ok(Expression::Ex(t1))
    }
}

/// `boolexpr ::= false | true | not boolexpr | intterm relop intterm`
pub fn proc_bool_expr(state: &mut State, not: bool) -> (r: Result<Expression, ParseError>)
    requires
        wf_lexes(old(state).lexes@),
        old(state).current < old(state).lexes@.len(),
    ensures
        keeps(*old(state), *final(state)),
        ({
            let sp = spec_proc_bool_expr(old(state).lexes@, old(state).current as int, not);
            match r {
                Ok(e) => sp == PRes::<ExpressionV>::Good(e@, final(state).current as int) && old(state).current < final(state).current < old(state).lexes@.len(),
                Err(pe) => (sp matches PRes::Fail(at, bad) && err_matches(
                    pe,
                    old(state).lexes@,
                    at,
                    bad,
                )),
            }
        }),
    decreases state.lexes@.len() - state.current,
{
    let t = state.lexes[state.current].ttype;
    if t == Token::False {
        advance(state);
        let value: i32 = if not {
            1
        } else {
            0
        };
        Ok(Expression::Ex(Expr { expr: ExprType::ConstBool, value, name: String::new(), negated: false }))
    } else if t == Token::True {
        advance(state);
        let value: i32 = if not {
            0
        } else {
            1
        };
        Ok(Expression::Ex(Expr { expr: ExprType::ConstBool, value, name: String::new(), negated: false }))
    } else if t == Token::Not {
        advance(state);
        proc_bool_expr(state, !not)
    } else {
        let t1 = match proc_int_term(state) {
            Err(pe) => {
                return Err(pe);
            },
            Ok(tm) => tm,
        };
        let t2t = state.lexes[state.current].ttype;
        if t2t == Token::Equal || t2t == Token::NotEqual || t2t == Token::Lower || t2t
            == Token::Greater || t2t == Token::LowerEqual || t2t == Token::GreaterEqual {
            let op = bool_op_of(t2t);
            advance(state);
            let t2 = match proc_int_term(state) {
                Err(pe) => {
                    return Err(pe);
                },
                Ok(tm) => tm,
            };
            Ok(Expression::Sb(SingleBool { left: t1, op, right: t2 }))
        } else {
            Err(ParseError::Unexpected(state.lexes[state.current].duplicate()))
        }
    }
}

/// `assign ::= var = intexpr`
pub fn proc_assign(state: &mut State) -> (r: Result<Command, ParseError>)
    requires
        wf_lexes(old(state).lexes@),
        old(state).current < old(state).lexes@.len(),
    ensures
        keeps(*old(state), *final(state)),
        ({
            let sp = spec_proc_assign(old(state).lexes@, old(state).current as int);
            match r {
                Ok(c) => sp == PRes::<CommandV>::Good(view_cmd(c), final(state).current as int)
                    && old(state).current < final(state).current < old(state).lexes@.len(),
                Err(pe) => (sp matches PRes::Fail(at, bad) && err_matches(
                    pe,
                    old(state).lexes@,
                    at,
                    bad,
                )),
            }
        }),
{
    let v = match proc_var(state) {
        Err(pe) => {
            return Err(pe);
        },
        Ok(e) => e,
    };
    match eat(state, Token::Assign) {
        Err(pe) => {
            return Err(pe);
        },
        Ok(u) => {},
    }
    let e = match proc_int_expr(state) {
        Err(pe) => {
            return Err(pe);
        },
        Ok(e) => e,
    };
    Ok(Command::Assignment(AssignCmd { expr: e, var: v.name }))
}

/// `output ::= output intexpr`
pub fn proc_output(state: &mut State) -> (r: Result<Command, ParseError>)
    requires
        wf_lexes(old(state).lexes@),
        old(state).current < old(state).lexes@.len(),
    ensures
        keeps(*old(state), *final(state)),
        ({
            let sp = spec_proc_output(old(state).lexes@, old(state).current as int);
            match r {
                Ok(c) => sp == PRes::<CommandV>::Good(view_cmd(c), final(state).current as int)
                    && old(state).current < final(state).current < old(state).lexes@.len(),
                Err(pe) => (sp matches PRes::Fail(at, bad) && err_matches(
                    pe,
                    old(state).lexes@,
                    at,
                    bad,
                )),
            }
        }),
{
    match eat(state, Token::Output) {
        Err(pe) => {
            return Err(pe);
        },
        Ok(u) => {},
    }
    let e = match proc_int_expr(state) {
        Err(pe) => {
            return Err(pe);
        },
        Ok(e) => e,
    };
    Ok(Command::Output(e))
}

/// `if ::= if boolexpr then cmdlist [ else cmdlist ] done`
pub fn proc_if(state: &mut State) -> (r: Result<Command, ParseError>)
    requires
        wf_lexes(old(state).lexes@),
        old(state).current < old(state).lexes@.len(),
    ensures
        keeps(*old(state), *final(state)),
        ({
            let sp = spec_proc_if(old(state).lexes@, old(state).current as int);
            match r {
                Ok(c) => sp == PRes::<CommandV>::Good(view_cmd(c), final(state).current as int)
                    && old(state).current < final(state).current < old(state).lexes@.len(),
                Err(pe) => (sp matches PRes::Fail(at, bad) && err_matches(
                    pe,
                    old(state).lexes@,
                    at,
                    bad,
                )),
            }
        }),
    decreases state.lexes@.len() - state.current, 1int,
{
    match eat(state, Token::If) {
        Err(pe) => {
            return Err(pe);
        },
        Ok(u) => {},
    }
    let cond = match proc_bool_expr(state, false) {
        Err(pe) => {
            return Err(pe);
        },
        Ok(e) => e,
    };
    match eat(state, Token::Then) {
        Err(pe) => {
            return Err(pe);
        },
        Ok(u) => {},
    }
    let thn = match proc_cmd_list(state) {
        Err(pe) => {
            return Err(pe);
        },
        Ok(v) => v,
    };
    let els: Vec<Command> = if state.lexes[state.current].ttype == Token::Else {
        advance(state);
        match proc_cmd_list(state) {
            Err(pe) => {
                return Err(pe);
            },
            Ok(v) => v,
        }
    } else {
        Vec::new()
    };
    match eat(state, Token::Done) {
        Err(pe) => {
            return Err(pe);
        },
        Ok(u) => {},
    }
    proof {
        assert(view_cmds(Seq::<Command>::empty()).len() == 0);
    }
    Ok(Command::If(IfCmd { condition: cond, then_cmds: thn, else_cmds: els }))
}

/// `while ::= while boolexpr do cmdlist done`
pub fn proc_while(state: &mut State) -> (r: Result<Command, ParseError>)
    requires
        wf_lexes(old(state).lexes@),
        old(state).current < old(state).lexes@.len(),
    ensures
        keeps(*old(state), *final(state)),
        ({
            let sp = spec_proc_while(old(state).lexes@, old(state).current as int);
            match r {
                Ok(c) => sp == PRes::<CommandV>::Good(view_cmd(c), final(state).current as int)
                    && old(state).current < final(state).current < old(state).lexes@.len(),
                Err(pe) => (sp matches PRes::Fail(at, bad) && err_matches(
                    pe,
                    old(state).lexes@,
                    at,
                    bad,
                )),
            }
        }),
    decreases state.lexes@.len() - state.current, 1int,
{
    match eat(state, Token::While) {
        Err(pe) => {
            return Err(pe);
        },
        Ok(u) => {},
    }
    let cond = match proc_bool_expr(state, false) {
        Err(pe) => {
            return Err(pe);
        },
        Ok(e) => e,
    };
    match eat(state, Token::Do) {
        Err(pe) => {
            return Err(pe);
        },
        Ok(u) => {},
    }
    let body = match proc_cmd_list(state) {
        Err(pe) => {
            return Err(pe);
        },
        Ok(v) => v,
    };
    match eat(state, Token::Done) {
        Err(pe) => {
            return Err(pe);
        },
        Ok(u) => {},
    }
    Ok(Command::While(WhileCmd { cond, cmds: body }))
}

/// `cmd ::= (assign | output | if | while) ;`
pub fn proc_cmd(state: &mut State) -> (r: Result<Command, ParseError>)
    requires
        wf_lexes(old(state).lexes@),
        old(state).current < old(state).lexes@.len(),
    ensures
        keeps(*old(state), *final(state)),
        ({
            let sp = spec_proc_cmd(old(state).lexes@, old(state).current as int);
            match r {
                Ok(c) => sp == PRes::<CommandV>::Good(view_cmd(c), final(state).current as int)
                    && old(state).current < final(state).current < old(state).lexes@.len(),
                Err(pe) => (sp matches PRes::Fail(at, bad) && err_matches(
                    pe,
                    old(state).lexes@,
                    at,
                    bad,
                )),
            }
        }),
    decreases state.lexes@.len() - state.current, 2int,
{
    let t = state.lexes[state.current].ttype;
    let cmd = if t == Token::Var {
        match proc_assign(state) {
            Err(pe) => {
                return Err(pe);
            },
            Ok(c) => c,
        }
    } else if t == Token::Output {
        match proc_output(state) {
            Err(pe) => {
                return Err(pe);
            },
            Ok(c) => c,
        }
    } else if t == Token::If {
        match proc_if(state) {
            Err(pe) => {
                return Err(pe);
            },
            Ok(c) => c,
        }
    } else if t == Token::While {
        match proc_while(state) {
            Err(pe) => {
                return Err(pe);
            },
            Ok(c) => c,
        }
    } else {
        return Err(ParseError::Unexpected(state.lexes[state.current].duplicate()));
    };
    match eat(state, Token::Semicolon) {
        Err(pe) => {
            return Err(pe);
        },
        Ok(u) => {},
    }
    Ok(cmd)
}

/// `cmdlist ::= cmd { cmd }`
pub fn proc_cmd_list(state: &mut State) -> (r: Result<Vec<Command>, ParseError>)
    requires
        wf_lexes(old(state).lexes@),
        old(state).current < old(state).lexes@.len(),
    ensures
        keeps(*old(state), *final(state)),
        ({
            let sp = spec_proc_cmd_list(old(state).lexes@, old(state).current as int);
            match r {
                Ok(v) => sp == PRes::<Seq<CommandV>>::Good(
                    view_cmds(v@),
                    final(state).current as int,
                ) && old(state).current < final(state).current < old(state).lexes@.len(),
                Err(pe) => (sp matches PRes::Fail(at, bad) && err_matches(
                    pe,
                    old(state).lexes@,
                    at,
                    bad,
                )),
            }
        }),
    decreases state.lexes@.len() - state.current, 3int,
{
    let c = match proc_cmd(state) {
        Err(pe) => {
            return Err(pe);
        },
        Ok(c) => c,
    };
    let ghost c0 = c;
    let mut cmds: Vec<Command> = Vec::new();
    cmds.push(c);
    let t = state.lexes[state.current].ttype;
    if t == Token::Var || t == Token::Output || t == Token::If || t == Token::While {
        let mut rest = match proc_cmd_list(state) {
            Err(pe) => {
                return Err(pe);
            },
            Ok(v) => v,
        };
        let ghost rest0 = rest@;
        cmds.append(&mut rest);
        proof {
            crate::interpreter::commands::lemma_view_cmds(cmds@);
            crate::interpreter::commands::lemma_view_cmds(rest0);
            assert(view_cmds(cmds@) =~= seq![view_cmd(c0)] + view_cmds(rest0));
        }
        Ok(cmds)
    } else {
        proof {
            crate::interpreter::commands::lemma_view_cmds(cmds@);
            assert(view_cmds(cmds@) =~= seq![view_cmd(c0)]);
        }
        Ok(cmds)
    }
}

/// `program ::= program cmdlist`
pub fn proc_program(state: &mut State) -> (r: Result<Command, ParseError>)
    requires
        wf_lexes(old(state).lexes@),
        old(state).current < old(state).lexes@.len(),
    ensures
        keeps(*old(state), *final(state)),
        ({
            let sp = spec_proc_program(old(state).lexes@, old(state).current as int);
            match r {
                Ok(c) => sp == PRes::<CommandV>::Good(view_cmd(c), final(state).current as int)
                    && old(state).current < final(state).current < old(state).lexes@.len(),
                Err(pe) => (sp matches PRes::Fail(at, bad) && err_matches(
                    pe,
                    old(state).lexes@,
                    at,
                    bad,
                )),
            }
        }),
{
    match eat(state, Token::Program) {
        Err(pe) => {
            return Err(pe);
        },
        Ok(u) => {},
    }
    let cmds = match proc_cmd_list(state) {
        Err(pe) => {
            return Err(pe);
        },
        Ok(v) => v,
    };
    Ok(Command::Block(cmds))
}

/// Parses the lexeme stream and, when the parse succeeds, runs the program
/// against the given input lines with at most `fuel` loop passes.  The
/// outputs written up to the end of the run, or up to its fault, are
/// returned along with what stopped the run, if anything did.
pub fn start(lexes: Vec<Lexeme>, input: Vec<String>, fuel: u64) -> (r: (Vec<i32>, Option<
    RunError,
>))
    requires
        wf_lexes(lexes@),
    ensures
        ({
            let sp = spec_parse(lexes@);
            match sp {
                PRes::Fail(at, bad) => r.0@ == Seq::<i32>::empty() && (r.1 matches Some(re)
                    && re matches RunError::Parse(pe) && err_matches(pe, lexes@, at, bad)),
                PRes::Good(c, p) => {
                    let m0 = MachV {
                        vars: Map::empty(),
                        input: input@.map_values(|s: String| s@),
                        input_at: 0,
                        output: Seq::empty(),
                    };
                    match spec_exec_cmd(c, m0, fuel) {
                        StepRes::Val(u, m2) => r.0@ == m2.output && r.1 is None,
                        StepRes::Stop(f2, m2) => r.0@ == m2.output && (r.1 matches Some(re)
                            && re matches RunError::Runtime(ff) && ff == f2),
                    }
                },
            }
        }),
{
    let mut state = State { lexes, current: 0, line_number: 1 };
    let cmds = match proc_program(&mut state) {
        Err(pe) => {
            return (Vec::new(), Some(RunError::Parse(pe)));
        },
        Ok(c) => c,
    };
    match eat(&mut state, Token::EndOfFile) {
        Err(pe) => {
            return (Vec::new(), Some(RunError::Parse(pe)));
        },
        Ok(u) => {},
    }
    let mut map = StringHashMap::<i32>::new();
    let mut io = RunIo::new(input);
    match exec_cmd(&cmds, &mut map, &mut io, fuel) {
        Ok(u) => (io.output, None),
        Err(f) => (io.output, Some(RunError::Runtime(f))),
    }
}

} // verus!
