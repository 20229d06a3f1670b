use vstd::prelude::*;

use vstd::hash_map::StringHashMap;
use crate::interpreter::expressions::Expression;
use crate::interpreter::expressions::ExpressionV;
use crate::interpreter::expressions::spec_eval_expr;
use crate::interpreter::memory;
use crate::interpreter::memory::Fault;
use crate::interpreter::memory::MachV;
use crate::interpreter::memory::RunIo;
use crate::interpreter::memory::StepRes;
use crate::interpreter::memory::mach;

verus! {

// ---------------------------------------------------------------------------
// Statements of the language
// ---------------------------------------------------------------------------

/// A statement: a block of statements, an assignment, a conditional, a loop,
/// or an output of one integer.
#[derive(Debug)]
pub enum Command {
    Block(Vec<Command>),
    Assignment(AssignCmd),
    If(IfCmd),
    While(WhileCmd),
    Output(Expression),
}

#[derive(Debug)]
pub struct AssignCmd {
    pub expr: Expression,
    pub var: String,
}

#[derive(Debug)]
pub struct IfCmd {
    pub condition: Expression,
    pub then_cmds: Vec<Command>,
    pub else_cmds: Vec<Command>,
}

#[derive(Debug)]
pub struct WhileCmd {
    pub cond: Expression,
    pub cmds: Vec<Command>,
}

/// The mathematical content of a statement.
pub enum CommandV {
    Block(Seq<CommandV>),
    Assignment(AssignCmdV),
    If(IfCmdV),
    While(WhileCmdV),
    Output(ExpressionV),
}

pub struct AssignCmdV {
    pub expr: ExpressionV,
    pub var: Seq<char>,
}

pub struct IfCmdV {
    pub condition: ExpressionV,
    pub then_cmds: Seq<CommandV>,
    pub else_cmds: Seq<CommandV>,
}

pub struct WhileCmdV {
    pub cond: ExpressionV,
    pub cmds: Seq<CommandV>,
}

/// The contents of a statement list.
pub open spec fn view_cmds(v: Seq<Command>) -> Seq<CommandV>
    decreases v,
{
    if v.len() == 0 {
        Seq::empty()
    } else {
        seq![view_cmd(v[0])] + view_cmds(v.drop_first())
    }
}

/// The content of one statement.
pub open spec fn view_cmd(c: Command) -> CommandV
    decreases c,
{
    match c {
        Command::Block(b) => CommandV::Block(view_cmds(b@)),
        Command::Assignment(a) => CommandV::Assignment(AssignCmdV { expr: a.expr@, var: a.var@ }),
        Command::If(i) => CommandV::If(
            IfCmdV {
                condition: i.condition@,
                then_cmds: view_cmds(i.then_cmds@),
                else_cmds: view_cmds(i.else_cmds@),
            },
        ),
        Command::While(w) => CommandV::While(
            WhileCmdV { cond: w.cond@, cmds: view_cmds(w.cmds@) },
        ),
        Command::Output(e) => CommandV::Output(e@),
    }
}

pub proof fn lemma_view_cmds(v: Seq<Command>)
    ensures
        view_cmds(v).len() == v.len(),
        forall|i: int| 0 <= i < v.len() ==> #[trigger] view_cmds(v)[i] == view_cmd(v[i]),
    decreases v.len(),
{
    if v.len() > 0 {
        lemma_view_cmds(v.drop_first());
    }
}

// ---------------------------------------------------------------------------
// Execution
// ---------------------------------------------------------------------------

/// What running a statement list does to the state: each statement runs in
/// order; the first fault stops the run with the state it stopped in.
pub open spec fn spec_exec_cmds(cmds: Seq<CommandV>, m: MachV, fuel: u64) -> StepRes<()>
    decreases fuel, cmds, 0int,
{
    if cmds.len() == 0 {
        StepRes::Val((), m)
    } else {
        match spec_exec_cmd(cmds[0], m, fuel) {
            StepRes::Stop(f, m1) => StepRes::Stop(f, m1),
            StepRes::Val(u, m1) => spec_exec_cmds(cmds.drop_first(), m1, fuel),
        }
    }
}

/// What running one statement does to the state.  An assignment writes the
/// value of its expression under its name; a conditional runs its then-branch
/// on a nonzero condition and its else-branch on zero; a loop re-evaluates
/// its condition before every pass and runs its body while the condition is
/// nonzero, spending one unit of the step bound per pass; an output appends
/// the value of its expression to the output.
pub open spec fn spec_exec_cmd(c: CommandV, m: MachV, fuel: u64) -> StepRes<()>
    decreases fuel, c, 1int,
{
    match c {
        CommandV::Block(b) => spec_exec_cmds(b, m, fuel),
        CommandV::Assignment(a) => match spec_eval_expr(a.expr, m) {
            StepRes::Stop(f, m1) => StepRes::Stop(f, m1),
            StepRes::Val(v, m1) => StepRes::Val(
                (),
                MachV { vars: m1.vars.insert(a.var, v), ..m1 },
            ),
        },
        CommandV::If(i) => match spec_eval_expr(i.condition, m) {
            StepRes::Stop(f, m1) => StepRes::Stop(f, m1),
            StepRes::Val(v, m1) => if v != 0 {
                spec_exec_cmds(i.then_cmds, m1, fuel)
            } else {
                spec_exec_cmds(i.else_cmds, m1, fuel)
            },
        },
        CommandV::While(w) => match spec_eval_expr(w.cond, m) {
            StepRes::Stop(f, m1) => StepRes::Stop(f, m1),
            StepRes::Val(v, m1) => if v == 0 {
                StepRes::Val((), m1)
            } else if fuel == 0 {
                StepRes::Stop(Fault::OutOfSteps, m1)
            } else {
                match spec_exec_cmds(w.cmds, m1, (fuel - 1) as u64) {
                    StepRes::Stop(f, m2) => StepRes::Stop(f, m2),
                    StepRes::Val(u, m2) => spec_exec_cmd(c, m2, (fuel - 1) as u64),
                }
            },
        },
        CommandV::Output(e) => match spec_eval_expr(e, m) {
            StepRes::Stop(f, m1) => StepRes::Stop(f, m1),
            StepRes::Val(v, m1) => StepRes::Val((), MachV { output: m1.output.push(v), ..m1 }),
        },
    }
}

/// Runs a statement list in order against the variable store and the
/// streams.  `fuel` bounds how many loop passes the run may still spend; a
/// run that would exceed it stops with a fault.
#[verifier::loop_isolation(false)]
pub fn cmd_exec(list: &Vec<Command>, map: &mut StringHashMap<i32>, io: &mut RunIo, fuel: u64) -> (r:
    Result<(), Fault>)
    ensures
        ({
            let mfin = mach(final(map)@, *final(io));
            match spec_exec_cmds(view_cmds(list@), mach(old(map)@, *old(io)), fuel) {
                StepRes::Val(u, m2) => r == Ok::<(), Fault>(()) && mfin == m2,
                StepRes::Stop(f, m2) => r == Err::<(), Fault>(f) && mfin == m2,
            }
        }),
    decreases fuel, list@, 0int,
{
    let ghost m0 = mach(map@, *io);
    let n = list.len();
    proof {
        assert(list@.subrange(0, n as int) =~= list@);
    }
    let mut i: usize = 0;
    while i < n
        invariant
            i <= n,
            spec_exec_cmds(view_cmds(list@), m0, fuel) == spec_exec_cmds(
                view_cmds(list@.subrange(i as int, n as int)),
                mach(map@, *io),
                fuel,
            ),
        decreases n - i,
    {
        proof {
            let svi = list@.subrange(i as int, n as int);
            lemma_view_cmds(svi);
            assert(svi[0] == list@[i as int]);
        }
        match exec_cmd(&list[i], map, io, fuel) {
            Err(f) => {
                return Err(f);
            },
            Ok(u) => {},
        }
        proof {
            let svi = list@.subrange(i as int, n as int);
            let svi1 = list@.subrange(i + 1 as int, n as int);
            lemma_view_cmds(svi);
            lemma_view_cmds(svi1);
            assert(svi.drop_first() =~= svi1);
            assert(view_cmds(svi).drop_first() =~= view_cmds(svi1));
        }
        i += 1;
    }
    proof {
        assert(view_cmds(list@.subrange(n as int, n as int)).len() == 0) by {
            lemma_view_cmds(list@.subrange(n as int, n as int));
        }
    }
    Ok(())
}

/// Runs one statement.
#[verifier::loop_isolation(false)]
pub fn exec_cmd(c: &Command, map: &mut StringHashMap<i32>, io: &mut RunIo, fuel: u64) -> (r: Result<
    (),
    Fault,
>)
    ensures
        ({
            let mfin = mach(final(map)@, *final(io));
            match spec_exec_cmd(view_cmd(*c), mach(old(map)@, *old(io)), fuel) {
                StepRes::Val(u, m2) => r == Ok::<(), Fault>(()) && mfin == m2,
                StepRes::Stop(f, m2) => r == Err::<(), Fault>(f) && mfin == m2,
            }
        }),
    decreases fuel, *c, 1int,
{
    match c {
        Command::Block(b) => cmd_exec(b, map, io, fuel),
        Command::Assignment(a) => {
            match a.expr.exec(map, io) {
                Err(f) => Err(f),
                Ok(v) => {
                    memory::write(map, &a.var, v);
                    Ok(())
                },
            }
        },
        Command::If(i) => {
            match i.condition.exec(map, io) {
                Err(f) => Err(f),
                Ok(v) => {
                    if v != 0 {
                        cmd_exec(&i.then_cmds, map, io, fuel)
                    } else {
                        cmd_exec(&i.else_cmds, map, io, fuel)
                    }
                },
            }
        },
        Command::Output(e) => {
            match e.exec(map, io) {
                Err(f) => Err(f),
                Ok(v) => {
                    io.output.push(v);
                    Ok(())
                },
            }
        },
        Command::While(w) => {
            let ghost cv = view_cmd(*c);
            let ghost m0 = mach(map@, *io);
            let mut f = fuel;
            let mut done = false;
            while !done
                invariant
                    f <= fuel,
                    !done ==> spec_exec_cmd(cv, m0, fuel) == spec_exec_cmd(
                        cv,
                        mach(map@, *io),
                        f,
                    ),
                    done ==> (spec_exec_cmd(cv, m0, fuel) matches StepRes::Val(u, m2) && mach(
                        map@,
                        *io,
                    ) == m2),
                decreases f, (if done {
                    0int
                } else {
                    1int
                }),
            {
                match w.cond.exec(map, io) {
                    Err(fa) => {
                        return Err(fa);
                    },
                    Ok(v) => {
                        if v == 0 {
                            done = true;
                        } else {
                            if f == 0 {
                                return Err(Fault::OutOfSteps);
                            }
                            f = f - 1;
                            match cmd_exec(&w.cmds, map, io, f) {
                                Err(fa) => {
                                    return Err(fa);
                                },
                                Ok(u) => {},
                            }
                        }
                    },
                }
            }
            Ok(())
        },
    }
}

} // verus!
