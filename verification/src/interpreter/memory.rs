use vstd::prelude::*;

use vstd::hash_map::StringHashMap;
use crate::lexical::lexical_analizer::is_digit_char;

verus! {

// ---------------------------------------------------------------------------
// The variable store
// ---------------------------------------------------------------------------

/// Writes `data` under `name`, overwriting any prior value.
pub fn write(map: &mut StringHashMap<i32>, name: &String, data: i32)
    ensures
        final(map)@ == old(map)@.insert(name@, data),
{
    map.insert(name.clone(), data);
}

/// The value bound to `name`, when one was assigned.
pub fn read(map: &StringHashMap<i32>, name: &String) -> (r: Option<i32>)
    ensures
        match r {
            Some(v) => map@.contains_key(name@) && v == map@[name@],
            None => !map@.contains_key(name@),
        },
{
    match map.get(name.as_str()) {
        Some(v) => Some(*v),
        None => None,
    }
}

// ---------------------------------------------------------------------------
// Faults that end a run
// ---------------------------------------------------------------------------

/// The runtime faults of the language, plus the exhaustion of the step bound
/// that the caller granted the run.
#[derive(Clone, Copy, PartialEq, Eq, Structural, Debug)]
pub enum Fault {
    UndefinedVar,
    BadInput,
    DivisionByZero,
    NegativeExponent,
    Overflow,
    OutOfSteps,
}

// ---------------------------------------------------------------------------
// The streams of a run
// ---------------------------------------------------------------------------

/// The input lines still to be read and the integers written so far.
pub struct RunIo {
    pub input: Vec<String>,
    pub input_at: usize,
    pub output: Vec<i32>,
}

impl RunIo {
    /// A fresh pair of streams over the given input lines.
    pub fn new(input: Vec<String>) -> (r: RunIo)
        ensures
            r.input@ == input@,
            r.input_at == 0,
            r.output@ == Seq::<i32>::empty(),
    {
        RunIo { input, input_at: 0, output: Vec::new() }
    }
}

/// The mathematical state of a run: the variable store, the input lines with
/// the read cursor, and the output written so far.
pub struct MachV {
    pub vars: Map<Seq<char>, i32>,
    pub input: Seq<Seq<char>>,
    pub input_at: int,
    pub output: Seq<i32>,
}

/// The state that a variable store and a stream pair denote.
pub open spec fn mach(vars: Map<Seq<char>, i32>, io: RunIo) -> MachV {
    MachV {
        vars,
        input: io.input@.map_values(|s: String| s@),
        input_at: io.input_at as int,
        output: io.output@,
    }
}

/// A value and the state after computing it, or the fault that stopped the
/// run, with the state at the stop.
pub enum StepRes<T> {
    Val(T, MachV),
    Stop(Fault, MachV),
}

// ---------------------------------------------------------------------------
// Reading one input line as an integer
// ---------------------------------------------------------------------------

/// Whitespace, as trimmed from an input line.
pub open spec fn is_ws_char(c: char) -> bool {
    c == ' ' || c == '\t' || c == '\r' || c == '\n'
}

/// A non-empty run of decimal digits.
pub open spec fn is_digit_seq(s: Seq<char>) -> bool {
    s.len() > 0 && forall|j: int| 0 <= j < s.len() ==> is_digit_char(s[j])
}

/// The number that a run of decimal digits spells.
pub open spec fn spec_dec_value(s: Seq<char>) -> int
    decreases s.len(),
{
    if s.len() == 0 {
        0
    } else {
        10 * spec_dec_value(s.drop_last()) + (s[s.len() - 1] as u32 - 48)
    }
}

pub open spec fn spec_trim_start(s: Seq<char>) -> Seq<char>
    decreases s.len(),
{
    if s.len() > 0 && is_ws_char(s[0]) {
        spec_trim_start(s.drop_first())
    } else {
        s
    }
}

pub open spec fn spec_trim_end(s: Seq<char>) -> Seq<char>
    decreases s.len(),
{
    if s.len() > 0 && is_ws_char(s[s.len() - 1]) {
        spec_trim_end(s.drop_last())
    } else {
        s
    }
}

/// The line with surrounding whitespace removed.
pub open spec fn spec_trim(s: Seq<char>) -> Seq<char> {
    spec_trim_end(spec_trim_start(s))
}

/// The signed 32-bit integer that a trimmed line spells, if any: an optional
/// sign, then digits, with the value within the 32-bit range.
pub open spec fn spec_parse_i32(s: Seq<char>) -> Option<i32> {
    if s.len() > 0 && (s[0] == '+' || s[0] == '-') {
        let ds = s.drop_first();
        if is_digit_seq(ds) {
            let v = spec_dec_value(ds);
            if s[0] == '-' {
                if v <= 0x8000_0000 {
                    Some((-v) as i32)
                } else {
                    None
                }
            } else {
                if v <= 0x7fff_ffff {
                    Some(v as i32)
                } else {
                    None
                }
            }
        } else {
            None
        }
    } else {
        if is_digit_seq(s) {
            let v = spec_dec_value(s);
            if v <= 0x7fff_ffff {
                Some(v as i32)
            } else {
                None
            }
        } else {
            None
        }
    }
}

/// A digit run's value never shrinks as the run grows to the right.
pub proof fn lemma_dec_prefix(s: Seq<char>, i: int)
    requires
        0 <= i <= s.len(),
        forall|j: int| 0 <= j < s.len() ==> is_digit_char(s[j]),
    ensures
        0 <= spec_dec_value(s.subrange(0, i)) <= spec_dec_value(s),
    decreases s.len(),
{
    if s.len() == 0 {
        assert(s.subrange(0, 0) =~= s);
    } else {
        let t = s.drop_last();
        lemma_dec_prefix(t, t.len() as int);
        assert(t.subrange(0, t.len() as int) =~= t);
        if i == s.len() {
            assert(s.subrange(0, i) =~= s);
        } else {
            assert(s.subrange(0, i) =~= t.subrange(0, i));
            lemma_dec_prefix(t, i);
        }
    }
}

/// The digits of `cs` between `lo` and `hi` read as a number, when they are
/// digits and the number is at most `limit`.
pub fn parse_magnitude(cs: &Vec<char>, lo: usize, hi: usize, limit: u32) -> (r: Option<u32>)
    requires
        lo <= hi <= cs@.len(),
    ensures
        ({
            let s = cs@.subrange(lo as int, hi as int);
            match r {
                Some(v) => is_digit_seq(s) && spec_dec_value(s) == v && v <= limit,
                None => !is_digit_seq(s) || spec_dec_value(s) > limit,
            }
        }),
{
    if lo == hi {
        proof {
            assert(!is_digit_seq(cs@.subrange(lo as int, hi as int)));
        }
        return None;
    }
    let mut acc: u64 = 0;
    let mut i: usize = lo;
    while i < hi
        invariant
            lo <= i <= hi <= cs@.len(),
            acc == spec_dec_value(cs@.subrange(lo as int, i as int)),
            acc <= limit,
            forall|j: int| lo <= j < i ==> is_digit_char(cs@[j]),
        decreases hi - i,
    {
        let c = cs[i];
        let u = c as u32;
        if !(48 <= u && u <= 57) {
            proof {
                let s = cs@.subrange(lo as int, hi as int);
                assert(!is_digit_char(s[i - lo]));
            }
            return None;
        }
        let d: u64 = (u - 48) as u64;
        let acc2: u64 = acc * 10 + d;
        proof {
            assert(cs@.subrange(lo as int, i + 1 as int).drop_last() =~= cs@.subrange(
                lo as int,
                i as int,
            ));
        }
        if acc2 > limit as u64 {
            proof {
                let s = cs@.subrange(lo as int, hi as int);
                if is_digit_seq(s) {
                    lemma_dec_prefix(s, i + 1 - lo);
                    assert(s.subrange(0, i + 1 - lo) =~= cs@.subrange(lo as int, i + 1 as int));
                }
            }
            return None;
        }
        acc = acc2;
        i += 1;
    }
    proof {
        assert(cs@.subrange(lo as int, hi as int) =~= cs@.subrange(lo as int, i as int));
    }
    Some(acc as u32)
}

/// The integer a line spells after trimming, if any.
pub fn parse_input_line(cs: &Vec<char>) -> (r: Option<i32>)
    ensures
        r == spec_parse_i32(spec_trim(cs@)),
{
    let n = cs.len();
    proof {
        assert(cs@.subrange(0, n as int) =~= cs@);
    }
    let mut lo: usize = 0;
    while lo < n && (cs[lo] == ' ' || cs[lo] == '\t' || cs[lo] == '\r' || cs[lo] == '\n')
        invariant
            lo <= n == cs@.len(),
            spec_trim_start(cs@) == spec_trim_start(cs@.subrange(lo as int, n as int)),
        decreases n - lo,
    {
        proof {
            assert(cs@.subrange(lo as int, n as int).drop_first() =~= cs@.subrange(
                lo + 1 as int,
                n as int,
            ));
        }
        lo += 1;
    }
    let mut hi: usize = n;
    while hi > lo && (cs[hi - 1] == ' ' || cs[hi - 1] == '\t' || cs[hi - 1] == '\r' || cs[hi - 1]
        == '\n')
        invariant
            lo <= hi <= n == cs@.len(),
            spec_trim_start(cs@) == spec_trim_start(cs@.subrange(lo as int, n as int)),
            spec_trim_end(cs@.subrange(lo as int, n as int)) == spec_trim_end(
                cs@.subrange(lo as int, hi as int),
            ),
        decreases hi,
    {
        proof {
            assert(cs@.subrange(lo as int, hi as int).drop_last() =~= cs@.subrange(
                lo as int,
                hi - 1 as int,
            ));
        }
        hi -= 1;
    }
    proof {
        let full = cs@.subrange(lo as int, n as int);
        if lo < n {
            assert(!is_ws_char(full[0]));
        }
        let t = cs@.subrange(lo as int, hi as int);
        if hi > lo {
            assert(!is_ws_char(t[t.len() - 1]));
        }
        assert(spec_trim(cs@) == t);
    }
    let ghost t = cs@.subrange(lo as int, hi as int);
    if lo < hi && (cs[lo] == '+' || cs[lo] == '-') {
        let neg = cs[lo] == '-';
        proof {
            assert(t.drop_first() =~= cs@.subrange(lo + 1 as int, hi as int));
        }
        if neg {
            match parse_magnitude(cs, lo + 1, hi, 0x8000_0000) {
                Some(v) => {
                    if v == 0x8000_0000 {
                        Some(i32::MIN)
                    } else {
                        Some(-(v as i32))
                    }
                },
                None => None,
            }
        } else {
            match parse_magnitude(cs, lo + 1, hi, 0x7fff_ffff) {
                Some(v) => Some(v as i32),
                None => None,
            }
        }
    } else {
        match parse_magnitude(cs, lo, hi, 0x7fff_ffff) {
            Some(v) => Some(v as i32),
            None => None,
        }
    }
}

/// What reading one line of input yields: the next line is consumed, trimmed
/// and read as a signed decimal integer; a line that spells no such integer,
/// or an exhausted input stream, is a fault.
pub open spec fn spec_read_input(m: MachV) -> StepRes<i32> {
    let line = if 0 <= m.input_at < m.input.len() {
        m.input[m.input_at]
    } else {
        Seq::<char>::empty()
    };
    let at2 = if 0 <= m.input_at < m.input.len() {
        m.input_at + 1
    } else {
        m.input_at
    };
    let m2 = MachV { vars: m.vars, input: m.input, input_at: at2, output: m.output };
    match spec_parse_i32(spec_trim(line)) {
        Some(v) => StepRes::Val(v, m2),
        None => StepRes::Stop(Fault::BadInput, m2),
    }
}

/// Consumes one input line and reads it as an integer.
pub fn read_input(io: &mut RunIo) -> (r: Result<i32, Fault>)
    ensures
        final(io).input@ == old(io).input@,
        final(io).output@ == old(io).output@,
        ({
            let m0 = mach(Map::<Seq<char>, i32>::empty(), *old(io));
            let m1 = mach(Map::<Seq<char>, i32>::empty(), *final(io));
            match spec_read_input(m0) {
                StepRes::Val(v, m2) => r == Ok::<i32, Fault>(v) && m1 == m2,
                StepRes::Stop(f, m2) => r == Err::<i32, Fault>(f) && m1 == m2,
            }
        }),
{
    if io.input_at >= io.input.len() {
        let r: Option<i32> = None;
        proof {
            assert(spec_trim(Seq::<char>::empty()) =~= Seq::<char>::empty());
        }
        return Err(Fault::BadInput);
    }
    let cs = crate::lexical::chars_of(io.input[io.input_at].as_str());
    io.input_at += 1;
    match parse_input_line(&cs) {
        Some(v) => Ok(v),
        None => Err(Fault::BadInput),
    }
}

} // verus!
