//! An interpreter for the COW esoteric language: twelve three-letter
//! instructions over a growable tape of `i32` cells and one register.
use vstd::prelude::*;
use vstd::string::{StrSliceExecFns, StringExecFns};
use crate::numeral::{parse_i32, parse_i32_spec};
use crate::render::{decimal_text, push_char, push_decimal};

verus! {

/// The twelve instructions, named after their spelling.
#[derive(Debug, Clone, Copy, PartialEq, Eq, Structural)]
pub enum Instruction {
    /// `moo`: jump back to the matching `MOO`.
    Moo,
    /// `mOo`: move the cell pointer left.
    MOo,
    /// `moO`: move the cell pointer right, growing the tape.
    MoO,
    /// `mOO`: run the instruction whose position is the current cell.
    MOO,
    /// `Moo`: print the current cell as a character, or read one if it is zero.
    Moo2,
    /// `MOo`: decrement the current cell.
    MOo2,
    /// `MoO`: increment the current cell.
    MoO2,
    /// `MOO`: when the current cell is zero, skip past the matching `moo`.
    MOO2,
    /// `OOO`: zero the current cell.
    OOO,
    /// `MMM`: copy the cell into the empty register, or the register back.
    MMM,
    /// `OOM`: print the current cell as a decimal number and a newline.
    OOM,
    /// `oom`: read a decimal number into the current cell.
    Oom,
}

/// The instruction spelled `a b c`, if any.
pub open spec fn token_of(a: char, b: char, c: char) -> Option<Instruction> {
    if a == 'm' && b == 'o' && c == 'o' {
        Some(Instruction::Moo)
    } else if a == 'm' && b == 'O' && c == 'o' {
        Some(Instruction::MOo)
    } else if a == 'm' && b == 'o' && c == 'O' {
        Some(Instruction::MoO)
    } else if a == 'm' && b == 'O' && c == 'O' {
        Some(Instruction::MOO)
    } else if a == 'M' && b == 'o' && c == 'o' {
        Some(Instruction::Moo2)
    } else if a == 'M' && b == 'O' && c == 'o' {
        Some(Instruction::MOo2)
    } else if a == 'M' && b == 'o' && c == 'O' {
        Some(Instruction::MoO2)
    } else if a == 'M' && b == 'O' && c == 'O' {
        Some(Instruction::MOO2)
    } else if a == 'O' && b == 'O' && c == 'O' {
        Some(Instruction::OOO)
    } else if a == 'M' && b == 'M' && c == 'M' {
        Some(Instruction::MMM)
    } else if a == 'O' && b == 'O' && c == 'M' {
        Some(Instruction::OOM)
    } else if a == 'o' && b == 'o' && c == 'm' {
        Some(Instruction::Oom)
    } else {
        None
    }
}

fn token_at(a: char, b: char, c: char) -> (r: Option<Instruction>)
    ensures
        r == token_of(a, b, c),
{
    if a == 'm' && b == 'o' && c == 'o' {
        Some(Instruction::Moo)
    } else if a == 'm' && b == 'O' && c == 'o' {
        Some(Instruction::MOo)
    } else if a == 'm' && b == 'o' && c == 'O' {
        Some(Instruction::MoO)
    } else if a == 'm' && b == 'O' && c == 'O' {
        Some(Instruction::MOO)
    } else if a == 'M' && b == 'o' && c == 'o' {
        Some(Instruction::Moo2)
    } else if a == 'M' && b == 'O' && c == 'o' {
        Some(Instruction::MOo2)
    } else if a == 'M' && b == 'o' && c == 'O' {
        Some(Instruction::MoO2)
    } else if a == 'M' && b == 'O' && c == 'O' {
        Some(Instruction::MOO2)
    } else if a == 'O' && b == 'O' && c == 'O' {
        Some(Instruction::OOO)
    } else if a == 'M' && b == 'M' && c == 'M' {
        Some(Instruction::MMM)
    } else if a == 'O' && b == 'O' && c == 'M' {
        Some(Instruction::OOM)
    } else if a == 'o' && b == 'o' && c == 'm' {
        Some(Instruction::Oom)
    } else {
        None
    }
}

/// Bytes that `c` takes in UTF-8.
pub open spec fn utf8_len(c: char) -> nat {
    if (c as u32) < 0x80 {
        1
    } else if (c as u32) < 0x800 {
        2
    } else if (c as u32) < 0x10000 {
        3
    } else {
        4
    }
}

/// Bytes that `w` takes in UTF-8.
pub open spec fn utf8_total(w: Seq<char>) -> nat
    decreases w.len(),
{
    if w.len() == 0 {
        0
    } else {
        utf8_len(w[0]) + utf8_total(w.drop_first())
    }
}

proof fn lemma_utf8_total_push(w: Seq<char>, c: char)
    ensures
        utf8_total(w.push(c)) == utf8_total(w) + utf8_len(c),
    decreases w.len(),
{
    if w.len() > 0 {
        lemma_utf8_total_push(w.drop_first(), c);
        assert(w.push(c).drop_first() =~= w.drop_first().push(c));
        assert(w.push(c)[0] == w[0]);
    } else {
        assert(w.push(c).drop_first() =~= Seq::<char>::empty());
        assert(utf8_total(Seq::<char>::empty()) == 0);
        assert(w.push(c)[0] == c);
    }
}

proof fn lemma_utf8_total_len(w: Seq<char>)
    ensures
        w.len() <= utf8_total(w) <= 4 * w.len(),
    decreases w.len(),
{
    if w.len() > 0 {
        lemma_utf8_total_len(w.drop_first());
    }
}

fn char_utf8_len(c: char) -> (r: usize)
    ensures
        r == utf8_len(c),
{
    let u = c as u32;
    if u < 0x80 {
        1
    } else if u < 0x800 {
        2
    } else if u < 0x10000 {
        3
    } else {
        4
    }
}

/// The last characters seen, after `c` arrives: at most three bytes' worth
/// are kept, by dropping the oldest character once.
pub open spec fn next_window(w: Seq<char>, c: char) -> Seq<char> {
    if utf8_total(w.push(c)) > 3 {
        w.push(c).drop_first()
    } else {
        w.push(c)
    }
}

/// The instruction a window spells, if it is exactly one.
pub open spec fn window_token(w: Seq<char>) -> Option<Instruction> {
    if w.len() == 3 {
        token_of(w[0], w[1], w[2])
    } else {
        None
    }
}

/// Instructions recognised in `s` when the window holds `w` beforehand. A
/// recognised instruction empties the window; everything else is ignored.
pub open spec fn parse_from(w: Seq<char>, s: Seq<char>) -> Seq<Instruction>
    decreases s.len(),
{
    if s.len() == 0 {
        Seq::empty()
    } else {
        let w2 = next_window(w, s[0]);
        match window_token(w2) {
            Some(i) => seq![i] + parse_from(Seq::empty(), s.drop_first()),
            None => parse_from(w2, s.drop_first()),
        }
    }
}

/// The program that a source text spells.
pub open spec fn parse_spec(s: Seq<char>) -> Seq<Instruction> {
    parse_from(Seq::empty(), s)
}

/// Whitespace-trimmed text of a line.
pub uninterp spec fn trimmed(s: Seq<char>) -> Seq<char>;

/// Relies on `str::trim`: leading and trailing whitespace removed.
#[verifier::external_body]
fn trim_text(s: &str) -> (r: &str)
    ensures
        r@ == trimmed(s@),
{
    s.trim()
}

/// The character whose code point is `v`.
pub uninterp spec fn char_of_code(v: u32) -> char;

/// Relies on `char::from_u32`: `Some` exactly for Unicode scalar values,
/// which are the values below 0x110000 outside 0xD800..0xE000.
#[verifier::external_body]
fn char_from_u32(v: u32) -> (r: Option<char>)
    ensures
        r is Some <==> (v < 0xD800 || (0xE000 <= v && v < 0x110000)),
        r matches Some(c) ==> c == char_of_code(v) && c as u32 == v,
{
    char::from_u32(v)
}

/// Where the backward scan of `moo` stops: starting at `pos` with `level`
/// open loops, each earlier `moo` opens one more and each `MOO` closes one.
/// `None` when position zero is reached with loops still open.
pub open spec fn scan_back(p: Seq<Instruction>, pos: int, level: int) -> Option<int>
    decreases pos,
{
    if level == 0 {
        Some(pos)
    } else if pos <= 0 {
        None
    } else {
        let q = pos - 1;
        let l2 = if p[q] == Instruction::Moo {
            level + 1
        } else if p[q] == Instruction::MOO2 {
            level - 1
        } else {
            level
        };
        scan_back(p, q, l2)
    }
}

/// Where the forward scan of `MOO` stops, and with which level: each later
/// `MOO` opens a loop, each `moo` closes one (two right after a `MOO`).
pub open spec fn scan_fwd(p: Seq<Instruction>, pos: int, level: int) -> (int, int)
    decreases p.len() - pos,
{
    if level <= 0 || pos < 0 || pos >= p.len() {
        (pos, level)
    } else {
        let prev = p[pos];
        let q = pos + 1;
        if q >= p.len() {
            (q, level)
        } else {
            let l2 = if p[q] == Instruction::MOO2 {
                level + 1
            } else if p[q] == Instruction::Moo {
                level - 1 - (if prev == Instruction::MOO2 {
                    1int
                } else {
                    0int
                })
            } else {
                level
            };
            scan_fwd(p, q, l2)
        }
    }
}

/// Program position after `MOO` at `pos` finds the current cell zero, and
/// whether execution goes on.
pub open spec fn skip_forward(p: Seq<Instruction>, pos: int) -> (int, bool) {
    if pos + 1 >= p.len() {
        (pos + 1, true)
    } else {
        let (q, level) = scan_fwd(p, pos + 1, 1);
        if level != 0 {
            (q, false)
        } else {
            (q + 1, true)
        }
    }
}

/// The interpreter: program, tape, cell pointer, program position, register.
pub struct CowInterpreter {
    pub program: Vec<Instruction>,
    pub memory: Vec<i32>,
    pub mem_pos: usize,
    pub prog_pos: usize,
    pub register: Option<i32>,
}

impl CowInterpreter {
    /// The cell pointer is on the tape.
    pub open spec fn wf(&self) -> bool {
        self.mem_pos < self.memory@.len()
    }

    pub open spec fn cell(&self) -> i32 {
        self.memory@[self.mem_pos as int]
    }

    /// Parses `source`; the tape starts as one zero cell.
    pub fn new(source: &str) -> (r: Result<Self, String>)
        ensures
            r matches Ok(c) && c.wf() && c.program@ == parse_spec(source@) && c.memory@ == seq![0i32]
                && c.mem_pos == 0 && c.prog_pos == 0 && c.register is None,
    {
        let program = match Self::parse(source) {
            Ok(p) => p,
            Err(e) => {
                return Err(e);
            },
        };
        Ok(CowInterpreter { program, memory: vec![0], mem_pos: 0, prog_pos: 0, register: None })
    }

    /// Recognises instructions in a sliding window of the last characters:
    /// anything that does not spell an instruction is ignored.
    pub fn parse(source: &str) -> (r: Result<Vec<Instruction>, String>)
        ensures
            r matches Ok(p) && p@ == parse_spec(source@),
    {
        let ghost s = source@;
        let n = source.unicode_len();
        let mut program: Vec<Instruction> = Vec::new();
        let mut window: Vec<char> = Vec::new();
        let mut bytes: usize = 0;
        let mut i: usize = 0;
        proof {
            assert(s.skip(0) =~= s);
            assert(program@ + parse_from(window@, s) =~= parse_from(window@, s));
        }
        while i < n
            invariant
                n == s.len(),
                s == source@,
                i <= n,
                window@.len() <= 3,
                bytes == utf8_total(window@),
                bytes <= 12,
                program@ + parse_from(window@, s.skip(i as int)) == parse_spec(s),
            decreases n - i,
        {
            let c = source.get_char(i);
            proof {
                assert(s.skip(i as int).drop_first() =~= s.skip(i + 1));
                assert(s.skip(i as int)[0] == c);
                lemma_utf8_total_push(window@, c);
            }
            let ghost w2 = next_window(window@, c);
            window.push(c);
            bytes = bytes + char_utf8_len(c);
            let ghost pushed = window@;
            if bytes > 3 {
                let first = window.remove(0);
                proof {
                    assert(window@ =~= pushed.drop_first());
                }
                bytes = bytes - char_utf8_len(first);
            }
            proof {
                assert(window@ =~= w2);
                lemma_utf8_total_len(window@);
            }
            let tok = if window.len() == 3 {
                token_at(window[0], window[1], window[2])
            } else {
                None
            };
            let ghost old_prog = program;
            match tok {
                Some(ins) => {
                    program.push(ins);
                    window = Vec::new();
                    bytes = 0;
                    proof {
                        assert(program@ + parse_from(window@, s.skip(i + 1)) =~= old_prog@ + (seq![ins]
                            + parse_from(Seq::empty(), s.skip(i + 1))));
                    }
                },
                None => {},
            }
            i = i + 1;
        }
        proof {
            assert(s.skip(i as int) =~= Seq::<char>::empty());
            assert(program@ + Seq::<Instruction>::empty() =~= program@);
        }
        Ok(program)
    }
}


/// Runs the forward scan of `MOO` at `pos`.
fn skip_forward_exec(p: &Vec<Instruction>, pos: usize) -> (r: (usize, bool))
    requires
        pos < p@.len(),
    ensures
        r.0 as int == skip_forward(p@, pos as int).0,
        r.1 == skip_forward(p@, pos as int).1,
{
    let n = p.len();
    if pos + 1 >= n {
        return (pos + 1, true);
    }
    let mut q: usize = pos + 1;
    let mut level: i128 = 1;
    while level > 0 && q + 1 < n
        invariant
            n == p@.len(),
            pos + 1 <= q < n,
            -1 <= level <= q - pos,
            scan_fwd(p@, q as int, level as int) == scan_fwd(p@, pos + 1, 1),
        decreases n - q,
    {
        let prev = p[q];
        let nq = q + 1;
        if p[nq] == Instruction::MOO2 {
            level = level + 1;
        } else if p[nq] == Instruction::Moo {
            level = level - 1;
            if prev == Instruction::MOO2 {
                level = level - 1;
            }
        }
        q = nq;
    }
    let end = if level > 0 {
        q + 1
    } else {
        q
    };
    if level != 0 {
        (end, false)
    } else {
        (end + 1, true)
    }
}

/// A view of the interpreter's state.
pub struct CowModel {
    pub program: Seq<Instruction>,
    pub memory: Seq<i32>,
    pub mem_pos: int,
    pub prog_pos: int,
    pub register: Option<i32>,
}

impl CowModel {
    pub open spec fn cell(self) -> i32 {
        self.memory[self.mem_pos]
    }

    pub open spec fn at(self, pos: int) -> CowModel {
        CowModel { prog_pos: pos, ..self }
    }

    pub open spec fn next(self) -> CowModel {
        CowModel { prog_pos: self.prog_pos + 1, ..self }
    }

    pub open spec fn set_cell(self, v: i32) -> CowModel {
        CowModel { memory: self.memory.update(self.mem_pos, v), ..self }
    }
}

/// The line an input request takes: the first pending one, or an empty line.
pub open spec fn next_line(input: Seq<String>) -> Seq<char> {
    if input.len() == 0 {
        Seq::empty()
    } else {
        input[0]@
    }
}

/// The pending lines after an input request.
pub open spec fn rest_lines(input: Seq<String>) -> Seq<String> {
    if input.len() == 0 {
        input
    } else {
        input.drop_first()
    }
}

/// Whether `v` is a Unicode scalar value.
pub open spec fn is_scalar(v: i32) -> bool {
    0 <= v && (v < 0xD800 || (0xE000 <= v && v < 0x110000))
}

/// The text that printing `v` as a character produces: nothing when `v`
/// is not a Unicode scalar value.
pub open spec fn char_text(v: i32) -> Seq<char> {
    if is_scalar(v) {
        seq![char_of_code(v as u32)]
    } else {
        Seq::empty()
    }
}

pub open spec fn wrap_inc(v: i32) -> i32 {
    if v == i32::MAX {
        i32::MIN
    } else {
        (v + 1) as i32
    }
}

pub open spec fn wrap_dec(v: i32) -> i32 {
    if v == i32::MIN {
        i32::MAX
    } else {
        (v - 1) as i32
    }
}

/// One instruction other than `moo` and `mOO`, run at `m.prog_pos`: the new
/// state, the text printed, the pending input, and whether execution goes on.
pub open spec fn plain_step(m: CowModel, ins: Instruction, input: Seq<String>) -> (
    CowModel,
    Seq<char>,
    Seq<String>,
    bool,
) {
    let none = Seq::<char>::empty();
    match ins {
        Instruction::MOo => if m.mem_pos == 0 {
            (m, none, input, false)
        } else {
            (CowModel { mem_pos: m.mem_pos - 1, ..m }.next(), none, input, true)
        },
        Instruction::MoO => (
            CowModel {
                mem_pos: m.mem_pos + 1,
                memory: if m.mem_pos + 1 >= m.memory.len() {
                    m.memory.push(0)
                } else {
                    m.memory
                },
                ..m
            }.next(),
            none,
            input,
            true,
        ),
        Instruction::Moo2 => if m.cell() != 0 {
            (m.next(), char_text(m.cell()), input, true)
        } else if next_line(input).len() > 0 {
            (m.set_cell(next_line(input)[0] as u32 as i32).next(), none, rest_lines(input), true)
        } else {
            (m.next(), none, rest_lines(input), true)
        },
        Instruction::MOo2 => (m.set_cell(wrap_dec(m.cell())).next(), none, input, true),
        Instruction::MoO2 => (m.set_cell(wrap_inc(m.cell())).next(), none, input, true),
        Instruction::MOO2 => if m.cell() != 0 {
            (m.next(), none, input, true)
        } else {
            let (q, go) = skip_forward(m.program, m.prog_pos);
            (m.at(q), none, input, go)
        },
        Instruction::OOO => (m.set_cell(0).next(), none, input, true),
        Instruction::MMM => match m.register {
            None => (CowModel { register: Some(m.cell()), ..m }.next(), none, input, true),
            Some(v) => (CowModel { register: None, ..m.set_cell(v) }.next(), none, input, true),
        },
        Instruction::OOM => (m.next(), decimal_text(m.cell() as int) + "\n"@, input, true),
        Instruction::Oom => (
            m.set_cell(
                match parse_i32_spec(trimmed(next_line(input))) {
                    Some(v) => v,
                    None => 0,
                },
            ).next(),
            none,
            rest_lines(input),
            true,
        ),
        _ => (m, none, input, false),
    }
}

/// `moo` at `m.prog_pos`: back to the matching `MOO`, which then runs.
pub open spec fn back_step(m: CowModel, input: Seq<String>) -> (CowModel, Seq<char>, Seq<String>, bool) {
    if m.prog_pos == 0 {
        (m, Seq::empty(), input, false)
    } else {
        match scan_back(m.program, m.prog_pos - 1, 1) {
            None => (m.at(0), Seq::empty(), input, false),
            Some(q) => plain_step(m.at(q), Instruction::MOO2, input),
        }
    }
}

/// `mOO` at `m.prog_pos`: the instruction at the position named by the cell
/// runs there, then execution resumes after the `mOO`. A cell of 3, or
/// outside `0..12`, stops execution; so does a named `mOO`, which would
/// otherwise run itself forever.
pub open spec fn cell_step(m: CowModel, input: Seq<String>) -> (CowModel, Seq<char>, Seq<String>, bool) {
    let v = m.cell() as int;
    if v == 3 || v < 0 || v >= 12 {
        (m, Seq::empty(), input, false)
    } else if v >= m.program.len() {
        (m.next(), Seq::empty(), input, true)
    } else if m.program[v] == Instruction::MOO {
        (m, Seq::empty(), input, false)
    } else {
        let r = if m.program[v] == Instruction::Moo {
            back_step(m.at(v), input)
        } else {
            plain_step(m.at(v), m.program[v], input)
        };
        (r.0.at(m.prog_pos + 1), r.1, r.2, true)
    }
}

/// The instruction at `m.prog_pos`, run.
pub open spec fn step(m: CowModel, input: Seq<String>) -> (CowModel, Seq<char>, Seq<String>, bool) {
    match m.program[m.prog_pos] {
        Instruction::Moo => back_step(m, input),
        Instruction::MOO => cell_step(m, input),
        ins => plain_step(m, ins, input),
    }
}

pub open spec fn model_wf(m: CowModel) -> bool {
    0 <= m.mem_pos < m.memory.len() && 0 <= m.prog_pos
}

/// Running from `m` for at most `fuel` instructions, until the program
/// position leaves the program or an instruction stops execution.
pub open spec fn run(m: CowModel, input: Seq<String>, fuel: nat) -> (CowModel, Seq<char>, Seq<String>, bool)
    decreases fuel,
{
    if m.prog_pos >= m.program.len() {
        (m, Seq::empty(), input, true)
    } else if fuel == 0 {
        (m, Seq::empty(), input, false)
    } else {
        let (m2, out, in2, go) = step(m, input);
        if !go {
            (m2, out, in2, true)
        } else {
            let r = run(m2, in2, (fuel - 1) as nat);
            (r.0, out + r.1, r.2, r.3)
        }
    }
}

/// Instructions one call of `execute_with_input` runs at most.
pub const STEP_LIMIT: u64 = 0xffff_ffff_ffff_ffff;

proof fn lemma_plain_wf(m: CowModel, ins: Instruction, input: Seq<String>)
    requires
        model_wf(m),
    ensures
        model_wf(plain_step(m, ins, input).0),
        plain_step(m, ins, input).0.program == m.program,
{
    if ins == Instruction::MOO2 && m.cell() == 0 && m.prog_pos + 1 < m.program.len() {
        lemma_scan_fwd_bounds(m.program, m.prog_pos + 1, 1);
    }
}

proof fn lemma_scan_fwd_bounds(p: Seq<Instruction>, pos: int, level: int)
    requires
        0 <= pos,
    ensures
        scan_fwd(p, pos, level).0 >= pos,
    decreases p.len() - pos,
{
    if !(level <= 0 || pos < 0 || pos >= p.len()) && pos + 1 < p.len() {
        let prev = p[pos];
        let q = pos + 1;
        let l2 = if p[q] == Instruction::MOO2 {
            level + 1
        } else if p[q] == Instruction::Moo {
            level - 1 - (if prev == Instruction::MOO2 {
                1int
            } else {
                0int
            })
        } else {
            level
        };
        lemma_scan_fwd_bounds(p, q, l2);
    }
}

proof fn lemma_scan_back_bounds(p: Seq<Instruction>, pos: int, level: int)
    requires
        0 <= pos,
    ensures
        scan_back(p, pos, level) matches Some(q) ==> 0 <= q <= pos,
    decreases pos,
{
    if level != 0 && pos > 0 {
        let q = pos - 1;
        let l2 = if p[q] == Instruction::Moo {
            level + 1
        } else if p[q] == Instruction::MOO2 {
            level - 1
        } else {
            level
        };
        lemma_scan_back_bounds(p, q, l2);
    }
}

proof fn lemma_step_wf(m: CowModel, input: Seq<String>)
    requires
        model_wf(m),
        m.prog_pos < m.program.len(),
    ensures
        model_wf(step(m, input).0),
        step(m, input).0.program == m.program,
{
    let v = m.cell() as int;
    match m.program[m.prog_pos] {
        Instruction::Moo => {
            if m.prog_pos > 0 {
                lemma_scan_back_bounds(m.program, m.prog_pos - 1, 1);
                if let Some(q) = scan_back(m.program, m.prog_pos - 1, 1) {
                    lemma_plain_wf(m.at(q), Instruction::MOO2, input);
                }
            }
        },
        Instruction::MOO => {
            if !(v == 3 || v < 0 || v >= 12) && v < m.program.len() {
                if m.program[v] == Instruction::Moo {
                    if v > 0 {
                        lemma_scan_back_bounds(m.program, v - 1, 1);
                        if let Some(q) = scan_back(m.program, v - 1, 1) {
                            lemma_plain_wf(m.at(q), Instruction::MOO2, input);
                        }
                    }
                } else {
                    lemma_plain_wf(m.at(v), m.program[v], input);
                }
            }
        },
        ins => {
            lemma_plain_wf(m, ins, input);
        },
    }
}

impl CowInterpreter {
    pub open spec fn model(&self) -> CowModel {
        CowModel {
            program: self.program@,
            memory: self.memory@,
            mem_pos: self.mem_pos as int,
            prog_pos: self.prog_pos as int,
            register: self.register,
        }
    }

    fn take_line(input: &mut Vec<String>) -> (r: String)
        ensures
            r@ == next_line(old(input)@),
            final(input)@ == rest_lines(old(input)@),
    {
        if input.len() == 0 {
            String::new()
        } else {
            input.remove(0)
        }
    }

    /// Runs one instruction other than `moo` and `mOO` at the present
    /// program position.
    fn plain(&mut self, ins: Instruction, output: &mut String, input: &mut Vec<String>) -> (r: bool)
        requires
            old(self).wf(),
            old(self).prog_pos < old(self).program@.len(),
        ensures
            final(self).model() == plain_step(old(self).model(), ins, old(input)@).0,
            final(output)@ == old(output)@ + plain_step(old(self).model(), ins, old(input)@).1,
            final(input)@ == plain_step(old(self).model(), ins, old(input)@).2,
            r == plain_step(old(self).model(), ins, old(input)@).3,
            final(self).wf(),
            final(self).program@ == old(self).program@,
    {
        let ghost out0 = output@;
        proof {
            lemma_plain_wf(self.model(), ins, input@);
        }
        let mp = self.mem_pos;
        let plen = self.program.len();
        match ins {
            Instruction::MOo => {
                if mp == 0 {
                    proof {
                        assert(output@ =~= out0 + Seq::<char>::empty());
                    }
                    return false;
                }
                self.mem_pos = mp - 1;
            },
            Instruction::MoO => {
                if mp >= self.memory.len() - 1 {
                    self.memory.push(0);
                }
                self.mem_pos = mp + 1;
            },
            Instruction::Moo2 => {
                let v = self.memory[mp];
                if v != 0 {
                    if v >= 0 {
                        match char_from_u32(v as u32) {
                            Some(ch) => {
                                push_char(output, ch);
                            },
                            None => {},
                        }
                    }
                } else {
                    let line = Self::take_line(input);
                    if line.as_str().unicode_len() > 0 {
                        let ch = line.as_str().get_char(0);
                        self.memory.set(mp, ch as u32 as i32);
                    }
                }
            },
            Instruction::MOo2 => {
                let v = self.memory[mp];
                self.memory.set(mp, v.wrapping_sub(1));
            },
            Instruction::MoO2 => {
                let v = self.memory[mp];
                self.memory.set(mp, v.wrapping_add(1));
            },
            Instruction::MOO2 => {
                if self.memory[mp] == 0 {
                    let (q, go) = skip_forward_exec(&self.program, self.prog_pos);
                    self.prog_pos = q;
                    proof {
                        assert(output@ =~= out0 + Seq::<char>::empty());
                    }
                    return go;
                }
            },
            Instruction::OOO => {
                self.memory.set(mp, 0);
            },
            Instruction::MMM => {
                match self.register {
                    None => {
                        self.register = Some(self.memory[mp]);
                    },
                    Some(v) => {
                        self.memory.set(mp, v);
                        self.register = None;
                    },
                }
            },
            Instruction::OOM => {
                push_decimal(output, self.memory[mp] as i64);
                output.append("\n");
            },
            Instruction::Oom => {
                let line = Self::take_line(input);
                let v = match parse_i32(trim_text(line.as_str())) {
                    Some(v) => v,
                    None => 0,
                };
                self.memory.set(mp, v);
            },
            _ => {
                proof {
                    assert(output@ =~= out0 + Seq::<char>::empty());
                }
                return false;
            },
        }
        self.prog_pos = self.prog_pos + 1;
        proof {
            let e = plain_step(old(self).model(), ins, old(input)@).1;
            assert(output@ =~= out0 + e);
            assert(self.model().memory =~= plain_step(old(self).model(), ins, old(input)@).0.memory);
        }
        true
    }
}

impl CowInterpreter {
    /// Runs `moo` at the present program position.
    fn back(&mut self, output: &mut String, input: &mut Vec<String>) -> (r: bool)
        requires
            old(self).wf(),
            old(self).prog_pos < old(self).program@.len(),
        ensures
            final(self).model() == back_step(old(self).model(), old(input)@).0,
            final(output)@ == old(output)@ + back_step(old(self).model(), old(input)@).1,
            final(input)@ == back_step(old(self).model(), old(input)@).2,
            r == back_step(old(self).model(), old(input)@).3,
            final(self).wf(),
            final(self).program@ == old(self).program@,
    {
        let ghost out0 = output@;
        proof {
            assert(output@ =~= out0 + Seq::<char>::empty());
        }
        if self.prog_pos == 0 {
            return false;
        }
        let start = self.prog_pos - 1;
        let mut pos: usize = start;
        let mut level: i128 = 1;
        while level != 0 && pos > 0
            invariant
                pos <= start,
                0 <= level <= 1 + (start - pos),
                start < self.program@.len(),
                scan_back(self.program@, pos as int, level as int) == scan_back(
                    self.program@,
                    start as int,
                    1,
                ),
            decreases pos,
        {
            pos = pos - 1;
            if self.program[pos] == Instruction::Moo {
                level = level + 1;
            } else if self.program[pos] == Instruction::MOO2 {
                level = level - 1;
            }
        }
        if level != 0 {
            self.prog_pos = 0;
            return false;
        }
        self.prog_pos = pos;
        self.plain(Instruction::MOO2, output, input)
    }

    /// Runs the instruction at the present program position.
    pub fn exec_instruction_with_input(&mut self, output: &mut String, input: &mut Vec<String>) -> (r:
        Result<bool, String>)
        requires
            old(self).wf(),
            old(self).prog_pos < old(self).program@.len(),
        ensures
            r == Ok::<bool, String>(step(old(self).model(), old(input)@).3),
            final(self).model() == step(old(self).model(), old(input)@).0,
            final(output)@ == old(output)@ + step(old(self).model(), old(input)@).1,
            final(input)@ == step(old(self).model(), old(input)@).2,
            final(self).wf(),
    {
        let ghost out0 = output@;
        let ins = self.program[self.prog_pos];
        let go = match ins {
            Instruction::Moo => self.back(output, input),
            Instruction::MOO => {
                let v = self.memory[self.mem_pos];
                let saved = self.prog_pos;
                if v == 3 || v < 0 || v >= 12 {
                    false
                } else if v as usize >= self.program.len() {
                    self.prog_pos = saved + 1;
                    true
                } else {
                    let target = self.program[v as usize];
                    if target == Instruction::MOO {
                        false
                    } else {
                        self.prog_pos = v as usize;
                        if target == Instruction::Moo {
                            self.back(output, input);
                        } else {
                            self.plain(target, output, input);
                        }
                        self.prog_pos = saved + 1;
                        true
                    }
                }
            },
            _ => self.plain(ins, output, input),
        };
        proof {
            assert(output@ =~= out0 + step(old(self).model(), old(input)@).1);
            assert(self.model().memory =~= step(old(self).model(), old(input)@).0.memory);
        }
        Ok(go)
    }

    /// Runs from the present position until the position leaves the program
    /// or an instruction stops execution; input requests take the lines of
    /// `input` in order, and an empty line once they are used up. Gives up
    /// with an error after `STEP_LIMIT` instructions.
    pub fn execute_with_input(&mut self, input: &mut Vec<String>) -> (r: Result<String, String>)
        requires
            old(self).wf(),
        ensures
            r is Ok <==> run(old(self).model(), old(input)@, STEP_LIMIT as nat).3,
            r matches Ok(out) ==> out@ == run(old(self).model(), old(input)@, STEP_LIMIT as nat).1
                && final(self).model() == run(old(self).model(), old(input)@, STEP_LIMIT as nat).0
                && final(input)@ == run(old(self).model(), old(input)@, STEP_LIMIT as nat).2,
            final(self).wf(),
    {
        let ghost m0 = self.model();
        let ghost in0 = input@;
        let mut output = String::new();
        let mut steps: u64 = 0;
        let mut go = true;
        proof {
            let r = run(m0, in0, STEP_LIMIT as nat);
            assert(output@ + r.1 =~= r.1);
        }
        while go && self.prog_pos < self.program.len()
            invariant
                self.wf(),
                model_wf(self.model()),
                self.program@ == m0.program,
                m0 == old(self).model(),
                in0 == old(input)@,
                steps <= STEP_LIMIT,
                go ==> run(m0, in0, STEP_LIMIT as nat) == ({
                    let r = run(self.model(), input@, (STEP_LIMIT - steps) as nat);
                    (r.0, output@ + r.1, r.2, r.3)
                }),
                !go ==> run(m0, in0, STEP_LIMIT as nat) == (self.model(), output@, input@, true),
            decreases STEP_LIMIT - steps,
        {
            if steps == STEP_LIMIT {
                proof {
                    assert(((STEP_LIMIT - steps) as nat) == 0nat);
                    assert(run(self.model(), input@, 0).3 == false);
                    assert(run(m0, in0, STEP_LIMIT as nat).3 == false);
                }
                return Err(String::from_str("step limit reached"));
            }
            let ghost m = self.model();
            let ghost inp = input@;
            let ghost o = output@;
            proof {
                lemma_step_wf(m, inp);
            }
            let cont = match self.exec_instruction_with_input(&mut output, input) {
                Ok(c) => c,
                Err(e) => {
                    return Err(e);
                },
            };
            steps = steps + 1;
            go = cont;
            proof {
                let st = step(m, inp);
                if go {
                    let r = run(self.model(), input@, (STEP_LIMIT - steps) as nat);
                    assert(o + (st.1 + r.1) =~= output@ + r.1);
                } else {
                    assert(o + st.1 =~= output@);
                }
            }
        }
        proof {
            if go {
                assert(output@ + Seq::<char>::empty() =~= output@);
            }
        }
        Ok(output)
    }

    /// Runs the program with no input lines: every input request reads an
    /// empty line.
    pub fn execute(&mut self) -> (r: Result<String, String>)
        requires
            old(self).wf(),
        ensures
            r is Ok <==> run(old(self).model(), Seq::empty(), STEP_LIMIT as nat).3,
            r matches Ok(out) ==> out@ == run(old(self).model(), Seq::empty(), STEP_LIMIT as nat).1
                && final(self).model() == run(old(self).model(), Seq::empty(), STEP_LIMIT as nat).0,
            final(self).wf(),
    {
        let mut none: Vec<String> = Vec::new();
        proof {
            assert(none@ =~= Seq::<String>::empty());
        }
        self.execute_with_input(&mut none)
    }

    /// The tape.
    pub fn get_memory(&self) -> (r: &[i32])
        ensures
            r@ == self.memory@,
    {
        self.memory.as_slice()
    }

    /// The cell pointer.
    pub fn get_memory_pos(&self) -> (r: usize)
        ensures
            r == self.mem_pos,
    {
        self.mem_pos
    }

    /// The register.
    pub fn get_register(&self) -> (r: Option<i32>)
        ensures
            r == self.register,
    {
        self.register
    }
}

} // verus!
