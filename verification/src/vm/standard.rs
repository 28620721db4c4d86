//! Standard implementation of the virtual machine.
//!
//! The machine executes exactly the eight operations of the language
//! specification against a fixed-size cyclic byte tape, reading single
//! bytes from an in-memory input buffer and appending single bytes to an
//! in-memory output buffer. Its behaviour is defined by a small-step
//! semantics over [`MachineState`], and `run` is proved to follow it.

use vstd::prelude::*;

use crate::parser::Token;
use crate::vm::Vm;

verus! {

/// Number of tape cells a machine owns unless configured otherwise.
pub const DEFAULT_MEMORY_SIZE: usize = 30000;

/// Elementary operations a single run may execute before the machine gives
/// up with [`VmError::StepLimit`]. At one operation per nanosecond this is
/// more than 10 to the 22nd ages of the universe; it exists only so that
/// every run provably comes back.
pub const STEP_BUDGET: u128 = u128::MAX;

/// Executable instruction for the virtual machine.
///
/// The set of operations is exactly the one of the language definition.
#[derive(Debug, Clone, Copy, PartialEq, Eq, Structural)]
pub enum Operation {
    /// `+` - Increment the memory cell at the pointer
    Inc,
    /// `-` - Decrement the memory cell at the pointer
    Dec,
    /// `>` - Move the pointer to the right
    Next,
    /// `<` - Move the pointer to the left
    Prev,
    /// `,` - Input a byte and store it in the cell at the pointer
    In,
    /// `.` - Output the byte held by the cell at the pointer
    Out,
    /// `[` - Jump past the matching `]` if the cell at the pointer is 0
    LoopForward,
    /// `]` - Jump back behind the matching `[` if the cell at the pointer is nonzero
    LoopBack,
}

/// Classification of a failed byte read or write on the machine's streams.
#[derive(Debug, Clone, Copy, PartialEq, Eq, Structural)]
pub enum IoErrorKind {
    /// The input buffer held no further byte to read.
    UnexpectedEof,
}

/// Errors thrown by the virtual machine during execution.
#[derive(Debug, Clone, Copy, PartialEq, Eq, Structural)]
pub enum VmError {
    /// Unmatched `[` instruction
    NoLoopEnd,
    /// Unmatched `]` instruction
    NoLoopStart,
    /// Instruction pointer outside of the program memory.
    /// This should not happen and indicates a programming error.
    OutOfProgramMemory,
    /// The run performed its whole step budget without terminating.
    /// The budget is so large that no feasible computation reaches it;
    /// it exists so that every run provably comes back.
    StepLimit,
    /// Error during an IO operation.
    /// Contains the error kind for root cause analysis.
    IoError(IoErrorKind),
}

/// The operation a source token translates to.
pub open spec fn operation_of_token(token: Token) -> Operation {
    match token {
        Token::Inc => Operation::Inc,
        Token::Dec => Operation::Dec,
        Token::Shl => Operation::Prev,
        Token::Shr => Operation::Next,
        Token::Stl => Operation::LoopForward,
        Token::Endl => Operation::LoopBack,
        Token::In => Operation::In,
        Token::Out => Operation::Out,
    }
}

/// The source token an operation came from; inverse of [`operation_of_token`].
pub open spec fn token_of_operation(op: Operation) -> Token {
    match op {
        Operation::Inc => Token::Inc,
        Operation::Dec => Token::Dec,
        Operation::Prev => Token::Shl,
        Operation::Next => Token::Shr,
        Operation::LoopForward => Token::Stl,
        Operation::LoopBack => Token::Endl,
        Operation::In => Token::In,
        Operation::Out => Token::Out,
    }
}

/// Translates source code tokens to virtual machine instructions,
/// one operation per token, in order.
pub fn translate(tokens: &[Token]) -> (ops: Vec<Operation>)
    ensures
        ops@ == tokens@.map_values(|t: Token| operation_of_token(t)),
{
    let mut ops: Vec<Operation> = Vec::new();
    let mut i: usize = 0;
    while i < tokens.len()
        invariant
            i <= tokens@.len(),
            ops@.len() == i,
            forall|j: int| 0 <= j < i ==> ops@[j] == operation_of_token(tokens@[j]),
        decreases tokens@.len() - i,
    {
        let op = match tokens[i] {
            Token::Inc => Operation::Inc,
            Token::Dec => Operation::Dec,
            Token::Shl => Operation::Prev,
            Token::Shr => Operation::Next,
            Token::Stl => Operation::LoopForward,
            Token::Endl => Operation::LoopBack,
            Token::In => Operation::In,
            Token::Out => Operation::Out,
        };
        ops.push(op);
        i = i + 1;
    }
    proof {
        assert(ops@ =~= tokens@.map_values(|t: Token| operation_of_token(t)));
    }
    ops
}

/// Law: translation is a bijection between the eight token tags and the
/// eight operation tags; each direction inverts the other.
pub proof fn lemma_translation_bijective()
    ensures
        forall|t: Token| #[trigger] token_of_operation(operation_of_token(t)) == t,
        forall|op: Operation| #[trigger] operation_of_token(token_of_operation(op)) == op,
{
}

/// Law: translating a token sequence and mapping every operation back to
/// its token recovers the original sequence, in the original order.
pub proof fn lemma_translate_round_trip(tokens: Seq<Token>)
    ensures
        tokens.map_values(|t: Token| operation_of_token(t)).map_values(
            |op: Operation| token_of_operation(op),
        ) == tokens,
{
    let round = tokens.map_values(|t: Token| operation_of_token(t)).map_values(
        |op: Operation| token_of_operation(op),
    );
    assert(round =~= tokens);
}

/// The mathematical state of a machine in the middle of a run: the tape,
/// the two pointers, the bytes still unread, and the bytes written so far.
#[verifier::ext_equal]
pub struct MachineState {
    /// The tape cells.
    pub mem: Seq<u8>,
    /// The data pointer: an index into `mem`.
    pub mp: int,
    /// The instruction pointer: an index into the program.
    pub ip: int,
    /// The bytes the `,` operation has not consumed yet.
    pub input: Seq<u8>,
    /// The bytes the `.` operation has emitted so far.
    pub output: Seq<u8>,
}

/// Validity of a machine state with respect to a program: a nonempty tape,
/// the data pointer on the tape, and the instruction pointer at most one
/// past the last operation.
pub open spec fn state_wf(program: Seq<Operation>, s: MachineState) -> bool {
    &&& s.mem.len() > 0
    &&& 0 <= s.mp < s.mem.len()
    &&& 0 <= s.ip <= program.len()
}

/// A state whose instruction pointer has left the program: the run has
/// terminated successfully.
pub open spec fn halted(program: Seq<Operation>, s: MachineState) -> bool {
    s.ip >= program.len()
}

/// The fresh state a run begins from: every cell zero, both pointers at
/// zero, the given streams untouched.
pub open spec fn start_state(mem_len: nat, input: Seq<u8>, output: Seq<u8>) -> MachineState {
    MachineState { mem: Seq::new(mem_len, |i: int| 0u8), mp: 0, ip: 0, input, output }
}

/// Increment of a cell, wrapping modulo 256.
pub open spec fn cell_inc(v: u8) -> u8 {
    if v == 255 {
        0
    } else {
        (v + 1) as u8
    }
}

/// Decrement of a cell, wrapping modulo 256.
pub open spec fn cell_dec(v: u8) -> u8 {
    if v == 0 {
        255
    } else {
        (v - 1) as u8
    }
}

/// Index of the `LoopBack` that closes the loop a forward scan is inside
/// of, looking at position `i` with `depth` open inner loops, or `None`
/// when the program ends first.
pub open spec fn find_loop_end(program: Seq<Operation>, i: int, depth: nat) -> Option<int>
    decreases program.len() - i,
{
    if i < 0 || i >= program.len() {
        None
    } else if program[i] == Operation::LoopForward {
        find_loop_end(program, i + 1, depth + 1)
    } else if program[i] == Operation::LoopBack {
        if depth == 0 {
            Some(i)
        } else {
            find_loop_end(program, i + 1, (depth - 1) as nat)
        }
    } else {
        find_loop_end(program, i + 1, depth)
    }
}

/// Index of the `LoopForward` that opens the loop a backward scan is
/// inside of, looking at position `i` with `depth` open inner loops, or
/// `None` when the program start is passed first.
pub open spec fn find_loop_start(program: Seq<Operation>, i: int, depth: nat) -> Option<int>
    decreases i + 1,
{
    if i < 0 || i >= program.len() {
        None
    } else if program[i] == Operation::LoopBack {
        find_loop_start(program, i - 1, depth + 1)
    } else if program[i] == Operation::LoopForward {
        if depth == 0 {
            Some(i)
        } else {
            find_loop_start(program, i - 1, (depth - 1) as nat)
        }
    } else {
        find_loop_start(program, i - 1, depth)
    }
}

/// One step of the machine: the effect of the operation at the instruction
/// pointer, or the error that stops the run there.
pub open spec fn step(program: Seq<Operation>, s: MachineState) -> Result<MachineState, VmError>
    recommends
        state_wf(program, s),
        !halted(program, s),
{
    match program[s.ip] {
        Operation::Inc => Ok(
            MachineState { mem: s.mem.update(s.mp, cell_inc(s.mem[s.mp])), ip: s.ip + 1, ..s },
        ),
        Operation::Dec => Ok(
            MachineState { mem: s.mem.update(s.mp, cell_dec(s.mem[s.mp])), ip: s.ip + 1, ..s },
        ),
        Operation::Next => Ok(
            MachineState {
                mp: if s.mp + 1 == s.mem.len() {
                    0
                } else {
                    s.mp + 1
                },
                ip: s.ip + 1,
                ..s
            },
        ),
        Operation::Prev => Ok(
            MachineState {
                mp: if s.mp == 0 {
                    s.mem.len() - 1
                } else {
                    s.mp - 1
                },
                ip: s.ip + 1,
                ..s
            },
        ),
        Operation::In => if s.input.len() == 0 {
            Err(VmError::IoError(IoErrorKind::UnexpectedEof))
        } else {
            Ok(
                MachineState {
                    mem: s.mem.update(s.mp, s.input[0]),
                    input: s.input.skip(1),
                    ip: s.ip + 1,
                    ..s
                },
            )
        },
        Operation::Out => Ok(
            MachineState { output: s.output.push(s.mem[s.mp]), ip: s.ip + 1, ..s },
        ),
        Operation::LoopForward => if s.mem[s.mp] != 0 {
            Ok(MachineState { ip: s.ip + 1, ..s })
        } else {
            match find_loop_end(program, s.ip + 1, 0) {
                Some(close) => Ok(MachineState { ip: close + 1, ..s }),
                None => Err(VmError::NoLoopEnd),
            }
        },
        Operation::LoopBack => if s.mem[s.mp] == 0 {
            Ok(MachineState { ip: s.ip + 1, ..s })
        } else {
            match find_loop_start(program, s.ip - 1, 0) {
                Some(open) => Ok(MachineState { ip: open + 1, ..s }),
                None => Err(VmError::NoLoopStart),
            }
        },
    }
}

/// The outcome of the machine within `fuel` steps: `Some(Ok(t))` when it
/// halts in state `t`, `Some(Err(e))` when a step fails with `e`, and
/// `None` when it is still running after `fuel` steps.
pub open spec fn run_fuel(program: Seq<Operation>, s: MachineState, fuel: nat) -> Option<
    Result<MachineState, VmError>,
>
    decreases fuel,
{
    if halted(program, s) {
        Some(Ok(s))
    } else if fuel == 0 {
        None
    } else {
        match step(program, s) {
            Ok(next) => run_fuel(program, next, (fuel - 1) as nat),
            Err(e) => Some(Err(e)),
        }
    }
}

/// The state exactly `k` successful steps ahead of `s`, or `None` when the
/// machine halts or fails strictly earlier.
pub open spec fn advance(program: Seq<Operation>, s: MachineState, k: nat) -> Option<MachineState>
    decreases k,
{
    if k == 0 {
        Some(s)
    } else if halted(program, s) {
        None
    } else {
        match step(program, s) {
            Ok(next) => advance(program, next, (k - 1) as nat),
            Err(_) => None,
        }
    }
}

/// A run that has soundly taken `k` steps and then halts has the halt as
/// its outcome at fuel `k`.
proof fn lemma_advance_to_halt(program: Seq<Operation>, s: MachineState, k: nat, t: MachineState)
    requires
        advance(program, s, k) == Some(t),
        halted(program, t),
    ensures
        run_fuel(program, s, k) == Some(Ok::<MachineState, VmError>(t)),
    decreases k,
{
    if k > 0 {
        match step(program, s) {
            Ok(next) => {
                lemma_advance_to_halt(program, next, (k - 1) as nat, t);
            },
            Err(_) => {},
        }
    }
}

/// A run that has soundly taken `k` steps and then fails has the failure
/// as its outcome at fuel `k + 1`.
proof fn lemma_advance_to_err(
    program: Seq<Operation>,
    s: MachineState,
    k: nat,
    t: MachineState,
    e: VmError,
)
    requires
        advance(program, s, k) == Some(t),
        !halted(program, t),
        step(program, t) == Err::<MachineState, VmError>(e),
    ensures
        run_fuel(program, s, k + 1) == Some(Err::<MachineState, VmError>(e)),
    decreases k,
{
    if k > 0 {
        match step(program, s) {
            Ok(next) => {
                lemma_advance_to_err(program, next, (k - 1) as nat, t, e);
            },
            Err(_) => {},
        }
    }
}

/// A run that has soundly taken `k` steps and has not halted has no
/// outcome yet at fuel `k`.
proof fn lemma_advance_still_running(
    program: Seq<Operation>,
    s: MachineState,
    k: nat,
    t: MachineState,
)
    requires
        advance(program, s, k) == Some(t),
        !halted(program, t),
    ensures
        run_fuel(program, s, k) == None::<Result<MachineState, VmError>>,
    decreases k,
{
    if k > 0 {
        match step(program, s) {
            Ok(next) => {
                lemma_advance_still_running(program, next, (k - 1) as nat, t);
            },
            Err(_) => {},
        }
    }
}

/// One more successful step extends a sound run by one.
proof fn lemma_advance_extend(
    program: Seq<Operation>,
    s: MachineState,
    k: nat,
    t: MachineState,
    next: MachineState,
)
    requires
        advance(program, s, k) == Some(t),
        !halted(program, t),
        step(program, t) == Ok::<MachineState, VmError>(next),
    ensures
        advance(program, s, k + 1) == Some(next),
    decreases k,
{
    reveal_with_fuel(advance, 2);
    if k > 0 {
        match step(program, s) {
            Ok(mid) => {
                lemma_advance_extend(program, mid, (k - 1) as nat, t, next);
            },
            Err(_) => {},
        }
    }
}

/// A found loop close lies within the program, at or after the position
/// the scan started from, and is itself a `LoopBack`.
pub proof fn lemma_find_loop_end_in_range(program: Seq<Operation>, i: int, depth: nat)
    ensures
        find_loop_end(program, i, depth) matches Some(close) ==> i <= close < program.len()
            && program[close] == Operation::LoopBack,
    decreases program.len() - i,
{
    if 0 <= i < program.len() {
        if program[i] == Operation::LoopForward {
            lemma_find_loop_end_in_range(program, i + 1, depth + 1);
        } else if program[i] == Operation::LoopBack {
            if depth > 0 {
                lemma_find_loop_end_in_range(program, i + 1, (depth - 1) as nat);
            }
        } else {
            lemma_find_loop_end_in_range(program, i + 1, depth);
        }
    }
}

/// Law: a loop opening reached with a zero cell is a pure jump, however
/// complex or nested the body. One step lands immediately after the
/// matching close — a `LoopBack` inside the program — and leaves the tape,
/// the data pointer and both streams untouched, the cell still zero.
pub proof fn lemma_loop_on_zero_is_skip(program: Seq<Operation>, s: MachineState, close: int)
    requires
        state_wf(program, s),
        !halted(program, s),
        program[s.ip] == Operation::LoopForward,
        s.mem[s.mp] == 0,
        find_loop_end(program, s.ip + 1, 0) == Some(close),
    ensures
        step(program, s) == Ok::<MachineState, VmError>((MachineState { ip: close + 1, ..s })),
        s.ip < close < program.len(),
        program[close] == Operation::LoopBack,
{
    lemma_find_loop_end_in_range(program, s.ip + 1, 0);
}

/// Law: running the empty program succeeds at once, whatever the fuel,
/// and leaves the start state untouched: every tape cell zero and the
/// instruction pointer at zero.
pub proof fn lemma_run_empty_program(mem_len: nat, input: Seq<u8>, output: Seq<u8>, fuel: nat)
    ensures
        run_fuel(Seq::<Operation>::empty(), start_state(mem_len, input, output), fuel) == Some(
            Ok::<MachineState, VmError>(start_state(mem_len, input, output)),
        ),
        start_state(mem_len, input, output).ip == 0,
        forall|i: int|
            0 <= i < mem_len ==> start_state(mem_len, input, output).mem[i] == 0u8,
{
}

/// Law: the machine is deterministic. Once some fuel decides the outcome,
/// every larger fuel reports the same outcome.
pub proof fn lemma_run_fuel_monotonic(program: Seq<Operation>, s: MachineState, n: nat, m: nat)
    requires
        n <= m,
        run_fuel(program, s, n) is Some,
    ensures
        run_fuel(program, s, m) == run_fuel(program, s, n),
    decreases n,
{
    if !halted(program, s) {
        match step(program, s) {
            Ok(next) => {
                lemma_run_fuel_monotonic(program, next, (n - 1) as nat, (m - 1) as nat);
            },
            Err(_) => {},
        }
    }
}

/// Virtual machine for direct execution of the language.
///
/// The machine is strictly standard and executes code without any
/// optimizations. It contains:
/// - A program: the list of operations of the current run
/// - An instruction pointer (`ip`)
/// - An array of byte cells for memory, 30000 of them by default
/// - The current memory cell pointer (`mp`)
/// - An input buffer, of which the bytes before `in_pos` are consumed
/// - An output buffer that collects every emitted byte
pub struct StandardVm {
    /// The tape cells.
    pub memory: Vec<u8>,
    /// The data pointer.
    pub mp: usize,
    /// The operations of the current run.
    pub program: Vec<Operation>,
    /// The instruction pointer.
    pub ip: usize,
    /// The byte sink written by `.` operations.
    pub output: Vec<u8>,
    /// The byte source read by `,` operations.
    pub input: Vec<u8>,
    /// How many bytes of `input` have been consumed already.
    pub in_pos: usize,
}

impl View for StandardVm {
    type V = MachineState;

    open spec fn view(&self) -> MachineState {
        MachineState {
            mem: self.memory@,
            mp: self.mp as int,
            ip: self.ip as int,
            input: self.input@.skip(self.in_pos as int),
            output: self.output@,
        }
    }
}

impl StandardVm {
    /// Well-formedness of the machine: a nonempty tape, the data pointer on
    /// the tape, the consumed prefix within the input buffer, and the
    /// instruction pointer at most one past the program end.
    pub open spec fn wf(&self) -> bool {
        &&& self.memory@.len() > 0
        &&& self.mp < self.memory@.len()
        &&& self.in_pos <= self.input@.len()
        &&& self.ip <= self.program@.len()
    }

    /// Create a machine with standard parameters: the default amount of
    /// memory and empty input and output buffers.
    pub fn new() -> (vm: StandardVm)
        ensures
            vm.wf(),
            vm@ == start_state(DEFAULT_MEMORY_SIZE as nat, Seq::<u8>::empty(), Seq::<u8>::empty()),
            vm.program@ == Seq::<Operation>::empty(),
            vm.memory@.len() == DEFAULT_MEMORY_SIZE,
            vm.in_pos == 0,
    {
        let vm = StandardVm {
            memory: vec![0u8; DEFAULT_MEMORY_SIZE],
            mp: 0,
            program: Vec::new(),
            ip: 0,
            output: Vec::new(),
            input: Vec::new(),
            in_pos: 0,
        };
        proof {
            assert(vm@ =~= start_state(
                DEFAULT_MEMORY_SIZE as nat,
                Seq::<u8>::empty(),
                Seq::<u8>::empty(),
            ));
        }
        vm
    }

    /// Create a machine with the default amount of memory and the given
    /// output and input buffers. Emitted bytes are appended to `output`;
    /// `,` operations consume `input` from the front.
    pub fn with_io(output: Vec<u8>, input: Vec<u8>) -> (vm: StandardVm)
        ensures
            vm.wf(),
            vm@ == start_state(DEFAULT_MEMORY_SIZE as nat, input@, output@),
            vm.program@ == Seq::<Operation>::empty(),
            vm.memory@.len() == DEFAULT_MEMORY_SIZE,
    {
        let mut vm = StandardVm::new();
        vm.output = output;
        vm.input = input;
        proof {
            assert(vm.input@.skip(0) =~= vm.input@);
            assert(vm@ =~= start_state(DEFAULT_MEMORY_SIZE as nat, input@, output@));
        }
        vm
    }

    /// Zero the tape and put both pointers back at the start; the program
    /// and the two byte buffers stay as they are.
    fn reset(&mut self)
        requires
            old(self).memory@.len() > 0,
            old(self).in_pos <= old(self).input@.len(),
        ensures
            final(self).wf(),
            final(self).memory@ == Seq::new(old(self).memory@.len(), |i: int| 0u8),
            final(self).mp == 0,
            final(self).ip == 0,
            final(self).program@ == old(self).program@,
            final(self).input@ == old(self).input@,
            final(self).in_pos == old(self).in_pos,
            final(self).output@ == old(self).output@,
    {
        let n = self.memory.len();
        let mut i: usize = 0;
        while i < n
            invariant
                i <= n,
                n == self.memory@.len(),
                self.program@ == old(self).program@,
                self.input@ == old(self).input@,
                self.in_pos == old(self).in_pos,
                self.output@ == old(self).output@,
                forall|j: int| 0 <= j < i ==> self.memory@[j] == 0u8,
            decreases n - i,
        {
            self.memory.set(i, 0);
            i = i + 1;
        }
        self.mp = 0;
        self.ip = 0;
        proof {
            assert(self.memory@ =~= Seq::new(old(self).memory@.len(), |i: int| 0u8));
        }
    }

    /// The operation at the instruction pointer, or `None` when the pointer
    /// has left the program.
    fn operation(&self) -> (op: Option<Operation>)
        ensures
            match op {
                Some(o) => self.ip < self.program@.len() && o == self.program@[self.ip as int],
                None => self.ip >= self.program@.len(),
            },
    {
        if self.ip >= self.program.len() {
            return None;
        }
        Some(self.program[self.ip])
    }

    /// Read the cell at the data pointer.
    pub fn get(&self) -> (v: u8)
        requires
            self.wf(),
        ensures
            v == self@.mem[self@.mp],
    {
        self.memory[self.mp]
    }

    /// Write the cell at the data pointer.
    pub fn put(&mut self, v: u8)
        requires
            old(self).wf(),
        ensures
            final(self).wf(),
            final(self)@ == (MachineState { mem: old(self)@.mem.update(old(self)@.mp, v), ..old(self)@ }),
            final(self).program@ == old(self).program@,
    {
        self.memory.set(self.mp, v);
        proof {
            assert(self@ =~= MachineState {
                mem: old(self)@.mem.update(old(self)@.mp, v),
                ..old(self)@
            });
        }
    }

    /// Increment the cell at the data pointer, wrapping modulo 256, and
    /// hand back the position of the next instruction.
    pub fn inc(&mut self) -> (next_ip: usize)
        requires
            old(self).wf(),
            old(self).ip < usize::MAX,
        ensures
            final(self).wf(),
            next_ip == old(self).ip + 1,
            final(self)@ == (MachineState {
                mem: old(self)@.mem.update(old(self)@.mp, cell_inc(old(self)@.mem[old(self)@.mp])),
                ..old(self)@
            }),
            final(self).program@ == old(self).program@,
    {
        let v = self.get().wrapping_add(1);
        proof {
            assert(v == cell_inc(old(self)@.mem[old(self)@.mp]));
        }
        self.put(v);
        self.ip + 1
    }

    /// Decrement the cell at the data pointer, wrapping modulo 256, and
    /// hand back the position of the next instruction.
    pub fn dec(&mut self) -> (next_ip: usize)
        requires
            old(self).wf(),
            old(self).ip < usize::MAX,
        ensures
            final(self).wf(),
            next_ip == old(self).ip + 1,
            final(self)@ == (MachineState {
                mem: old(self)@.mem.update(old(self)@.mp, cell_dec(old(self)@.mem[old(self)@.mp])),
                ..old(self)@
            }),
            final(self).program@ == old(self).program@,
    {
        let v = self.get().wrapping_sub(1);
        proof {
            assert(v == cell_dec(old(self)@.mem[old(self)@.mp]));
        }
        self.put(v);
        self.ip + 1
    }

    /// Move the data pointer one cell to the right, wrapping from the last
    /// cell to the first, and hand back the position of the next instruction.
    pub fn mem_next(&mut self) -> (next_ip: usize)
        requires
            old(self).wf(),
            old(self).ip < usize::MAX,
        ensures
            final(self).wf(),
            next_ip == old(self).ip + 1,
            final(self)@ == (MachineState {
                mp: if old(self)@.mp + 1 == old(self)@.mem.len() {
                    0
                } else {
                    old(self)@.mp + 1
                },
                ..old(self)@
            }),
            final(self).program@ == old(self).program@,
    {
        let len = self.memory.len();
        let next_mp = self.mp + 1;
        self.mp = if next_mp == len {
            0
        } else {
            next_mp
        };
        self.ip + 1
    }

    /// Move the data pointer one cell to the left, wrapping from the first
    /// cell to the last, and hand back the position of the next instruction.
    pub fn mem_prev(&mut self) -> (next_ip: usize)
        requires
            old(self).wf(),
            old(self).ip < usize::MAX,
        ensures
            final(self).wf(),
            next_ip == old(self).ip + 1,
            final(self)@ == (MachineState {
                mp: if old(self)@.mp == 0 {
                    old(self)@.mem.len() - 1
                } else {
                    old(self)@.mp - 1
                },
                ..old(self)@
            }),
            final(self).program@ == old(self).program@,
    {
        self.mp = match self.mp {
            0 => self.memory.len() - 1,
            x => x - 1,
        };
        self.ip + 1
    }

    /// Read one byte from the input buffer into the cell at the data
    /// pointer. Fails with an IO error when the buffer is exhausted.
    fn read(&mut self) -> (r: Result<usize, VmError>)
        requires
            old(self).wf(),
            old(self).ip < usize::MAX,
        ensures
            final(self).wf(),
            final(self).program@ == old(self).program@,
            final(self).ip == old(self).ip,
            match r {
                Ok(next_ip) => {
                    &&& old(self)@.input.len() > 0
                    &&& next_ip == old(self).ip + 1
                    &&& final(self)@ == (MachineState {
                        mem: old(self)@.mem.update(old(self)@.mp, old(self)@.input[0]),
                        input: old(self)@.input.skip(1),
                        ..old(self)@
                    })
                },
                Err(e) => {
                    &&& e == VmError::IoError(IoErrorKind::UnexpectedEof)
                    &&& old(self)@.input.len() == 0
                    &&& final(self)@ == old(self)@
                },
            },
    {
        if self.in_pos < self.input.len() {
            let b = self.input[self.in_pos];
            self.in_pos = self.in_pos + 1;
            self.put(b);
            proof {
                assert(self@.input =~= old(self)@.input.skip(1));
                assert(self@ =~= MachineState {
                    mem: old(self)@.mem.update(old(self)@.mp, old(self)@.input[0]),
                    input: old(self)@.input.skip(1),
                    ..old(self)@
                });
            }
            Ok(self.ip + 1)
        } else {
            Err(VmError::IoError(IoErrorKind::UnexpectedEof))
        }
    }

    /// Write the cell at the data pointer as one byte to the output buffer.
    fn write(&mut self) -> (r: Result<usize, VmError>)
        requires
            old(self).wf(),
            old(self).ip < usize::MAX,
        ensures
            final(self).wf(),
            final(self).program@ == old(self).program@,
            final(self).ip == old(self).ip,
            r == Ok::<usize, VmError>((old(self).ip + 1) as usize),
            final(self)@ == (MachineState {
                output: old(self)@.output.push(old(self)@.mem[old(self)@.mp]),
                ..old(self)@
            }),
    {
        let data = self.get();
        self.output.push(data);
        proof {
            assert(self@ =~= MachineState {
                output: old(self)@.output.push(old(self)@.mem[old(self)@.mp]),
                ..old(self)@
            });
        }
        Ok(self.ip + 1)
    }

    /// Execute a `LoopForward` at the instruction pointer: step into the
    /// loop when the current cell is nonzero, otherwise scan forward for
    /// the matching `LoopBack`, tracking nesting depth, and hand back the
    /// position just past it. Fails with `NoLoopEnd` when the program ends
    /// before the match.
    #[verifier::loop_isolation(false)]
    fn loop_zero(&mut self) -> (r: Result<usize, VmError>)
        requires
            old(self).wf(),
            old(self).ip < old(self).program@.len(),
            old(self).program@[old(self).ip as int] == Operation::LoopForward,
        ensures
            final(self).wf(),
            final(self).memory@ == old(self).memory@,
            final(self).mp == old(self).mp,
            final(self).program@ == old(self).program@,
            final(self).input@ == old(self).input@,
            final(self).in_pos == old(self).in_pos,
            final(self).output@ == old(self).output@,
            match r {
                Ok(next_ip) => {
                    &&& next_ip <= old(self).program@.len()
                    &&& if old(self)@.mem[old(self)@.mp] != 0 {
                        next_ip == old(self).ip + 1
                    } else {
                        find_loop_end(old(self).program@, old(self).ip + 1, 0) == Some(
                            next_ip - 1,
                        )
                    }
                },
                Err(e) => {
                    &&& e == VmError::NoLoopEnd
                    &&& old(self)@.mem[old(self)@.mp] == 0
                    &&& find_loop_end(old(self).program@, old(self).ip + 1, 0) is None
                },
            },
    {
        proof {
            assert(self.program.len() == self.program@.len());
        }
        if self.get() != 0 {
            return Ok(self.ip + 1);
        }
        match self.ip_next() {
            Ok(_) => {},
            Err(_) => {
                return Err(VmError::NoLoopEnd);
            },
        }
        let mut nested: usize = 0;
        loop
            invariant
                self.wf(),
                self.memory@ == old(self).memory@,
                self.mp == old(self).mp,
                self.program@ == old(self).program@,
                self.input@ == old(self).input@,
                self.in_pos == old(self).in_pos,
                self.output@ == old(self).output@,
                self.ip < self.program@.len(),
                nested < self.ip,
                find_loop_end(self.program@, self.ip as int, nested as nat) == find_loop_end(
                    old(self).program@,
                    old(self).ip + 1,
                    0,
                ),
            decreases self.program@.len() - self.ip,
        {
            let ghost entry_ip = self.ip as int;
            let ghost entry_nested = nested as nat;
            match self.operation() {
                Some(Operation::LoopForward) => {
                    nested = nested + 1;
                },
                Some(Operation::LoopBack) => {
                    if nested == 0 {
                        return Ok(self.ip + 1);
                    }
                    nested = nested - 1;
                },
                _ => {},
            }
            proof {
                assert(find_loop_end(self.program@, entry_ip, entry_nested) == find_loop_end(
                    self.program@,
                    entry_ip + 1,
                    nested as nat,
                ));
            }
            match self.ip_next() {
                Ok(_) => {},
                Err(_) => {
                    return Err(VmError::NoLoopEnd);
                },
            }
        }
    }

    /// Execute a `LoopBack` at the instruction pointer: leave the loop when
    /// the current cell is zero, otherwise scan backward for the matching
    /// `LoopForward`, tracking nesting depth, and hand back the position
    /// just past it. Fails with `NoLoopStart` when the program start is
    /// passed before the match.
    #[verifier::loop_isolation(false)]
    fn loop_back_nz(&mut self) -> (r: Result<usize, VmError>)
        requires
            old(self).wf(),
            old(self).ip < old(self).program@.len(),
            old(self).program@[old(self).ip as int] == Operation::LoopBack,
        ensures
            final(self).wf(),
            final(self).memory@ == old(self).memory@,
            final(self).mp == old(self).mp,
            final(self).program@ == old(self).program@,
            final(self).input@ == old(self).input@,
            final(self).in_pos == old(self).in_pos,
            final(self).output@ == old(self).output@,
            match r {
                Ok(next_ip) => {
                    &&& next_ip <= old(self).program@.len()
                    &&& if old(self)@.mem[old(self)@.mp] == 0 {
                        next_ip == old(self).ip + 1
                    } else {
                        find_loop_start(old(self).program@, old(self).ip - 1, 0) == Some(
                            next_ip - 1,
                        )
                    }
                },
                Err(e) => {
                    &&& e == VmError::NoLoopStart
                    &&& old(self)@.mem[old(self)@.mp] != 0
                    &&& find_loop_start(old(self).program@, old(self).ip - 1, 0) is None
                },
            },
    {
        proof {
            assert(self.program.len() == self.program@.len());
        }
        if self.get() == 0 {
            return Ok(self.ip + 1);
        }
        match self.ip_prev() {
            Ok(_) => {},
            Err(_) => {
                return Err(VmError::NoLoopStart);
            },
        }
        let mut nested: usize = 0;
        loop
            invariant
                self.wf(),
                self.memory@ == old(self).memory@,
                self.mp == old(self).mp,
                self.program@ == old(self).program@,
                self.input@ == old(self).input@,
                self.in_pos == old(self).in_pos,
                self.output@ == old(self).output@,
                self.ip < self.program@.len(),
                nested + self.ip < old(self).ip,
                find_loop_start(self.program@, self.ip as int, nested as nat) == find_loop_start(
                    old(self).program@,
                    old(self).ip - 1,
                    0,
                ),
            decreases self.ip,
        {
            let ghost entry_ip = self.ip as int;
            let ghost entry_nested = nested as nat;
            match self.operation() {
                Some(Operation::LoopBack) => {
                    nested = nested + 1;
                },
                Some(Operation::LoopForward) => {
                    if nested == 0 {
                        return Ok(self.ip + 1);
                    }
                    nested = nested - 1;
                },
                _ => {},
            }
            proof {
                assert(find_loop_start(self.program@, entry_ip, entry_nested) == find_loop_start(
                    self.program@,
                    entry_ip - 1,
                    nested as nat,
                ));
            }
            match self.ip_prev() {
                Ok(_) => {},
                Err(_) => {
                    return Err(VmError::NoLoopStart);
                },
            }
        }
    }

    /// Move the instruction pointer one operation back during a backward
    /// scan; fails when it already stands on the first operation.
    fn ip_prev(&mut self) -> (r: Result<usize, VmError>)
        ensures
            final(self).memory@ == old(self).memory@,
            final(self).mp == old(self).mp,
            final(self).program@ == old(self).program@,
            final(self).input@ == old(self).input@,
            final(self).in_pos == old(self).in_pos,
            final(self).output@ == old(self).output@,
            match r {
                Ok(i) => {
                    &&& old(self).ip > 0
                    &&& i == old(self).ip - 1
                    &&& final(self).ip == old(self).ip - 1
                },
                Err(e) => {
                    &&& e == VmError::OutOfProgramMemory
                    &&& old(self).ip == 0
                    &&& final(self).ip == old(self).ip
                },
            },
    {
        if self.ip > 0 {
            self.ip = self.ip - 1;
            return Ok(self.ip);
        }
        Err(VmError::OutOfProgramMemory)
    }

    /// Move the instruction pointer one operation forward during a forward
    /// scan; fails when it already stands on the last operation.
    fn ip_next(&mut self) -> (r: Result<usize, VmError>)
        requires
            old(self).program@.len() >= 1,
        ensures
            final(self).memory@ == old(self).memory@,
            final(self).mp == old(self).mp,
            final(self).program@ == old(self).program@,
            final(self).input@ == old(self).input@,
            final(self).in_pos == old(self).in_pos,
            final(self).output@ == old(self).output@,
            match r {
                Ok(i) => {
                    &&& old(self).ip + 1 < old(self).program@.len()
                    &&& i == old(self).ip + 1
                    &&& final(self).ip == old(self).ip + 1
                },
                Err(e) => {
                    &&& e == VmError::OutOfProgramMemory
                    &&& old(self).ip + 1 >= old(self).program@.len()
                    &&& final(self).ip == old(self).ip
                },
            },
    {
        if self.ip < self.program.len() - 1 {
            self.ip = self.ip + 1;
            return Ok(self.ip);
        }
        Err(VmError::OutOfProgramMemory)
    }
}

impl Vm for StandardVm {
    type Operation = Operation;

    type Error = VmError;

    /// The machine is fit to run whenever it is well formed.
    open spec fn ready(&self) -> bool {
        self.wf()
    }

    /// Run the program in the virtual machine.
    ///
    /// The tape and both pointers are reset, then operations are fetched
    /// and executed one by one, following the small-step semantics: the
    /// outcome and the final state are exactly those that [`run_fuel`]
    /// assigns to the program on a fresh start state with the machine's
    /// current input and output buffers. A run that is still going after
    /// [`STEP_BUDGET`] operations — which no feasible computation is —
    /// gives up with [`VmError::StepLimit`].
    #[verifier::loop_isolation(false)]
    fn run(&mut self, program: Vec<Operation>) -> (r: Result<(), VmError>)
        ensures
            final(self).wf(),
            final(self).program@ == program@,
            final(self).memory@.len() == old(self).memory@.len(),
            match r {
                Ok(()) => {
                    &&& final(self).ip == program@.len()
                    &&& (exists|n: nat|
                        run_fuel(
                            program@,
                            start_state(
                                old(self).memory@.len(),
                                old(self)@.input,
                                old(self)@.output,
                            ),
                            n,
                        ) == Some(Ok::<MachineState, VmError>(final(self)@)))
                },
                Err(e) => {
                    ||| (exists|n: nat|
                        run_fuel(
                            program@,
                            start_state(
                                old(self).memory@.len(),
                                old(self)@.input,
                                old(self)@.output,
                            ),
                            n,
                        ) == Some(Err::<MachineState, VmError>(e)))
                    ||| (e == VmError::StepLimit && run_fuel(
                        program@,
                        start_state(old(self).memory@.len(), old(self)@.input, old(self)@.output),
                        STEP_BUDGET as nat,
                    ) == None::<Result<MachineState, VmError>>)
                },
            },
    {
        self.reset();
        self.program = program;
        let ghost init = self@;
        let ghost start = start_state(
            old(self).memory@.len(),
            old(self)@.input,
            old(self)@.output,
        );
        proof {
            assert(self.program.len() == self.program@.len());
            assert(init =~= start);
        }
        let ghost mut steps: nat = 0;
        let mut fuel: u128 = STEP_BUDGET;
        loop
            invariant
                self.wf(),
                self.program@ == program@,
                self.memory@.len() == old(self).memory@.len(),
                steps + fuel == STEP_BUDGET,
                advance(program@, init, steps) == Some(self@),
            decreases fuel,
        {
            let ghost pre = self@;
            match self.operation() {
                None => {
                    proof {
                        lemma_advance_to_halt(program@, init, steps, pre);
                    }
                    return Ok(());
                },
                Some(op) => {
                    if fuel == 0 {
                        proof {
                            lemma_advance_still_running(program@, init, steps, pre);
                        }
                        return Err(VmError::StepLimit);
                    }
                    let next_ip = match op {
                        Operation::Inc => self.inc(),
                        Operation::Dec => self.dec(),
                        Operation::Next => self.mem_next(),
                        Operation::Prev => self.mem_prev(),
                        Operation::In => match self.read() {
                            Ok(i) => i,
                            Err(e) => {
                                proof {
                                    assert(step(program@, pre) == Err::<MachineState, VmError>(
                                        e,
                                    ));
                                    lemma_advance_to_err(program@, init, steps, pre, e);
                                }
                                return Err(e);
                            },
                        },
                        Operation::Out => match self.write() {
                            Ok(i) => i,
                            Err(e) => {
                                proof {
                                    assert(false);
                                }
                                return Err(e);
                            },
                        },
                        Operation::LoopForward => match self.loop_zero() {
                            Ok(i) => i,
                            Err(e) => {
                                proof {
                                    assert(step(program@, pre) == Err::<MachineState, VmError>(
                                        e,
                                    ));
                                    lemma_advance_to_err(program@, init, steps, pre, e);
                                }
                                return Err(e);
                            },
                        },
                        Operation::LoopBack => match self.loop_back_nz() {
                            Ok(i) => i,
                            Err(e) => {
                                proof {
                                    assert(step(program@, pre) == Err::<MachineState, VmError>(
                                        e,
                                    ));
                                    lemma_advance_to_err(program@, init, steps, pre, e);
                                }
                                return Err(e);
                            },
                        },
                    };
                    self.ip = next_ip;
                    fuel = fuel - 1;
                    proof {
                        assert(step(program@, pre) == Ok::<MachineState, VmError>(self@));
                        lemma_advance_extend(program@, init, steps, pre, self@);
                        steps = steps + 1;
                    }
                },
            }
        }
    }
}

impl Default for StandardVm {
    /// Create a machine with the default amount of memory and empty input
    /// and output buffers.
    fn default() -> (vm: Self)
        ensures
            vm.wf(),
            vm@ == start_state(DEFAULT_MEMORY_SIZE as nat, Seq::<u8>::empty(), Seq::<u8>::empty()),
            vm.program@ == Seq::<Operation>::empty(),
            vm.memory@.len() == DEFAULT_MEMORY_SIZE,
            vm.in_pos == 0,
    {
        StandardVm::new()
    }
}

/// Builder for the standard machine: collects an optional memory size and
/// optional input and output buffers, and defaults whatever is left unset.
pub struct StandardVmBuilder {
    /// The chosen number of tape cells, when one was chosen.
    pub mem_size: Option<usize>,
    /// The chosen output buffer, when one was chosen.
    pub output: Option<Vec<u8>>,
    /// The chosen input buffer, when one was chosen.
    pub input: Option<Vec<u8>>,
}

/// The number of tape cells a builder will give its machine.
pub open spec fn built_memory_size(b: &StandardVmBuilder) -> usize {
    match b.mem_size {
        Some(size) => size,
        None => DEFAULT_MEMORY_SIZE,
    }
}

/// The input bytes a builder will give its machine.
pub open spec fn built_input(b: &StandardVmBuilder) -> Seq<u8> {
    match b.input {
        Some(input) => input@,
        None => Seq::empty(),
    }
}

/// The output bytes a builder's machine will start from.
pub open spec fn built_output(b: &StandardVmBuilder) -> Seq<u8> {
    match b.output {
        Some(output) => output@,
        None => Seq::empty(),
    }
}

impl StandardVmBuilder {
    /// Create a virtual machine builder with nothing chosen yet.
    pub fn new() -> (b: Self)
        ensures
            b.mem_size is None,
            b.output is None,
            b.input is None,
    {
        StandardVmBuilder { mem_size: None, output: None, input: None }
    }

    /// Choose the amount of memory, a positive number of cells, to be used
    /// by the machine.
    pub fn with_memory_size(self, size: usize) -> (b: Self)
        requires
            size > 0,
        ensures
            b.mem_size == Some(size),
            b.output == self.output,
            b.input == self.input,
    {
        let mut b = self;
        b.mem_size = Some(size);
        b
    }

    /// Choose the output buffer emitted bytes are appended to.
    pub fn with_output(self, output: Vec<u8>) -> (b: Self)
        ensures
            b.mem_size == self.mem_size,
            b.output matches Some(o) && o@ == output@,
            b.input == self.input,
    {
        let mut b = self;
        b.output = Some(output);
        b
    }

    /// Choose the input buffer `,` operations consume from the front.
    pub fn with_input(self, input: Vec<u8>) -> (b: Self)
        ensures
            b.mem_size == self.mem_size,
            b.output == self.output,
            b.input matches Some(i) && i@ == input@,
    {
        let mut b = self;
        b.input = Some(input);
        b
    }

    /// Build the configured virtual machine.
    ///
    /// Any parameter that was not chosen gets its default value: 30000
    /// cells of memory, an empty input buffer, an empty output buffer.
    pub fn build(self) -> (vm: StandardVm)
        requires
            self.mem_size matches Some(size) ==> size > 0,
        ensures
            vm.wf(),
            vm@ == start_state(built_memory_size(&self) as nat, built_input(&self), built_output(&self)),
            vm.program@ == Seq::<Operation>::empty(),
            vm.memory@.len() == built_memory_size(&self),
            vm.in_pos == 0,
    {
        let mem_size = match self.mem_size {
            Some(size) => size,
            None => DEFAULT_MEMORY_SIZE,
        };
        let output = match self.output {
            Some(output) => output,
            None => Vec::new(),
        };
        let input = match self.input {
            Some(input) => input,
            None => Vec::new(),
        };
        let vm = StandardVm {
            memory: vec![0u8; mem_size],
            mp: 0,
            program: Vec::new(),
            ip: 0,
            output,
            input,
            in_pos: 0,
        };
        proof {
            assert(vm@ =~= start_state(
                built_memory_size(&self) as nat,
                built_input(&self),
                built_output(&self),
            ));
        }
        vm
    }
}

impl Default for StandardVmBuilder {
    /// Create a builder with nothing chosen yet.
    fn default() -> (b: Self)
        ensures
            b.mem_size is None,
            b.output is None,
            b.input is None,
    {
        StandardVmBuilder::new()
    }
}

} // verus!
