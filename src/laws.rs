//! Properties of the machine that relate several instructions, steps or
//! ticks, stated over the specifications of `cpu` and proved.
use vstd::prelude::*;
use crate::cpu::{
    execute_spec, fetch_spec, first_key_down_from, step_spec, tick_spec, CpuState, Mode,
    STACK_DEPTH,
};
use crate::instruction::Instruction;
use crate::memory::ExecFault;

verus! {

/// Executes `prog` instruction after instruction from `s`, stopping at the
/// first fault.
pub open spec fn run(s: CpuState, prog: Seq<Instruction>, rnd: u8) -> Result<CpuState, ExecFault>
    decreases prog.len(),
{
    if prog.len() == 0 {
        Ok(s)
    } else {
        match execute_spec(s, prog[0], rnd) {
            Ok(t) => run(t, prog.drop_first(), rnd),
            Err(f) => Err(f),
        }
    }
}

/// One call to each of `targets`, in order.
pub open spec fn calls(targets: Seq<u16>) -> Seq<Instruction> {
    Seq::new(targets.len(), |k: int| Instruction::Call { addr: targets[k] })
}

/// `n` returns.
pub open spec fn rets(n: nat) -> Seq<Instruction> {
    Seq::new(n, |k: int| Instruction::Ret)
}

/// `n` steps from `s`.
pub open spec fn steps(s: CpuState, n: nat, rnd: u8) -> CpuState
    decreases n,
{
    if n == 0 {
        s
    } else {
        step_spec(steps(s, (n - 1) as nat, rnd), rnd).0
    }
}

/// `n` timer ticks from `s`.
pub open spec fn ticks(s: CpuState, n: nat) -> CpuState
    decreases n,
{
    if n == 0 {
        s
    } else {
        tick_spec(ticks(s, (n - 1) as nat))
    }
}

/// Running `p` and then `q` is running `p + q`.
pub proof fn lemma_run_append(s: CpuState, p: Seq<Instruction>, q: Seq<Instruction>, rnd: u8)
    ensures
        run(s, p + q, rnd) == match run(s, p, rnd) {
            Ok(t) => run(t, q, rnd),
            Err(f) => Err(f),
        },
    decreases p.len(),
{
    if p.len() > 0 {
        assert((p + q).drop_first() =~= p.drop_first() + q);
        assert((p + q)[0] == p[0]);
        if let Ok(t) = execute_spec(s, p[0], rnd) {
            lemma_run_append(t, p.drop_first(), q, rnd);
        }
    } else {
        assert(p + q =~= q);
    }
}

proof fn lemma_run_single(s: CpuState, ins: Instruction, rnd: u8)
    ensures
        run(s, seq![ins], rnd) == execute_spec(s, ins, rnd),
{
    assert(seq![ins].drop_first() =~= Seq::<Instruction>::empty());
    if let Ok(t) = execute_spec(s, ins, rnd) {
        assert(run(t, Seq::<Instruction>::empty(), rnd) == Ok::<CpuState, ExecFault>(t));
    }
}

proof fn lemma_execute_call(s: CpuState, addr: u16, rnd: u8)
    ensures
        execute_spec(s, Instruction::Call { addr }, rnd) == if s.stack.len() >= STACK_DEPTH {
            Err::<CpuState, ExecFault>(ExecFault::StackOverflow)
        } else {
            Ok(CpuState { pc: addr, stack: s.stack.push((s.pc + 2) as u16), ..s })
        },
{
    reveal(execute_spec);
}

proof fn lemma_execute_ret(s: CpuState, rnd: u8)
    ensures
        execute_spec(s, Instruction::Ret, rnd) == if s.stack.len() == 0 {
            Err::<CpuState, ExecFault>(ExecFault::StackUnderflow)
        } else {
            Ok(CpuState { pc: s.stack.last(), stack: s.stack.drop_last(), ..s })
        },
{
    reveal(execute_spec);
}

/// Calls and returns balance: `n` calls followed by `n` returns, with room
/// on the stack for the calls, leave the stack as it was and the program
/// counter at the instruction after the first call; every other part of the
/// state is unchanged.
pub proof fn lemma_calls_then_returns(s: CpuState, targets: Seq<u16>, rnd: u8)
    requires
        s.stack.len() + targets.len() <= STACK_DEPTH,
    ensures
        run(s, calls(targets) + rets(targets.len()), rnd) == Ok::<CpuState, ExecFault>(
            if targets.len() == 0 {
                s
            } else {
                CpuState { pc: (s.pc + 2) as u16, ..s }
            },
        ),
    decreases targets.len(),
{
    let n = targets.len();
    if n == 0 {
        assert(calls(targets) + rets(0) =~= Seq::<Instruction>::empty());
    } else {
        let ret_addr = (s.pc + 2) as u16;
        let s1 = CpuState { pc: targets[0], stack: s.stack.push(ret_addr), ..s };
        let rest = targets.drop_first();
        let inner = calls(rest) + rets(rest.len());
        let first = seq![Instruction::Call { addr: targets[0] }];
        let last = seq![Instruction::Ret];
        lemma_calls_then_returns(s1, rest, rnd);
        lemma_execute_call(s, targets[0], rnd);
        assert(calls(targets) + rets(n) =~= first + (inner + last));
        lemma_run_append(s, first, inner + last, rnd);
        lemma_run_single(s, first[0], rnd);
        assert(first =~= seq![first[0]]);
        lemma_run_append(s1, inner, last, rnd);
        let s2 = if rest.len() == 0 {
            s1
        } else {
            CpuState { pc: (s1.pc + 2) as u16, ..s1 }
        };
        assert(s2.stack == s.stack.push(ret_addr));
        lemma_execute_ret(s2, rnd);
        assert(s.stack.push(ret_addr).drop_last() =~= s.stack);
        lemma_run_single(s2, Instruction::Ret, rnd);
        assert(run(s2, last, rnd) == Ok::<CpuState, ExecFault>(CpuState { pc: ret_addr, ..s }));
    }
}

/// Calls alone: while the stack has room each call pushes one return
/// address; the first call that finds the stack full raises
/// `StackOverflow`.
pub proof fn lemma_calls_fill_stack(s: CpuState, targets: Seq<u16>, rnd: u8)
    ensures
        s.stack.len() + targets.len() <= STACK_DEPTH ==> run(s, calls(targets), rnd) is Ok
            && run(s, calls(targets), rnd)->Ok_0.stack.len() == s.stack.len() + targets.len(),
        s.stack.len() <= STACK_DEPTH < s.stack.len() + targets.len() ==> run(s, calls(targets), rnd)
            == Err::<CpuState, ExecFault>(ExecFault::StackOverflow),
    decreases targets.len(),
{
    if targets.len() > 0 {
        assert(calls(targets).drop_first() =~= calls(targets.drop_first()));
        lemma_execute_call(s, targets[0], rnd);
        if s.stack.len() < STACK_DEPTH {
            let s1 = CpuState {
                pc: targets[0],
                stack: s.stack.push((s.pc + 2) as u16),
                ..s
            };
            lemma_calls_fill_stack(s1, targets.drop_first(), rnd);
        }
    }
}

/// Seventeen calls in a row from an empty stack: the first sixteen fill the
/// stack, and the seventeenth raises `StackOverflow`.
pub proof fn lemma_seventeenth_call_overflows(s: CpuState, targets: Seq<u16>, rnd: u8)
    requires
        s.stack.len() == 0,
        targets.len() == STACK_DEPTH + 1,
    ensures
        run(s, calls(targets.take(16)), rnd) is Ok,
        run(s, calls(targets.take(16)), rnd)->Ok_0.stack.len() == STACK_DEPTH,
        run(s, calls(targets), rnd) == Err::<CpuState, ExecFault>(ExecFault::StackOverflow),
{
    lemma_calls_fill_stack(s, targets.take(16), rnd);
    lemma_calls_fill_stack(s, targets, rnd);
}

/// A fault halts the machine for good: the step that raises it leaves the
/// machine halted with that fault, and every later step changes nothing and
/// returns the same fault.
pub proof fn lemma_fault_halts(s: CpuState, rnd: u8, later: u8)
    ensures
        step_spec(s, rnd).1 matches Err(f) ==> step_spec(s, rnd).0.mode == Mode::Halted(f)
            && step_spec(step_spec(s, rnd).0, later) == step_spec(s, rnd),
{
}

/// Timers stop at zero: any number of ticks leaves a timer that is at zero
/// at zero.
pub proof fn lemma_timer_floor(s: CpuState, n: nat)
    ensures
        s.delay == 0 ==> ticks(s, n).delay == 0,
        s.sound == 0 ==> ticks(s, n).sound == 0,
    decreases n,
{
    if n > 0 {
        lemma_timer_floor(s, (n - 1) as nat);
    }
}

proof fn lemma_no_key_down(keys: Seq<bool>, k: int)
    requires
        0 <= k,
        forall|j: int| k <= j < 16 ==> !keys[j],
    ensures
        first_key_down_from(keys, k) is None,
    decreases 16 - k,
{
    if k < 16 {
        lemma_no_key_down(keys, k + 1);
    }
}

proof fn lemma_lowest_key_down(keys: Seq<bool>, j: int, k: int)
    requires
        0 <= j <= k < 16,
        keys[k],
        forall|i: int| j <= i < k ==> !keys[i],
    ensures
        first_key_down_from(keys, j) == Some(k as u8),
    decreases k - j,
{
    if j < k {
        lemma_lowest_key_down(keys, j + 1, k);
    }
}

/// Waiting for a key: a `WaitKey` fetched with no key down leaves the
/// program counter where it is and the machine waiting, and any number of
/// further steps with no key down change nothing.
pub proof fn lemma_wait_without_key(s: CpuState, x: u8, n: nat, rnd: u8)
    requires
        s.mode == Mode::Running,
        fetch_spec(s) == Ok::<Instruction, ExecFault>(Instruction::WaitKey { x }),
        forall|k: int| 0 <= k < 16 ==> !s.keys[k],
    ensures
        step_spec(s, rnd) == (CpuState { mode: Mode::AwaitingKey(x), ..s }, Ok::<(), ExecFault>(())),
        steps(step_spec(s, rnd).0, n, rnd) == step_spec(s, rnd).0,
    decreases n,
{
    reveal(execute_spec);
    lemma_no_key_down(s.keys, 0);
    if n > 0 {
        lemma_wait_without_key(s, x, (n - 1) as nat, rnd);
    }
}

/// A key press ends the wait: the next step stores the lowest key that is
/// down in the waiting register, moves the program counter on by 2 and
/// resumes running.
pub proof fn lemma_key_press_ends_wait(s: CpuState, x: u8, k: u8, rnd: u8)
    requires
        s.mode == Mode::AwaitingKey(x),
        k < 16,
        s.keys[k as int],
        forall|j: int| 0 <= j < k ==> !s.keys[j],
    ensures
        step_spec(s, rnd) == (
            CpuState {
                v: s.v.update(x as int, k),
                pc: (s.pc + 2) as u16,
                mode: Mode::Running,
                ..s
            },
            Ok::<(), ExecFault>(()),
        ),
{
    lemma_lowest_key_down(s.keys, 0, k as int);
}

} // verus!
