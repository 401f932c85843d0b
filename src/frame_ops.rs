//! Instructions that only touch the current frame: constants, locals, operand
//! stack shuffles, integer arithmetic and branches.
use vstd::prelude::*;
use crate::error::VmError;
use crate::stack::{i16_of, i8_of, StackFrame};
use crate::value::{int_value, Value};

verus! {

/// A frame's program counter, operand stack and locals.
pub type FrameState = (int, Seq<Value>, Seq<Value>);

/// Whether the instruction `op` only touches the current frame.
pub open spec fn is_frame_op(op: u8) -> bool {
    op == 1 || 2 <= op <= 8 || op == 16 || op == 21 || 26 <= op <= 29 || 42 <= op <= 45 || op == 54 || op == 58
        || 59 <= op <= 62 || 75 <= op <= 78 || op == 87 || op == 89 || op == 90 || op == 96 || op == 100 || op
        == 132 || 153 <= op <= 164 || op == 167 || op == 198 || op == 199
}

/// Whether the instruction `op` only touches the current frame.
pub fn is_frame_opcode(op: u8) -> (r: bool)
    ensures
        r == is_frame_op(op),
{
    op == 1 || (2 <= op && op <= 8) || op == 16 || op == 21 || (26 <= op && op <= 29) || (42 <= op && op <= 45)
        || op == 54 || op == 58 || (59 <= op && op <= 62) || (75 <= op && op <= 78) || op == 87 || op == 89
        || op == 90 || op == 96 || op == 100 || op == 132 || (153 <= op && op <= 164) || op == 167 || op == 198
        || op == 199
}

/// Pushes `v` and continues at `next`, unless the operand stack is full.
pub open spec fn pushed(next: int, st: Seq<Value>, lo: Seq<Value>, cap: int, v: Value) -> Option<FrameState> {
    if st.len() < cap {
        Some((next, st.push(v), lo))
    } else {
        None
    }
}

/// The local index an instruction names, and where the next instruction starts.
pub open spec fn local_operand(code: Seq<u8>, pc: int) -> Option<(int, int)> {
    let op = code[pc];
    if op == 21 || op == 54 || op == 58 {
        if pc + 1 < code.len() {
            Some((code[pc + 1] as int, pc + 2))
        } else {
            None
        }
    } else if 26 <= op <= 29 {
        Some((op - 26, pc + 1))
    } else if 42 <= op <= 45 {
        Some((op - 42, pc + 1))
    } else if 59 <= op <= 62 {
        Some((op - 59, pc + 1))
    } else {
        Some((op - 75, pc + 1))
    }
}

/// Whether the two-byte branch operand after `pc` can be read.
pub open spec fn offset_readable(code: Seq<u8>, pc: int) -> bool {
    pc + 2 < code.len()
}

/// The jump target of a branch at `pc`: its signed operand added to `pc`.
pub open spec fn jump_target(code: Seq<u8>, pc: int) -> int {
    pc + i16_of(code[pc + 1], code[pc + 2])
}

/// Whether an integer comparison holds: `op` selects eq, ne, lt, ge, gt, le.
pub open spec fn compares(k: int, a: i32, b: i32) -> bool {
    if k == 0 {
        a == b
    } else if k == 1 {
        a != b
    } else if k == 2 {
        a < b
    } else if k == 3 {
        a >= b
    } else if k == 4 {
        a > b
    } else {
        a <= b
    }
}

/// Continues at the jump target when `taken`, else after the three-byte branch.
pub open spec fn branch(code: Seq<u8>, pc: int, st: Seq<Value>, lo: Seq<Value>, taken: bool) -> Option<FrameState> {
    if !offset_readable(code, pc) {
        None
    } else if !taken {
        Some((pc + 3, st, lo))
    } else if 0 <= jump_target(code, pc) <= usize::MAX {
        Some((jump_target(code, pc), st, lo))
    } else {
        None
    }
}

/// The effect of the frame-only instruction at `pc`; `None` when it cannot run
/// (operand missing or of the wrong kind, stack full, local or code out of range).
pub open spec fn frame_step(code: Seq<u8>, pc: int, st: Seq<Value>, lo: Seq<Value>, cap: int) -> Option<FrameState> {
    let op = code[pc];
    let n = st.len();
    if op == 1 {
        pushed(pc + 1, st, lo, cap, Value::Reference(0))
    } else if 2 <= op <= 8 {
        pushed(pc + 1, st, lo, cap, Value::Int((op - 3) as i32))
    } else if op == 16 {
        if pc + 1 < code.len() {
            pushed(pc + 2, st, lo, cap, Value::Int(code[pc + 1] as i32))
        } else {
            None
        }
    } else if op == 21 || 26 <= op <= 29 || 42 <= op <= 45 {
        match local_operand(code, pc) {
            Some((idx, next)) => if idx < lo.len() {
                pushed(next, st, lo, cap, lo[idx])
            } else {
                None
            },
            None => None,
        }
    } else if op == 54 || op == 58 || 59 <= op <= 62 || 75 <= op <= 78 {
        match local_operand(code, pc) {
            Some((idx, next)) => if idx < lo.len() && n > 0 {
                Some((next, st.drop_last(), lo.update(idx, st.last())))
            } else {
                None
            },
            None => None,
        }
    } else if op == 87 {
        if n > 0 {
            Some((pc + 1, st.drop_last(), lo))
        } else {
            None
        }
    } else if op == 89 {
        if 0 < n < cap {
            Some((pc + 1, st.push(st.last()), lo))
        } else {
            None
        }
    } else if op == 90 {
        if 1 < n < cap {
            Some((pc + 1, st.drop_last().drop_last().push(st.last()).push(st[n - 2]).push(st.last()), lo))
        } else {
            None
        }
    } else if op == 96 || op == 100 {
        if n >= 2 && int_value(st[n - 2]) is Some && int_value(st.last()) is Some {
            let a = int_value(st[n - 2]).unwrap();
            let b = int_value(st.last()).unwrap();
            let v = if op == 96 {
                a.wrapping_add(b)
            } else {
                a.wrapping_sub(b)
            };
            pushed(pc + 1, st.drop_last().drop_last(), lo, cap, Value::Int(v))
        } else {
            None
        }
    } else if op == 132 {
        if pc + 2 < code.len() && (code[pc + 1] as int) < lo.len() && int_value(lo[code[pc + 1] as int]) is Some {
            let idx = code[pc + 1] as int;
            let v = int_value(lo[idx]).unwrap();
            Some((pc + 3, st, lo.update(idx, Value::Int(v.wrapping_add(i8_of(code[pc + 2]) as i32)))))
        } else {
            None
        }
    } else if 153 <= op <= 158 {
        if n > 0 && int_value(st.last()) is Some {
            branch(code, pc, st.drop_last(), lo, compares(op - 153, int_value(st.last()).unwrap(), 0))
        } else {
            None
        }
    } else if 159 <= op <= 164 {
        if n >= 2 && int_value(st[n - 2]) is Some && int_value(st.last()) is Some {
            branch(
                code,
                pc,
                st.drop_last().drop_last(),
                lo,
                compares(op - 159, int_value(st[n - 2]).unwrap(), int_value(st.last()).unwrap()),
            )
        } else {
            None
        }
    } else if op == 167 {
        branch(code, pc, st, lo, true)
    } else if op == 198 || op == 199 {
        if n > 0 && st.last() is Reference {
            branch(code, pc, st.drop_last(), lo, (st.last()->Reference_0 == 0) == (op == 198))
        } else {
            None
        }
    } else {
        None
    }
}

/// Whether `f2` is `f` with the program counter, operand stack and locals of `s`.
pub open spec fn frame_is(f: StackFrame, f2: StackFrame, s: FrameState) -> bool {
    &&& f2.pc as int == s.0
    &&& f2.stack@ == s.1
    &&& f2.locals@ == s.2
    &&& f2.max_stack == f.max_stack
    &&& f2.cp_offset == f.cp_offset
    &&& f2.class_method_idxs == f.class_method_idxs
    &&& f2.modifiers == f.modifiers
    &&& f2.instantiated == f.instantiated
}

fn compare_exec(k: u8, a: i32, b: i32) -> (r: bool)
    ensures
        r == compares(k as int, a, b),
{
    if k == 0 {
        a == b
    } else if k == 1 {
        a != b
    } else if k == 2 {
        a < b
    } else if k == 3 {
        a >= b
    } else if k == 4 {
        a > b
    } else {
        a <= b
    }
}

fn int_operand(v: Option<Value>) -> (r: Result<i32, VmError>)
    ensures
        !(r matches Err(VmError::UnknownOpcode(_))),
        v is Some && int_value(v.unwrap()) is Some ==> r == Ok::<i32, VmError>(int_value(v.unwrap()).unwrap()),
        !(v is Some && int_value(v.unwrap()) is Some) ==> r is Err,
{
    match v {
        Some(Value::Int(i)) => Ok(i),
        Some(Value::Boolean(i)) => Ok(i),
        _ => Err(VmError::StackCorruption),
    }
}

/// Runs the branch whose opcode was read; `taken` decides.
fn exec_branch(frame: &mut StackFrame, code: &Vec<u8>, taken: bool, Ghost(pc): Ghost<int>) -> (r: Result<(), VmError>)
    requires
        old(frame).pc == pc + 1,
        0 <= pc,
    ensures
        !(r matches Err(VmError::UnknownOpcode(_))),
        *final(frame) == (StackFrame { pc: final(frame).pc, ..*old(frame) }),
        match branch(code@, pc, old(frame).stack@, old(frame).locals@, taken) {
            Some(s) => r is Ok && frame_is(*old(frame), *final(frame), s),
            None => r is Err,
        },
{
    let _n = code.len();
    let start = frame.pc - 1;
    match frame.read_u16(code) {
        Some(raw) => {
            if taken {
                // The operand is signed and counts from the branch's own opcode.
                if raw < 32768 {
                    let forward = raw as usize;
                    if start <= usize::MAX - forward {
                        frame.pc = start + forward;
                        Ok(())
                    } else {
                        Err(VmError::BadCode)
                    }
                } else {
                    let back = (65536 - raw as u32) as usize;
                    if start >= back {
                        frame.pc = start - back;
                        Ok(())
                    } else {
                        Err(VmError::BadCode)
                    }
                }
            } else {
                Ok(())
            }
        },
        None => Err(VmError::BadCode),
    }
}

fn push_checked(frame: &mut StackFrame, v: Value) -> (r: Result<(), VmError>)
    ensures
        !(r matches Err(VmError::UnknownOpcode(_))),
        final(frame).max_stack == old(frame).max_stack,
        old(frame).wf() ==> final(frame).wf(),
        match pushed(old(frame).pc as int, old(frame).stack@, old(frame).locals@, old(frame).max_stack as int, v) {
            Some(s) => r is Ok && frame_is(*old(frame), *final(frame), s),
            None => r is Err,
        },
{
    if frame.push(v) {
        Ok(())
    } else {
        Err(VmError::StackCorruption)
    }
}

/// Runs the frame-only instruction at the program counter.
pub fn exec_frame_op(frame: &mut StackFrame, code: &Vec<u8>) -> (r: Result<(), VmError>)
    requires
        old(frame).pc < code@.len(),
        is_frame_op(code@[old(frame).pc as int]),
    ensures
        !(r matches Err(VmError::UnknownOpcode(_))),
        final(frame).max_stack == old(frame).max_stack,
        old(frame).wf() ==> final(frame).wf(),
        match frame_step(
            code@,
            old(frame).pc as int,
            old(frame).stack@,
            old(frame).locals@,
            old(frame).max_stack as int,
        ) {
            Some(s) => r is Ok && frame_is(*old(frame), *final(frame), s),
            None => r is Err,
        },
{
    let _n = code.len();
    let ghost pc = frame.pc as int;
    let op = match frame.read_u8(code) {
        Some(b) => b,
        None => {
            return Err(VmError::BadCode);
        },
    };
    if op == 1 {
        push_checked(frame, Value::Reference(0))
    } else if 2 <= op && op <= 8 {
        push_checked(frame, Value::Int(op as i32 - 3))
    } else if op == 16 {
        match frame.read_u8(code) {
            Some(b) => push_checked(frame, Value::Int(b as i32)),
            None => Err(VmError::BadCode),
        }
    } else if op == 21 || (26 <= op && op <= 29) || (42 <= op && op <= 45) {
        let idx = if op == 21 {
            match frame.read_u8(code) {
                Some(b) => b,
                None => {
                    return Err(VmError::BadCode);
                },
            }
        } else if op <= 29 {
            op - 26
        } else {
            op - 42
        };
        match frame.get_local(idx) {
            Some(v) => push_checked(frame, v),
            None => Err(VmError::BadCode),
        }
    } else if op == 54 || op == 58 || (59 <= op && op <= 62) || (75 <= op && op <= 78) {
        let idx = if op == 54 || op == 58 {
            match frame.read_u8(code) {
                Some(b) => b,
                None => {
                    return Err(VmError::BadCode);
                },
            }
        } else if op <= 62 {
            op - 59
        } else {
            op - 75
        };
        if (idx as usize) >= frame.locals.len() {
            return Err(VmError::BadCode);
        }
        match frame.pop() {
            Some(v) => {
                frame.set_local(idx, v);
                Ok(())
            },
            None => Err(VmError::StackCorruption),
        }
    } else if op == 87 {
        match frame.pop() {
            Some(_) => Ok(()),
            None => Err(VmError::StackCorruption),
        }
    } else if op == 89 {
        if frame.dup() {
            Ok(())
        } else {
            Err(VmError::StackCorruption)
        }
    } else if op == 90 {
        if frame.dup_x1() {
            Ok(())
        } else {
            Err(VmError::StackCorruption)
        }
    } else if op == 96 || op == 100 {
        if frame.stack.len() < 2 {
            return Err(VmError::StackCorruption);
        }
        let b = int_operand(frame.pop())?;
        let a = int_operand(frame.pop())?;
        let v = if op == 96 {
            a.wrapping_add(b)
        } else {
            a.wrapping_sub(b)
        };
        push_checked(frame, Value::Int(v))
    } else if op == 132 {
        let idx = match frame.read_u8(code) {
            Some(b) => b,
            None => {
                return Err(VmError::BadCode);
            },
        };
        let delta = match frame.read_i8(code) {
            Some(d) => d,
            None => {
                return Err(VmError::BadCode);
            },
        };
        let current = int_operand(frame.get_local(idx))?;
        frame.set_local(idx, Value::Int(current.wrapping_add(delta as i32)));
        Ok(())
    } else if 153 <= op && op <= 158 {
        let v = int_operand(frame.pop())?;
        let taken = compare_exec(op - 153, v, 0);
        exec_branch(frame, code, taken, Ghost(pc))
    } else if 159 <= op && op <= 164 {
        if frame.stack.len() < 2 {
            return Err(VmError::StackCorruption);
        }
        let b = int_operand(frame.pop())?;
        let a = int_operand(frame.pop())?;
        let taken = compare_exec(op - 159, a, b);
        exec_branch(frame, code, taken, Ghost(pc))
    } else if op == 167 {
        exec_branch(frame, code, true, Ghost(pc))
    } else {
        match frame.pop() {
            Some(Value::Reference(h)) => {
                let taken = (h == 0) == (op == 198);
                exec_branch(frame, code, taken, Ghost(pc))
            },
            _ => Err(VmError::StackCorruption),
        }
    }
}

} // verus!
