//! Frames and the frame stack.
use vstd::prelude::*;
use crate::flags::FrameModifiers;
use crate::value::{copy_values, ClassIdx, CodePtr, ConstantPoolIdx, HeapPtr, MethodInClassIdx, Value};

verus! {

/// The value of a big-endian two-byte operand.
pub open spec fn u16_of(hi: u8, lo: u8) -> int {
    hi as int * 256 + lo as int
}

/// A two-byte operand read as signed.
pub open spec fn i16_of(hi: u8, lo: u8) -> int {
    if u16_of(hi, lo) >= 32768 {
        u16_of(hi, lo) - 65536
    } else {
        u16_of(hi, lo)
    }
}

/// A byte read as signed.
pub open spec fn i8_of(b: u8) -> int {
    if b >= 128 {
        b as int - 256
    } else {
        b as int
    }
}

/// One activation record.
pub struct StackFrame {
    pub cp_offset: ConstantPoolIdx,
    pub pc: CodePtr,
    /// The operand stack, top last.
    pub stack: Vec<Value>,
    /// Capacity of the operand stack.
    pub max_stack: usize,
    pub locals: Vec<Value>,
    /// The method this frame executes.
    pub class_method_idxs: (ClassIdx, MethodInClassIdx),
    pub modifiers: FrameModifiers,
    /// Handles allocated while the frame was marked auto-free.
    pub instantiated: Vec<HeapPtr>,
}

/// The frames, innermost last.
pub struct Stack {
    pub frames: Vec<StackFrame>,
}

/// Every frame's operand stack is within its capacity.
pub open spec fn frames_within_capacity(frames: Seq<StackFrame>) -> bool {
    forall|i: int| 0 <= i < frames.len() ==> (#[trigger] frames[i]).wf()
}

impl StackFrame {
    /// Operand stack within its capacity.
    pub open spec fn wf(&self) -> bool {
        self.stack@.len() <= self.max_stack
    }

    /// A frame with an empty operand stack of capacity `stack_size` and
    /// `locals_count` locals holding `Int(0)`.
    pub fn new(stack_size: u16, locals_count: u16) -> (r: StackFrame)
        ensures
            r.stack@.len() == 0,
            r.max_stack == stack_size,
            r.locals@ == Seq::new(locals_count as nat, |i: int| Value::Int(0)),
            r.pc == 0,
            r.cp_offset == 0,
            r.class_method_idxs == (0usize, 0usize),
            r.modifiers.bits == 0,
            r.instantiated@.len() == 0,
            r.wf(),
    {
        let mut locals: Vec<Value> = Vec::new();
        let mut i: u16 = 0;
        while i < locals_count
            invariant
                i <= locals_count,
                locals@ == Seq::new(i as nat, |j: int| Value::Int(0)),
            decreases locals_count - i,
        {
            locals.push(Value::Int(0));
            i = i + 1;
            assert(locals@ =~= Seq::new(i as nat, |j: int| Value::Int(0)));
        }
        StackFrame {
            cp_offset: 0,
            pc: 0,
            stack: Vec::new(),
            max_stack: stack_size as usize,
            locals,
            class_method_idxs: (0, 0),
            modifiers: FrameModifiers::empty(),
            instantiated: Vec::new(),
        }
    }

    /// The operand `offset` places below the top, if there is one.
    pub fn pick(&self, offset: usize) -> (r: Option<Value>)
        ensures
            offset < self.stack@.len() ==> r == Some(self.stack@[self.stack@.len() - 1 - offset]),
            offset >= self.stack@.len() ==> r is None,
    {
        if offset < self.stack.len() {
            Some(self.stack[self.stack.len() - 1 - offset].clone_value())
        } else {
            None
        }
    }

    /// The byte at the program counter, without advancing.
    pub fn pick_u8(&self, code: &Vec<u8>) -> (r: Option<u8>)
        ensures
            self.pc < code@.len() ==> r == Some(code@[self.pc as int]),
            self.pc >= code@.len() ==> r is None,
    {
        if self.pc < code.len() {
            Some(code[self.pc])
        } else {
            None
        }
    }

    /// The byte at the program counter; advances past it.
    pub fn read_u8(&mut self, code: &Vec<u8>) -> (r: Option<u8>)
        ensures
            old(self).pc < code@.len() ==> r == Some(code@[old(self).pc as int])
                && *final(self) == (StackFrame { pc: (old(self).pc + 1) as usize, ..*old(self) }),
            old(self).pc >= code@.len() ==> r is None && *final(self) == *old(self),
    {
        if self.pc < code.len() {
            let b = code[self.pc];
            self.pc = self.pc + 1;
            Some(b)
        } else {
            None
        }
    }

    /// The byte at the program counter read as signed; advances past it.
    pub fn read_i8(&mut self, code: &Vec<u8>) -> (r: Option<i8>)
        ensures
            old(self).pc < code@.len() ==> r is Some && r.unwrap() as int == i8_of(code@[old(self).pc as int])
                && *final(self) == (StackFrame { pc: (old(self).pc + 1) as usize, ..*old(self) }),
            old(self).pc >= code@.len() ==> r is None && *final(self) == *old(self),
    {
        match self.read_u8(code) {
            Some(b) => {
                let v: i8 = if b >= 128 {
                    (b as i16 - 256) as i8
                } else {
                    b as i8
                };
                Some(v)
            },
            None => None,
        }
    }

    /// The big-endian two-byte operand at the program counter; advances past it.
    pub fn read_u16(&mut self, code: &Vec<u8>) -> (r: Option<u16>)
        ensures
            old(self).pc + 1 < code@.len() ==> r is Some
                && r.unwrap() as int == u16_of(code@[old(self).pc as int], code@[old(self).pc + 1])
                && *final(self) == (StackFrame { pc: (old(self).pc + 2) as usize, ..*old(self) }),
            old(self).pc + 1 >= code@.len() ==> r is None && *final(self) == *old(self),
    {
        if self.pc < code.len() && code.len() - self.pc >= 2 {
            let hi = code[self.pc] as u16;
            let lo = code[self.pc + 1] as u16;
            self.pc = self.pc + 2;
            Some(hi * 256 + lo)
        } else {
            None
        }
    }

    /// The signed two-byte jump operand at the program counter, minus the three
    /// bytes of the jump instruction already read; advances past it.
    pub fn read_code_offset(&mut self, code: &Vec<u8>) -> (r: Option<i16>)
        ensures
            old(self).pc + 1 < code@.len() && i16_of(code@[old(self).pc as int], code@[old(self).pc + 1]) >= -32765
                ==> r is Some && r.unwrap() as int == i16_of(code@[old(self).pc as int], code@[old(self).pc + 1]) - 3
                && *final(self) == (StackFrame { pc: (old(self).pc + 2) as usize, ..*old(self) }),
            !(old(self).pc + 1 < code@.len() && i16_of(code@[old(self).pc as int], code@[old(self).pc + 1]) >= -32765)
                ==> r is None && *final(self) == *old(self),
    {
        if self.pc < code.len() && code.len() - self.pc >= 2 {
            let hi = code[self.pc] as i32;
            let lo = code[self.pc + 1] as i32;
            let raw: i32 = hi * 256 + lo;
            let signed: i32 = if raw >= 32768 {
                raw - 65536
            } else {
                raw
            };
            if signed >= -32765 {
                self.pc = self.pc + 2;
                Some((signed - 3) as i16)
            } else {
                None
            }
        } else {
            None
        }
    }

    /// Moves the program counter by `offset`; refuses a target before the start.
    pub fn jmp_relative(&mut self, offset: i16) -> (r: bool)
        ensures
            r == (0 <= old(self).pc + offset <= usize::MAX),
            r ==> *final(self) == (StackFrame { pc: (old(self).pc + offset) as usize, ..*old(self) }),
            !r ==> *final(self) == *old(self),
    {
        if offset >= 0 {
            if self.pc <= usize::MAX - offset as usize {
                self.pc = self.pc + offset as usize;
                true
            } else {
                false
            }
        } else {
            let back = (0 - offset as i32) as usize;
            if self.pc >= back {
                self.pc = self.pc - back;
                true
            } else {
                false
            }
        }
    }

    /// Overwrites local `idx`, if it exists.
    pub fn set_local(&mut self, idx: u8, value: Value) -> (r: bool)
        ensures
            r == ((idx as int) < old(self).locals@.len()),
            r ==> *final(self) == (StackFrame {
                locals: final(self).locals, ..*old(self)
            }) && final(self).locals@ == old(self).locals@.update(idx as int, value),
            !r ==> *final(self) == *old(self),
    {
        if (idx as usize) < self.locals.len() {
            self.locals[idx as usize] = value;
            true
        } else {
            false
        }
    }

    /// Local `idx`, if it exists.
    pub fn get_local(&self, idx: u8) -> (r: Option<Value>)
        ensures
            (idx as int) < self.locals@.len() ==> r == Some(self.locals@[idx as int]),
            (idx as int) >= self.locals@.len() ==> r is None,
    {
        if (idx as usize) < self.locals.len() {
            Some(self.locals[idx as usize].clone_value())
        } else {
            None
        }
    }

    /// Pushes an operand; refuses when the operand stack is full.
    pub fn push(&mut self, value: Value) -> (r: bool)
        ensures
            r == (old(self).stack@.len() < old(self).max_stack),
            r ==> *final(self) == (StackFrame { stack: final(self).stack, ..*old(self) })
                && final(self).stack@ == old(self).stack@.push(value),
            !r ==> *final(self) == *old(self),
    {
        if self.stack.len() < self.max_stack {
            self.stack.push(value);
            true
        } else {
            false
        }
    }

    /// Pops the top operand, if there is one.
    pub fn pop(&mut self) -> (r: Option<Value>)
        ensures
            old(self).stack@.len() > 0 ==> r == Some(old(self).stack@.last())
                && *final(self) == (StackFrame { stack: final(self).stack, ..*old(self) })
                && final(self).stack@ == old(self).stack@.drop_last(),
            old(self).stack@.len() == 0 ==> r is None && *final(self) == *old(self),
    {
        if self.stack.len() == 0 {
            None
        } else {
            self.stack.pop()
        }
    }

    /// `…, a → …, a, a`.
    pub fn dup(&mut self) -> (r: bool)
        ensures
            r == (0 < old(self).stack@.len() < old(self).max_stack),
            r ==> *final(self) == (StackFrame { stack: final(self).stack, ..*old(self) })
                && final(self).stack@ == old(self).stack@.push(old(self).stack@.last()),
            !r ==> *final(self) == *old(self),
    {
        if 0 < self.stack.len() && self.stack.len() < self.max_stack {
            let v = self.stack[self.stack.len() - 1].clone_value();
            self.stack.push(v);
            true
        } else {
            false
        }
    }

    /// `…, a, b → …, b, a, b`.
    pub fn dup_x1(&mut self) -> (r: bool)
        ensures
            r == (1 < old(self).stack@.len() < old(self).max_stack),
            r ==> *final(self) == (StackFrame { stack: final(self).stack, ..*old(self) })
                && final(self).stack@ == old(self).stack@.drop_last().drop_last()
                    .push(old(self).stack@.last())
                    .push(old(self).stack@[old(self).stack@.len() - 2])
                    .push(old(self).stack@.last()),
            !r ==> *final(self) == *old(self),
    {
        if 1 < self.stack.len() && self.stack.len() < self.max_stack {
            let b = self.stack.pop().unwrap();
            let a = self.stack.pop().unwrap();
            let b2 = b.clone_value();
            self.stack.push(b);
            self.stack.push(a);
            self.stack.push(b2);
            true
        } else {
            false
        }
    }

    /// A copy of the operand stack.
    pub fn inspect_stack(&self) -> (r: Vec<Value>)
        ensures
            r@ == self.stack@,
    {
        copy_values(&self.stack)
    }

    /// A copy of the locals.
    pub fn inspect_locals(&self) -> (r: Vec<Value>)
        ensures
            r@ == self.locals@,
    {
        copy_values(&self.locals)
    }

    /// A copy of the frame.
    pub fn copy(&self) -> (r: StackFrame)
        ensures
            r.cp_offset == self.cp_offset,
            r.pc == self.pc,
            r.stack@ == self.stack@,
            r.max_stack == self.max_stack,
            r.locals@ == self.locals@,
            r.class_method_idxs == self.class_method_idxs,
            r.modifiers == self.modifiers,
            r.instantiated@ == self.instantiated@,
    {
        StackFrame {
            cp_offset: self.cp_offset,
            pc: self.pc,
            stack: copy_values(&self.stack),
            max_stack: self.max_stack,
            locals: copy_values(&self.locals),
            class_method_idxs: self.class_method_idxs,
            modifiers: self.modifiers,
            instantiated: self.get_instantiated(),
        }
    }

    /// Records a handle allocated by this frame.
    pub fn on_instantiate(&mut self, value: HeapPtr)
        ensures
            *final(self) == (StackFrame { instantiated: final(self).instantiated, ..*old(self) }),
            final(self).instantiated@ == old(self).instantiated@.push(value),
    {
        self.instantiated.push(value);
    }

    /// The handles allocated by this frame, in order.
    pub fn get_instantiated(&self) -> (r: Vec<HeapPtr>)
        ensures
            r@ == self.instantiated@,
    {
        let mut r: Vec<HeapPtr> = Vec::new();
        let mut i: usize = 0;
        while i < self.instantiated.len()
            invariant
                i <= self.instantiated@.len(),
                r@ == self.instantiated@.subrange(0, i as int),
            decreases self.instantiated@.len() - i,
        {
            r.push(self.instantiated[i]);
            i = i + 1;
            assert(r@ =~= self.instantiated@.subrange(0, i as int));
        }
        assert(r@ =~= self.instantiated@);
        r
    }
}

impl Stack {
    /// No frames.
    pub fn new() -> (r: Stack)
        ensures
            r.frames@.len() == 0,
    {
        Stack { frames: Vec::new() }
    }

    /// The innermost frame.
    pub fn top_frame(&self) -> (r: &StackFrame)
        requires
            self.frames@.len() > 0,
        ensures
            *r == self.frames@.last(),
    {
        &self.frames[self.frames.len() - 1]
    }

    /// The innermost frame, for update.
    pub fn top_frame_mut(&mut self) -> (r: &mut StackFrame)
        requires
            old(self).frames@.len() > 0,
        ensures
            *r == old(self).frames@.last(),
            final(self).frames@ == old(self).frames@.update(old(self).frames@.len() - 1, *final(r)),
    {
        let n = self.frames.len();
        &mut self.frames[n - 1]
    }

    /// Pushes a fresh frame (see `StackFrame::new`) and returns it for update.
    pub fn push_frame(&mut self, stack_size: u16, locals_count: u16) -> (r: &mut StackFrame)
        ensures
            r.stack@.len() == 0,
            r.max_stack == stack_size,
            r.locals@ == Seq::new(locals_count as nat, |i: int| Value::Int(0)),
            r.pc == 0,
            r.cp_offset == 0,
            r.modifiers.bits == 0,
            r.instantiated@.len() == 0,
            final(self).frames@ == old(self).frames@.push(*final(r)),
    {
        self.frames.push(StackFrame::new(stack_size, locals_count));
        let n = self.frames.len();
        &mut self.frames[n - 1]
    }

    /// Drops the innermost frame, if any.
    pub fn pop_frame(&mut self)
        ensures
            old(self).frames@.len() > 0 ==> final(self).frames@ == old(self).frames@.drop_last(),
            old(self).frames@.len() == 0 ==> final(self).frames@.len() == 0,
    {
        let _ = self.frames.pop();
    }

    /// A copy of every frame, innermost last.
    pub fn inspect(&self) -> (r: Vec<StackFrame>)
        ensures
            r@.len() == self.frames@.len(),
            forall|i: int| 0 <= i < r@.len() ==> {
                let (a, b) = (#[trigger] r@[i], self.frames@[i]);
                &&& a.pc == b.pc
                &&& a.stack@ == b.stack@
                &&& a.locals@ == b.locals@
                &&& a.class_method_idxs == b.class_method_idxs
            },
    {
        let mut r: Vec<StackFrame> = Vec::new();
        let mut i: usize = 0;
        while i < self.frames.len()
            invariant
                i <= self.frames@.len(),
                r@.len() == i,
                forall|j: int| 0 <= j < i ==> {
                    let (a, b) = (#[trigger] r@[j], self.frames@[j]);
                    &&& a.pc == b.pc
                    &&& a.stack@ == b.stack@
                    &&& a.locals@ == b.locals@
                    &&& a.class_method_idxs == b.class_method_idxs
                },
            decreases self.frames@.len() - i,
        {
            r.push(self.frames[i].copy());
            i = i + 1;
        }
        r
    }

    /// Whether no frame is left.
    pub fn is_empty(&self) -> (r: bool)
        ensures
            r == (self.frames@.len() == 0),
    {
        self.frames.len() == 0
    }

    /// Number of frames.
    pub fn len(&self) -> (r: usize)
        ensures
            r == self.frames@.len(),
    {
        self.frames.len()
    }
}

} // verus!
