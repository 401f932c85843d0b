//! The call and return protocol, and the step that the host drives.
use vstd::prelude::*;
use crate::class_loader::{class_name_of, image_well_formed, ClassImage};
use crate::program::{first_class_named, key_lookup, no_class_named};
use crate::error::VmError;
use crate::flags::{lemma_remove_keeps_other, has_bits, FRAME_AUTO_FREE, AUTO_FREE, MEM, MEM_LOAD, MEM_SAVE, NATIVE, STATIC, TAIL_RECURSION};
use crate::interpreter::{
    class_needed, invoke_ready, is_listed_op, ready_pool, is_return, is_return_op, object_effect, object_ready, StackModification,
    MEM_ENTRY_CLASS, RVM_CLASS,
};
use crate::frame_ops::{frame_is, frame_step, is_frame_op};
use crate::rvm_class::{HostRequest, NativeResult, RvmClass};
use crate::java_lang::JavaLang;
use crate::stack::{frames_within_capacity, StackFrame};
use crate::heap::{lemma_reach_in_cleared, only_cleared, reachable};
use crate::value::{same_value, ClassIdx, HeapPtr, MethodInClassIdx, Value};
use crate::vm::VM;

verus! {

/// What the host must do after a step.
#[derive(Clone, Debug, PartialEq)]
pub enum Event {
    /// Nothing: step again.
    Continue,
    /// The frame stack has drained.
    Finished,
    /// Load the class of that name (see `VM::load_class`), then step again;
    /// the instruction will run then.
    Load(String),
    /// Serve the request, then step again.
    Host(HostRequest),
}

/// Whether every recorded handle other than null has been freed: its slot is
/// cleared or lies beyond the heap's end.
pub open spec fn all_freed(handles: Seq<HeapPtr>, heap: Seq<Value>) -> bool {
    forall|k: int| 0 <= k < handles.len() && handles[k] > 0 ==> (#[trigger] handles[k] >= heap.len()
        || heap[handles[k] as int] is Void)
}

/// Whether the array at `a` holds exactly `args`, element by element.
pub open spec fn array_holds(heap: Seq<Value>, a: int, args: Seq<Value>) -> bool {
    &&& 0 <= a && a + 2 + args.len() <= heap.len()
    &&& heap[a + 1] == Value::Int(args.len() as i32)
    &&& forall|i: int| 0 <= i < args.len() ==> same_value(#[trigger] heap[a + 2 + i], args[i])
}

/// The answer a memo list starting at node `node` holds for `args`: the answer of
/// the first `MemEntry(args, answer, next)` node whose argument array holds
/// `args`, following at most `fuel` nodes.
pub open spec fn memo_lookup(heap: Seq<Value>, node: int, args: Seq<Value>, fuel: nat) -> Option<Value>
    decreases fuel,
{
    if fuel == 0 || node <= 0 || node + 3 >= heap.len() {
        None
    } else if heap[node + 1] is Reference && array_holds(heap, heap[node + 1]->Reference_0 as int, args) {
        Some(heap[node + 2])
    } else if heap[node + 3] is Reference {
        memo_lookup(heap, heap[node + 3]->Reference_0 as int, args, (fuel - 1) as nat)
    } else {
        None
    }
}

/// A memo node stored for `args` with answer `answer` answers `answer` for any
/// arguments equal to `args` component by component.
pub proof fn memo_node_answers(heap: Seq<Value>, node: int, args: Seq<Value>, answer: Value, fuel: nat)
    requires
        fuel > 0,
        0 < node,
        node + 3 < heap.len(),
        heap[node + 1] is Reference,
        array_holds(heap, heap[node + 1]->Reference_0 as int, args),
        heap[node + 2] == answer,
    ensures
        memo_lookup(heap, node, args, fuel) == Some(answer),
{
}

/// Whether method `k` is the first one named `name`.
pub open spec fn first_method_named(ms: Seq<crate::classes::Method>, name: Seq<char>, k: int) -> bool {
    &&& 0 <= k < ms.len()
    &&& ms[k].name@ == name
    &&& forall|j: int| 0 <= j < k ==> (#[trigger] ms[j]).name@ != name
}

/// Whether the answer of frame `f` can be memoized: its method exists, the
/// memo-node class is loaded, and its arguments are among its locals.
pub open spec fn save_possible(classes: Seq<crate::classes::Class>, f: StackFrame) -> bool {
    let (c, m) = f.class_method_idxs;
    c < classes.len() && m < classes[c as int].methods@.len() && {
        let method = classes[c as int].methods@[m as int];
        let n = method.signature.arguments@.len() + if has_bits(method.flags.bits, STATIC) { 0int } else { 1int };
        &&& !no_class_named(classes, MEM_ENTRY_CLASS@)
        &&& n <= f.locals@.len()
        &&& n <= 0x7fff_ffff
    }
}

/// Whether one of the built-in `java/lang` natives has this name.
pub open spec fn java_lang_claims(class_name: Seq<char>, name: Seq<char>) -> bool {
    (class_name == "java/lang/Object"@ && name == "equals"@) || (class_name == "java/lang/Integer"@ && (name
        == "valueOf"@ || name == "intValue"@)) || (class_name == "java/lang/StringBuilder"@ && (name == "<init>"@
        || name == "toString"@ || name == "append"@))
}

/// Whether one of the natives of the runtime class has this name.
pub open spec fn rvm_claims(class_name: Seq<char>, name: Seq<char>) -> bool {
    class_name == crate::rvm_class::RVM_CLASS_NAME@ && (name == "print"@ || name == "println"@ || name == "logState"@
        || name == "heapSize"@ || name == "tick"@)
}

/// The descriptor of the `getAnswer` that serves a method of `n` arguments.
pub open spec fn answer_descriptor(n: int) -> Seq<char> {
    if n == 1 {
        "(Lio/github/rvm/MemEntry;Ljava/lang/Object;)Ljava/lang/Object;"@
    } else {
        "(Lio/github/rvm/MemEntry;Ljava/lang/Object;Ljava/lang/Object;)Ljava/lang/Object;"@
    }
}

/// Whether calls of `m` are memoized.
pub open spec fn memoized(m: crate::classes::Method) -> bool {
    has_bits(m.flags.bits, MEM) && m.signature.return_type == crate::value::Type::Reference && forall|j: int|
        0 <= j < m.signature.arguments@.len() ==> m.signature.arguments@[j] == crate::value::Type::Reference
}

/// What one step does to the machine `o`, giving `n` and the result `r`.
pub open spec fn step_spec(o: VM, n: VM, r: Result<Event, VmError>) -> bool {
    &&& (o.stack.frames@.len() == 0 ==> r is Err)
    &&& (r matches Ok(Event::Load(_)) ==> n.stack.frames@ == o.stack.frames@
                && n.heap == o.heap)
    &&& (frames_within_capacity(o.stack.frames@) ==> frames_within_capacity(n.stack.frames@))
    &&& (r matches Ok(e) ==> ((e is Finished) <==> n.stack.frames@.len() == 0))
    &&& (o.stack.frames@.len() > 0 ==> {
                let f = o.stack.frames@.last();
                let g = n.stack.frames@.last();
                let code = o.program.code@;
                let op = code[f.pc as int];
                let fp = StackFrame { pc: (f.pc + 1) as usize, ..f };
                let (h, p, c) = (o.heap@, o.program.constant_pool@, o.program.classes@);
                &&& f.pc >= code.len() ==> r == Err::<Event, VmError>(VmError::BadCode)
                &&& f.pc < code.len() && !is_listed_op(op) ==> r == Err::<Event, VmError>(VmError::UnknownOpcode(op))
                &&& f.pc < code.len() && is_frame_op(op) ==> match frame_step(code, f.pc as int, f.stack@, f.locals@, f.max_stack as int) {
                    Some(st) => r == Ok::<Event, VmError>(Event::Continue) && frame_is(f, g, st)
                        && n.stack.frames@.drop_last() == o.stack.frames@.drop_last()
                        && n.heap == o.heap,
                    None => r is Err,
                }
                &&& f.pc < code.len() && object_ready(op, code, fp, h, ready_pool(op, code, fp, p, c, o.program.method_keys@), c) ==> r == Ok::<Event, VmError>(Event::Continue)
                    && object_effect(op, code, fp, g, h, n.heap@, n.program.constant_pool@, c)
                &&& f.pc < code.len() && class_needed(op, code, fp, p, c) is Some ==> (r matches Ok(Event::Load(nm))
                    && Some(nm@) == class_needed(op, code, fp, p, c))
                &&& f.pc < code.len() && op == 177 && o.stack.frames@.len() == 1 ==> r == Ok::<Event, VmError>(
                    Event::Finished,
                )
            })
}

/// Whether `t` is a run of steps from `o` to `n` ending with `r`: every step
/// but the last continued, and a run that still continues used all `max` steps.
pub open spec fn ran_steps(t: Seq<VM>, o: VM, n: VM, r: Result<Event, VmError>, max: int) -> bool {
    &&& 2 <= t.len() <= max + 1
    &&& t[0] == o
    &&& t.last() == n
    &&& forall|k: int| 0 <= k < t.len() - 2 ==> step_spec(#[trigger] t[k], t[k + 1], Ok::<Event, VmError>(Event::Continue))
    &&& step_spec(t[t.len() - 2], n, r)
    &&& r == Ok::<Event, VmError>(Event::Continue) ==> t.len() == max + 1
}

/// Whether slot `i` is reachable from one of `handles`.
pub open spec fn reached_by_any(heap: Seq<Value>, handles: Seq<HeapPtr>, i: int) -> bool {
    exists|k: int| 0 <= k < handles.len() && reachable(heap, #[trigger] handles[k] as int, i)
}

/// Whether every non-empty slot of `before` that no handle reaches is kept in `after`.
pub open spec fn kept_unreached(before: Seq<Value>, after: Seq<Value>, handles: Seq<HeapPtr>) -> bool {
    forall|i: int| 0 <= i < before.len() && !(#[trigger] before[i] is Void) ==> reached_by_any(before, handles, i) || (i
        < after.len() && after[i] == before[i])
}

/// The locals of a frame entered with `args`: the arguments first, then `Int(0)`.
pub open spec fn entry_locals(args: Seq<Value>, n: int) -> Seq<Value> {
    Seq::new(n as nat, |i: int| if i < args.len() { args[i] } else { Value::Int(0) })
}

impl VM {
    /// Points `frame` at method `method_idx` of class `class_idx` and writes the
    /// arguments into its leading locals.
    fn perform_call(&self, class_idx: ClassIdx, method_idx: MethodInClassIdx, args: &Vec<Value>, frame: &mut StackFrame)
        requires
            class_idx < self.program.classes@.len(),
            method_idx < self.program.classes@[class_idx as int].methods@.len(),
        ensures
            final(frame).pc == self.program.classes@[class_idx as int].methods@[method_idx as int].code_ptr,
            final(frame).class_method_idxs == (class_idx, method_idx),
            final(frame).cp_offset == self.program.classes@[class_idx as int].constant_pool_idx,
            final(frame).locals@.len() == old(frame).locals@.len(),
            forall|i: int| 0 <= i < old(frame).locals@.len() ==> #[trigger] final(frame).locals@[i] == if i < args@.len() {
                args@[i]
            } else {
                old(frame).locals@[i]
            },
            final(frame).stack == old(frame).stack,
            final(frame).max_stack == old(frame).max_stack,
            final(frame).modifiers == old(frame).modifiers,
            final(frame).instantiated == old(frame).instantiated,
    {
        frame.pc = self.program.classes[class_idx].methods[method_idx].code_ptr;
        frame.class_method_idxs = (class_idx, method_idx);
        frame.cp_offset = self.program.classes[class_idx].constant_pool_idx;
        let ghost g = *frame;
        let mut i: usize = 0;
        while i < frame.locals.len() && i < args.len()
            invariant
                *frame == (StackFrame { locals: frame.locals, ..g }),
                g.pc == self.program.classes@[class_idx as int].methods@[method_idx as int].code_ptr,
                g.class_method_idxs == (class_idx, method_idx),
                g.cp_offset == self.program.classes@[class_idx as int].constant_pool_idx,
                g.stack == old(frame).stack,
                g.max_stack == old(frame).max_stack,
                g.modifiers == old(frame).modifiers,
                g.instantiated == old(frame).instantiated,
                i <= frame.locals@.len(),
                i <= args@.len(),
                frame.locals@.len() == old(frame).locals@.len(),
                forall|k: int| 0 <= k < old(frame).locals@.len() ==> #[trigger] frame.locals@[k] == if k < i {
                    args@[k]
                } else {
                    old(frame).locals@[k]
                },
            decreases frame.locals@.len() - i,
        {
            frame.locals.set(i, args[i].clone_value());
            i = i + 1;
        }
    }

    /// Performs a call of method `method_idx` of class `class_idx` from the
    /// innermost frame, whose operand stack holds the receiver (unless static)
    /// and the arguments.
    pub fn call(&mut self, class_idx: ClassIdx, method_idx: MethodInClassIdx) -> (r: Result<Event, VmError>)
        requires
            class_idx < old(self).program.classes@.len(),
            method_idx < old(self).program.classes@[class_idx as int].methods@.len(),
        ensures
            old(self).stack.frames@.len() == 0 ==> r is Err,
            r matches Ok(e) ==> !(e is Load) && !(e is Finished),
            final(self).program.classes@.len() == old(self).program.classes@.len(),
            final(self).program.code == old(self).program.code,
            final(self).program.constant_pool == old(self).program.constant_pool,
            frames_within_capacity(old(self).stack.frames@) ==> frames_within_capacity(final(self).stack.frames@),
            r is Ok ==> final(self).stack.frames@.len() >= old(self).stack.frames@.len(),
            r is Ok ==> final(self).stack.frames@.subrange(0, old(self).stack.frames@.len() - 1)
                == old(self).stack.frames@.subrange(0, old(self).stack.frames@.len() - 1),
            r is Ok && final(self).stack.frames@.len() > old(self).stack.frames@.len() ==> {
                let f = old(self).stack.frames@.last();
                let g = final(self).stack.frames@[old(self).stack.frames@.len() - 1];
                let m = old(self).program.classes@[class_idx as int].methods@[method_idx as int];
                let n = m.signature.arguments@.len() + if has_bits(m.flags.bits, STATIC) { 0int } else { 1int };
                &&& n <= f.stack@.len()
                &&& g == (StackFrame { stack: g.stack, ..f })
                &&& g.stack@ == f.stack@.subrange(0, f.stack@.len() - n)
            },
            old(self).stack.frames@.len() > 0 ==> {
                let f = old(self).stack.frames@.last();
                let m = old(self).program.classes@[class_idx as int].methods@[method_idx as int];
                let n = m.signature.arguments@.len() + if has_bits(m.flags.bits, STATIC) { 0int } else { 1int };
                let g = final(self).stack.frames@.last();
                has_bits(m.flags.bits, TAIL_RECURSION) && !has_bits(m.flags.bits, NATIVE) && f.class_method_idxs == (
                    class_idx,
                    method_idx,
                ) && f.pc < old(self).program.code@.len() && is_return_op(old(self).program.code@[f.pc as int]) && n
                    <= f.stack@.len() && n < usize::MAX ==> {
                    &&& r == Ok::<Event, VmError>(Event::Continue)
                    &&& final(self).stack.frames@.len() == old(self).stack.frames@.len()
                    &&& g.stack@.len() == 0
                    &&& g.pc == m.code_ptr
                    &&& g.class_method_idxs == f.class_method_idxs
                    &&& g.locals@ == entry_locals(f.stack@.subrange(f.stack@.len() - n, f.stack@.len() as int), m.max_locals as int)
                }
            },
            old(self).stack.frames@.len() > 0 ==> {
                let f = old(self).stack.frames@.last();
                let cls = old(self).program.classes@[class_idx as int];
                let m = cls.methods@[method_idx as int];
                let n = m.signature.arguments@.len() + if has_bits(m.flags.bits, STATIC) { 0int } else { 1int };
                let args = f.stack@.subrange(f.stack@.len() - n, f.stack@.len() as int);
                let tail = has_bits(m.flags.bits, TAIL_RECURSION) && !has_bits(m.flags.bits, NATIVE)
                    && f.class_method_idxs == (class_idx, method_idx) && f.pc < old(self).program.code@.len()
                    && is_return_op(old(self).program.code@[f.pc as int]);
                let ready = n <= f.stack@.len() && n < usize::MAX && !tail;
                let g = final(self).stack.frames@[old(self).stack.frames@.len() as int];
                &&& ready && has_bits(m.flags.bits, NATIVE) && !java_lang_claims(cls.name@, m.name@) && !rvm_claims(
                    cls.name@,
                    m.name@,
                ) ==> (r matches Err(VmError::NativeNotFound { class_name, method_name }) && class_name@ == cls.name@
                    && method_name@ == m.name@)
                &&& ready && !has_bits(m.flags.bits, NATIVE) && m.code_ptr == 0 ==> r == Err::<Event, VmError>(
                    VmError::AbstractMethodInvoked { class_idx, method_idx },
                )
                &&& ready && !has_bits(m.flags.bits, NATIVE) && m.code_ptr != 0 && !memoized(m) ==> {
                    &&& r == Ok::<Event, VmError>(Event::Continue)
                    &&& final(self).stack.frames@.len() == old(self).stack.frames@.len() + 1
                    &&& g.pc == m.code_ptr
                    &&& g.cp_offset == cls.constant_pool_idx
                    &&& g.class_method_idxs == (class_idx, method_idx)
                    &&& g.stack@.len() == 0
                    &&& g.max_stack == m.max_stack
                    &&& g.locals@ == entry_locals(args, m.max_locals as int)
                    &&& g.modifiers.bits == if has_bits(m.flags.bits, AUTO_FREE) || has_bits(
                        f.modifiers.bits,
                        FRAME_AUTO_FREE,
                    ) {
                        FRAME_AUTO_FREE
                    } else {
                        0
                    }
                    &&& g.instantiated@.len() == 0
                }
                &&& n > f.stack@.len() ==> r == Err::<Event, VmError>(VmError::StackCorruption)
                    && final(self).stack.frames@ == old(self).stack.frames@
                &&& ready && !has_bits(m.flags.bits, NATIVE) && m.code_ptr == 0 ==> final(self).stack.frames@
                    == old(self).stack.frames@
                &&& r is Err ==> final(self).stack.frames@.len() == old(self).stack.frames@.len()
                    && final(self).stack.frames@.drop_last() == old(self).stack.frames@.drop_last()
                &&& ready && has_bits(m.flags.bits, NATIVE) && r is Ok ==> {
                    let base = f.stack@.subrange(0, f.stack@.len() - n);
                    let h = final(self).stack.frames@.last();
                    &&& final(self).stack.frames@.len() == old(self).stack.frames@.len()
                    &&& h == (StackFrame { stack: h.stack, ..f })
                    &&& (h.stack@ == base || (h.stack@.len() == base.len() + 1 && h.stack@.drop_last() == base
                        && !(h.stack@.last() is Void)))
                    &&& java_lang_claims(cls.name@, m.name@) ==> r == Ok::<Event, VmError>(Event::Continue)
                }
                &&& ready && !has_bits(m.flags.bits, NATIVE) && m.code_ptr != 0 && memoized(m) && (n == 1 || n == 2) ==> forall|
                    ri: int,
                | #[trigger] first_class_named(old(self).program.classes@, RVM_CLASS@, ri) ==> ({
                    let kl = key_lookup(old(self).program.method_keys@, ri as usize, "getAnswer"@, answer_descriptor(n));
                    kl is Some && kl.unwrap() < old(self).program.classes@[ri].methods@.len()
                } ==> {
                    let k = key_lookup(old(self).program.method_keys@, ri as usize, "getAnswer"@, answer_descriptor(n)).unwrap();
                    let lk = final(self).stack.frames@.last();
                    let am = old(self).program.classes@[ri].methods@[k as int];
                    &&& r == Ok::<Event, VmError>(Event::Continue)
                    &&& final(self).stack.frames@.len() == old(self).stack.frames@.len() + 2
                    &&& lk.class_method_idxs == (ri as usize, k)
                    &&& lk.pc == am.code_ptr
                    &&& lk.max_stack == am.max_stack
                    &&& lk.locals@ == entry_locals(seq![Value::Reference(m.mem_entry_ptr)] + args, am.max_locals as int)
                })
                &&& r is Ok && ready && !has_bits(m.flags.bits, NATIVE) && memoized(m) ==> {
                    &&& final(self).stack.frames@.len() == old(self).stack.frames@.len() + 2
                    &&& g.pc == m.code_ptr
                    &&& g.class_method_idxs == (class_idx, method_idx)
                    &&& g.locals@ == entry_locals(args, m.max_locals as int)
                    &&& has_bits(g.modifiers.bits, MEM_LOAD)
                }
            },
    {
        if self.stack.frames.len() == 0 {
            return Err(VmError::StackCorruption);
        }
        let ghost frames0 = self.stack.frames@;
        let flags = self.program.classes[class_idx].methods[method_idx].flags;
        let n_params = self.program.classes[class_idx].methods[method_idx].signature.arguments.len();
        let n_args = if flags.contains(STATIC) {
            n_params
        } else {
            if n_params == usize::MAX {
                return Err(VmError::StackCorruption);
            }
            n_params + 1
        };
        let top = self.stack.frames.len() - 1;
        if self.stack.frames[top].stack.len() < n_args {
            return Err(VmError::StackCorruption);
        }
        let tail_call = flags.contains(TAIL_RECURSION) && !flags.contains(NATIVE)
            && self.stack.frames[top].class_method_idxs.0 == class_idx
            && self.stack.frames[top].class_method_idxs.1 == method_idx
            && self.stack.frames[top].pc < self.program.code.len() && is_return(
            self.program.code[self.stack.frames[top].pc],
        );
        if !tail_call && !flags.contains(NATIVE) && self.program.classes[class_idx].methods[method_idx].code_ptr == 0 {
            return Err(VmError::AbstractMethodInvoked { class_idx, method_idx });
        }
        let mut frame = self.stack.frames.pop().unwrap();
        let ghost f = frame;
        if frame.stack.len() < n_args {
            return Err(VmError::StackCorruption);
        }
        let at = frame.stack.len() - n_args;
        let args = frame.stack.split_off(at);
        assert(frame == (StackFrame { stack: frame.stack, ..f }));

        let code_ptr = self.program.classes[class_idx].methods[method_idx].code_ptr;
        let max_stack = self.program.classes[class_idx].methods[method_idx].max_stack;
        let max_locals = self.program.classes[class_idx].methods[method_idx].max_locals;

        if flags.contains(TAIL_RECURSION) && !flags.contains(NATIVE) && frame.class_method_idxs.0 == class_idx
            && frame.class_method_idxs.1 == method_idx && frame.pc < self.program.code.len() && is_return(
            self.program.code[frame.pc],
        ) {
            // Reuse the current frame: fresh locals, empty operand stack.
            let mut locals: Vec<Value> = Vec::new();
            let mut i: usize = 0;
            while i < max_locals as usize
                invariant
                    i <= max_locals,
                    locals@ == entry_locals(args@, i as int),
                decreases max_locals - i,
            {
                if i < args.len() {
                    locals.push(args[i].clone_value());
                } else {
                    locals.push(Value::Int(0));
                }
                i = i + 1;
                assert(locals@ =~= entry_locals(args@, i as int));
            }
            frame.locals = locals;
            frame.stack = Vec::new();
            frame.pc = code_ptr;
            frame.cp_offset = self.program.classes[class_idx].constant_pool_idx;
            self.stack.frames.push(frame);
            assert(self.stack.frames@.subrange(0, frames0.len() - 1) =~= frames0.subrange(0, frames0.len() - 1));
            return Ok(Event::Continue);
        }

        if flags.contains(NATIVE) {
            self.stack.frames.push(frame);
            assert(self.stack.frames@.subrange(0, frames0.len() - 1) =~= frames0.subrange(0, frames0.len() - 1));
            let class_name = self.program.classes[class_idx].name.clone();
            proof {
                reveal_strlit("io/github/rvm/RVM");
                reveal_strlit("java/lang/Object");
                reveal_strlit("java/lang/Integer");
                reveal_strlit("java/lang/StringBuilder");
                assert(crate::rvm_class::RVM_CLASS_NAME@ == "io/github/rvm/RVM"@);
                assert("io/github/rvm/RVM"@[0] != "java/lang/Integer"@[0]);
                assert("io/github/rvm/RVM"@.len() != "java/lang/Object"@.len());
                assert("io/github/rvm/RVM"@.len() != "java/lang/StringBuilder"@.len());
            }
            let method_name = self.program.classes[class_idx].methods[method_idx].name.clone();
            let produced = match JavaLang.invoke(self, &class_name, &method_name, &args)? {
                Some(v) => NativeResult::Value(v),
                None => match RvmClass.invoke(self, &class_name, &method_name, &args)? {
                    Some(n) => n,
                    None => {
                        return Err(VmError::NativeNotFound { class_name, method_name });
                    },
                },
            };
            return match produced {
                NativeResult::Value(v) => {
                    if !v.is_void() {
                        let n = self.stack.frames.len();
                        let ghost before = self.stack.frames@;
                        if !self.stack.frames[n - 1].push(v) {
                            return Err(VmError::StackCorruption);
                        }
                        assert(self.stack.frames@.subrange(0, frames0.len() - 1) =~= before.subrange(0, frames0.len() - 1));
                    }
                    Ok(Event::Continue)
                },
                NativeResult::Host(h) => Ok(Event::Host(h)),
            };
        }

        let mut callee = StackFrame::new(max_stack, max_locals);
        if flags.contains(AUTO_FREE) || frame.modifiers.contains(FRAME_AUTO_FREE) {
            callee.modifiers.insert(FRAME_AUTO_FREE);
            assert(0u16 | 4u16 == 4u16) by (bit_vector);
        }
        self.perform_call(class_idx, method_idx, &args, &mut callee);
        assert(callee.locals@ =~= entry_locals(args@, max_locals as int));
        let mem_entry_ptr = self.program.classes[class_idx].methods[method_idx].mem_entry_ptr;
        let memoized = flags.contains(MEM) && self.program.classes[class_idx].methods[method_idx].signature.all_references();
        self.stack.frames.push(frame);
        if !memoized {
            self.stack.frames.push(callee);
            assert(self.stack.frames@.subrange(0, frames0.len() - 1) =~= frames0.subrange(0, frames0.len() - 1));
            return Ok(Event::Continue);
        }
        // Memoized: look the arguments up first, in a frame of `RVM.getAnswer`.
        let rvm = RVM_CLASS.to_string();
        let rvm_idx = match self.program.class_idx_of(&rvm) {
            Some(i) => i,
            None => {
                return Err(VmError::ClassNotFound(rvm));
            },
        };
        let descriptor = if n_args == 1 {
            "(Lio/github/rvm/MemEntry;Ljava/lang/Object;)Ljava/lang/Object;".to_string()
        } else if n_args == 2 {
            "(Lio/github/rvm/MemEntry;Ljava/lang/Object;Ljava/lang/Object;)Ljava/lang/Object;".to_string()
        } else {
            return Err(
                VmError::UnresolvedMethod {
                    class_name: rvm,
                    method_name: "getAnswer".to_string(),
                    descriptor: String::new(),
                },
            );
        };
        let get_answer = "getAnswer".to_string();
        let answer_idx = match self.program.method_idx_of(rvm_idx, &get_answer, &descriptor) {
            Some(m) => m,
            None => {
                return Err(VmError::UnresolvedMethod { class_name: rvm, method_name: get_answer, descriptor });
            },
        };
        if answer_idx >= self.program.classes[rvm_idx].methods.len() {
            return Err(VmError::BadCode);
        }
        callee.modifiers.insert(MEM_LOAD);
        let mut answer_args: Vec<Value> = Vec::new();
        answer_args.push(Value::Reference(mem_entry_ptr));
        let mut i: usize = 0;
        while i < args.len()
            invariant
                i <= args@.len(),
                answer_args@ == seq![Value::Reference(mem_entry_ptr)] + args@.subrange(0, i as int),
            decreases args@.len() - i,
        {
            answer_args.push(args[i].clone_value());
            i = i + 1;
            assert(answer_args@ =~= seq![Value::Reference(mem_entry_ptr)] + args@.subrange(0, i as int));
        }
        assert(args@.subrange(0, i as int) =~= args@);
        let mut lookup = StackFrame::new(
            self.program.classes[rvm_idx].methods[answer_idx].max_stack,
            self.program.classes[rvm_idx].methods[answer_idx].max_locals,
        );
        self.perform_call(rvm_idx, answer_idx, &answer_args, &mut lookup);
        assert(lookup.locals@ =~= entry_locals(
            answer_args@,
            self.program.classes@[rvm_idx as int].methods@[answer_idx as int].max_locals as int,
        ));
        self.stack.frames.push(callee);
        self.stack.frames.push(lookup);
        assert(self.stack.frames@.subrange(0, frames0.len() - 1) =~= frames0.subrange(0, frames0.len() - 1));
        Ok(Event::Continue)
    }

    /// Stores `value` as the answer of the frame's method for the frame's
    /// arguments: a new `MemEntry(args, answer, next)` becomes the head of the
    /// method's memo list.
    fn save_answer(&mut self, frame: &StackFrame, value: &Value) -> (r: Result<HeapPtr, VmError>)
        ensures
            r is Ok <==> save_possible(old(self).program.classes@, *frame),
            final(self).stack == old(self).stack,
            final(self).program.classes@.len() == old(self).program.classes@.len(),
            final(self).program.code == old(self).program.code,
            final(self).program.constant_pool == old(self).program.constant_pool,
            final(self).heap@.len() >= old(self).heap@.len(),
            forall|i: int| 0 <= i < old(self).heap@.len() ==> #[trigger] final(self).heap@[i] == old(self).heap@[i],
            r matches Ok(h) ==> {
                let (c, m) = frame.class_method_idxs;
                let sig = old(self).program.classes@[c as int].methods@[m as int].signature;
                let flags = old(self).program.classes@[c as int].methods@[m as int].flags;
                let n = sig.arguments@.len() + if has_bits(flags.bits, STATIC) { 0int } else { 1int };
                &&& c < old(self).program.classes@.len()
                &&& m < old(self).program.classes@[c as int].methods@.len()
                &&& final(self).program.classes@[c as int].methods@.len() == old(self).program.classes@[c as int].methods@.len()
                &&& final(self).program.classes@[c as int].methods@[m as int].mem_entry_ptr == h
                &&& 0 < h && h + 3 < final(self).heap@.len()
                &&& final(self).heap@[h as int] is ClassIndex && final(self).heap@[h as int]->ClassIndex_1 == 3
                &&& first_class_named(old(self).program.classes@, MEM_ENTRY_CLASS@, final(self).heap@[h as int]->ClassIndex_0 as int)
                &&& n <= frame.locals@.len()
                &&& final(self).heap@[h + 1] is Reference
                &&& array_holds(final(self).heap@, final(self).heap@[h + 1]->Reference_0 as int, frame.locals@.subrange(0, n))
                &&& final(self).heap@[h + 2] == *value
                &&& final(self).heap@[h + 3] == Value::Reference(
                    old(self).program.classes@[c as int].methods@[m as int].mem_entry_ptr,
                )
            },
    {
        let (c, m) = frame.class_method_idxs;
        if c >= self.program.classes.len() || m >= self.program.classes[c].methods.len() {
            return Err(VmError::BadCode);
        }
        let entry_name = MEM_ENTRY_CLASS.to_string();
        let entry_idx = match self.program.class_idx_of(&entry_name) {
            Some(i) => i,
            None => {
                return Err(VmError::ClassNotFound(entry_name));
            },
        };
        let n_params = self.program.classes[c].methods[m].signature.arguments.len();
        let n_args: usize = if self.program.classes[c].methods[m].flags.contains(STATIC) {
            n_params
        } else {
            if n_params >= frame.locals.len() {
                return Err(VmError::BadCode);
            }
            n_params + 1
        };
        if n_args > frame.locals.len() || n_args > 0x7fff_ffff {
            return Err(VmError::BadCode);
        }
        let args_ptr = self.heap.new_object_array(0, n_args as i32);
        assert(self.heap@[args_ptr + 1] == Value::Int(n_args as i32));
        let mut i: usize = 0;
        while i < n_args
            invariant
                self.heap@[args_ptr + 1] == Value::Int(n_args as i32),
                forall|k: int| 0 <= k < i ==> #[trigger] self.heap@[args_ptr + 2 + k] == frame.locals@[k],
                i <= n_args,
                n_args <= frame.locals@.len(),
                args_ptr + 2 + n_args <= self.heap@.len(),
                self.heap@.len() == old(self).heap@.len() + 2 + n_args,
                args_ptr == old(self).heap@.len(),
                forall|k: int| 0 <= k < old(self).heap@.len() ==> #[trigger] self.heap@[k] == old(self).heap@[k],
                self.stack == old(self).stack,
                self.program == old(self).program,
            decreases n_args - i,
        {
            self.heap.set_array_element(args_ptr, i, frame.locals[i].clone_value());
            i = i + 1;
        }
        let h = self.heap.new_object(entry_idx, 3);
        self.heap.new_object_field(Value::Reference(args_ptr));
        self.heap.new_object_field(value.clone_value());
        let next = self.program.classes[c].methods[m].mem_entry_ptr;
        self.heap.new_object_field(Value::Reference(next));
        self.program.classes[c].methods[m].mem_entry_ptr = h;
        Ok(h)
    }

    /// Frees every handle in `handles` (what an auto-free frame allocated).
    fn free_instantiated(&mut self, handles: &Vec<HeapPtr>)
        ensures
            all_freed(handles@, final(self).heap@),
            final(self).stack == old(self).stack,
            final(self).program == old(self).program,
            kept_unreached(old(self).heap@, final(self).heap@, handles@),
            only_cleared(old(self).heap@, final(self).heap@),
            final(self).heap@.len() <= old(self).heap@.len(),
    {
        let mut i: usize = 0;
        while i < handles.len()
            invariant
                kept_unreached(old(self).heap@, self.heap@, handles@.subrange(0, i as int)),
                only_cleared(old(self).heap@, self.heap@),
                self.heap@.len() <= old(self).heap@.len(),
                i <= handles@.len(),
                all_freed(handles@.subrange(0, i as int), self.heap@),
                self.stack == old(self).stack,
                self.program == old(self).program,
            decreases handles@.len() - i,
        {
            let ghost before = self.heap@;
            let p = handles[i];
            self.heap.free(p);
            proof {
                let h0 = old(self).heap@;
                let hs = handles@.subrange(0, i + 1);
                assert forall|x: int| 0 <= x < h0.len() && !(#[trigger] h0[x] is Void) implies reached_by_any(h0, hs, x) || (x
                    < self.heap@.len() && self.heap@[x] == h0[x]) by {
                    if !reached_by_any(h0, hs, x) {
                        if reached_by_any(h0, handles@.subrange(0, i as int), x) {
                            let k = choose|k: int| 0 <= k < i && reachable(h0, #[trigger] handles@.subrange(0, i as int)[k] as int, x);
                            assert(hs[k] == handles@.subrange(0, i as int)[k]);
                        }
                        assert(x < before.len() && before[x] == h0[x]);
                        if reachable(before, p as int, x) {
                            lemma_reach_in_cleared(h0, before, p as int, x);
                            assert(hs[i as int] == p);
                        }
                    }
                }
                assert forall|x: int| 0 <= x < self.heap@.len() implies (#[trigger] self.heap@[x] == h0[x] || self.heap@[x] is Void) by {
                    assert(self.heap@[x] == before[x] || self.heap@[x] is Void);
                }
                assert forall|k: int| 0 <= k < i + 1 && handles@.subrange(0, i + 1)[k] > 0 implies (
                    #[trigger] handles@.subrange(0, i + 1)[k] >= self.heap@.len()
                    || self.heap@[handles@.subrange(0, i + 1)[k] as int] is Void) by {
                    let q = handles@[k];
                    if k < i {
                        assert(handles@.subrange(0, i as int)[k] == q);
                        if q < self.heap@.len() {
                            assert(self.heap@[q as int] == before[q as int] || self.heap@[q as int] is Void);
                        }
                    }
                }
            }
            i = i + 1;
        }
        assert(handles@.subrange(0, i as int) =~= handles@);
    }

    /// Return with a value from the innermost frame: memoize it if the frame asks
    /// for that, free what an auto-free frame allocated, pop the frame, settle a
    /// pending memo lookup, and hand the value to the caller.
    pub fn return_call_with_value(&mut self, value: Value) -> (r: Result<Event, VmError>)
        ensures
            old(self).stack.frames@.len() == 0 ==> r is Err,
            r matches Ok(e) ==> !(e is Load),
            final(self).program.classes@.len() == old(self).program.classes@.len(),
            final(self).program.code == old(self).program.code,
            final(self).program.constant_pool == old(self).program.constant_pool,
            frames_within_capacity(old(self).stack.frames@) ==> frames_within_capacity(final(self).stack.frames@),
            r is Ok && has_bits(old(self).stack.frames@.last().modifiers.bits, FRAME_AUTO_FREE) ==> all_freed(
                old(self).stack.frames@.last().instantiated@,
                final(self).heap@,
            ),
            r is Ok && has_bits(old(self).stack.frames@.last().modifiers.bits, MEM_SAVE) && !has_bits(
                old(self).stack.frames@.last().modifiers.bits,
                FRAME_AUTO_FREE,
            ) ==> {
                let top = old(self).stack.frames@.last();
                let (c, m) = top.class_method_idxs;
                let method = old(self).program.classes@[c as int].methods@[m as int];
                let n = method.signature.arguments@.len() + if has_bits(method.flags.bits, STATIC) { 0int } else { 1int };
                &&& c < final(self).program.classes@.len()
                &&& m < final(self).program.classes@[c as int].methods@.len()
                &&& memo_lookup(
                    final(self).heap@,
                    final(self).program.classes@[c as int].methods@[m as int].mem_entry_ptr as int,
                    top.locals@.subrange(0, n),
                    1,
                ) == Some(value)
            },
            old(self).stack.frames@.len() == 0 ==> r == Err::<Event, VmError>(VmError::StackCorruption),
            r matches Ok(e) ==> ((e is Finished) <==> final(self).stack.frames@.len() == 0),
            old(self).stack.frames@.len() > 0 && !has_bits(old(self).stack.frames@.last().modifiers.bits, MEM_SAVE) ==> final(self).program
                == old(self).program,
            old(self).stack.frames@.len() > 0 && !has_bits(old(self).stack.frames@.last().modifiers.bits, MEM_SAVE) && !has_bits(
                old(self).stack.frames@.last().modifiers.bits,
                FRAME_AUTO_FREE,
            ) ==> final(self).heap == old(self).heap,
            old(self).stack.frames@.len() > 0 && !has_bits(old(self).stack.frames@.last().modifiers.bits, MEM_SAVE) ==> kept_unreached(
                old(self).heap@,
                final(self).heap@,
                old(self).stack.frames@.last().instantiated@,
            ),
            r is Ok && old(self).stack.frames@.len() >= 2 && has_bits(
                old(self).stack.frames@[old(self).stack.frames@.len() - 2].modifiers.bits,
                MEM_LOAD,
            ) && value == Value::Reference(0) ==> final(self).stack.frames@.last().modifiers.bits == (old(
                self,
            ).stack.frames@[old(self).stack.frames@.len() - 2].modifiers.bits | MEM_SAVE) & !MEM_LOAD,
            r is Ok && has_bits(old(self).stack.frames@.last().modifiers.bits, MEM_SAVE) && !has_bits(
                old(self).stack.frames@.last().modifiers.bits,
                FRAME_AUTO_FREE,
            ) ==> {
                let top = old(self).stack.frames@.last();
                let (c, m) = top.class_method_idxs;
                let method = old(self).program.classes@[c as int].methods@[m as int];
                let n = method.signature.arguments@.len() + if has_bits(method.flags.bits, STATIC) { 0int } else { 1int };
                let h = final(self).program.classes@[c as int].methods@[m as int].mem_entry_ptr as int;
                let heap = final(self).heap@;
                &&& 0 < h && h + 3 < heap.len()
                &&& heap[h] is ClassIndex && heap[h]->ClassIndex_1 == 3
                &&& first_class_named(old(self).program.classes@, MEM_ENTRY_CLASS@, heap[h]->ClassIndex_0 as int)
                &&& heap[h + 1] is Reference && array_holds(heap, heap[h + 1]->Reference_0 as int, top.locals@.subrange(0, n))
                &&& heap[h + 2] == value
                &&& heap[h + 3] == Value::Reference(method.mem_entry_ptr)
                &&& forall|i: int| 0 <= i < old(self).heap@.len() ==> #[trigger] heap[i] == old(self).heap@[i]
            },
            old(self).stack.frames@.len() > 0 && (!has_bits(old(self).stack.frames@.last().modifiers.bits, MEM_SAVE)
                || save_possible(old(self).program.classes@, old(self).stack.frames@.last())) ==> {
                let n = old(self).stack.frames@.len();
                let fs = old(self).stack.frames@;
                &&& n == 1 ==> r == Ok::<Event, VmError>(Event::Finished)
                &&& n >= 2 && !has_bits(fs[n - 2].modifiers.bits, MEM_LOAD) ==> (r is Ok <==> fs[n - 2].stack@.len()
                    < fs[n - 2].max_stack) && (r is Err ==> r == Err::<Event, VmError>(VmError::StackCorruption))
                &&& n >= 2 && has_bits(fs[n - 2].modifiers.bits, MEM_LOAD) && value == Value::Reference(0) ==> r
                    == Ok::<Event, VmError>(Event::Continue)
                &&& n == 2 && has_bits(fs[n - 2].modifiers.bits, MEM_LOAD) && !same_value(value, Value::Reference(0))
                    ==> r == Ok::<Event, VmError>(Event::Finished)
                &&& n >= 3 && has_bits(fs[n - 2].modifiers.bits, MEM_LOAD) && !same_value(value, Value::Reference(0))
                    ==> (r is Ok <==> fs[n - 3].stack@.len() < fs[n - 3].max_stack) && (r is Err ==> r == Err::<
                    Event,
                    VmError,
                >(VmError::StackCorruption))
            },
            old(self).stack.frames@.len() > 0 && has_bits(old(self).stack.frames@.last().modifiers.bits, MEM_SAVE)
                && !save_possible(old(self).program.classes@, old(self).stack.frames@.last()) ==> r is Err,
            r is Ok && old(self).stack.frames@.len() == 1 ==> r == Ok::<Event, VmError>(Event::Finished)
                && final(self).stack.frames@.len() == 0,
            r is Ok && old(self).stack.frames@.len() >= 2 && !has_bits(
                old(self).stack.frames@[old(self).stack.frames@.len() - 2].modifiers.bits,
                MEM_LOAD,
            ) ==> {
                let n = old(self).stack.frames@.len();
                let caller = old(self).stack.frames@[n - 2];
                let g = final(self).stack.frames@.last();
                &&& final(self).stack.frames@.len() == n - 1
                &&& final(self).stack.frames@.drop_last() == old(self).stack.frames@.subrange(0, n - 2)
                &&& g == (StackFrame { stack: g.stack, ..caller })
                &&& g.stack@ == caller.stack@.push(value)
            },
            r is Ok && old(self).stack.frames@.len() >= 2 && has_bits(
                old(self).stack.frames@[old(self).stack.frames@.len() - 2].modifiers.bits,
                MEM_LOAD,
            ) && value == Value::Reference(0) ==> {
                let n = old(self).stack.frames@.len();
                let waiting = old(self).stack.frames@[n - 2];
                let g = final(self).stack.frames@.last();
                &&& final(self).stack.frames@.len() == n - 1
                &&& final(self).stack.frames@.drop_last() == old(self).stack.frames@.subrange(0, n - 2)
                &&& g == (StackFrame { modifiers: g.modifiers, ..waiting })
                &&& has_bits(g.modifiers.bits, MEM_SAVE) && !has_bits(g.modifiers.bits, MEM_LOAD)
            },
            r is Ok && old(self).stack.frames@.len() >= 3 && has_bits(
                old(self).stack.frames@[old(self).stack.frames@.len() - 2].modifiers.bits,
                MEM_LOAD,
            ) && !same_value(value, Value::Reference(0)) ==> {
                let n = old(self).stack.frames@.len();
                let caller = old(self).stack.frames@[n - 3];
                let g = final(self).stack.frames@.last();
                &&& final(self).stack.frames@.len() == n - 2
                &&& final(self).stack.frames@.drop_last() == old(self).stack.frames@.subrange(0, n - 3)
                &&& g == (StackFrame { stack: g.stack, ..caller })
                &&& g.stack@ == caller.stack@.push(value)
            },
    {
        if self.stack.frames.len() == 0 {
            return Err(VmError::StackCorruption);
        }
        let ghost frames0 = self.stack.frames@;
        let top = self.stack.frames.pop().unwrap();
        if top.modifiers.contains(MEM_SAVE) {
            let h = self.save_answer(&top, &value)?;
            proof {
                memo_node_answers(
                    self.heap@,
                    h as int,
                    top.locals@.subrange(
                        0,
                        old(self).program.classes@[top.class_method_idxs.0 as int].methods@[top.class_method_idxs.1 as int].signature.arguments@.len()
                            + if has_bits(
                            old(self).program.classes@[top.class_method_idxs.0 as int].methods@[top.class_method_idxs.1 as int].flags.bits,
                            STATIC,
                        ) {
                            0int
                        } else {
                            1int
                        },
                    ),
                    value,
                    1,
                );
            }
        }
        if top.modifiers.contains(FRAME_AUTO_FREE) {
            self.free_instantiated(&top.instantiated);
        }
        if self.stack.frames.len() == 0 {
            return Ok(Event::Finished);
        }
        let n = self.stack.frames.len();
        if self.stack.frames[n - 1].modifiers.contains(MEM_LOAD) {
            if value.same(&Value::Reference(0)) {
                // A miss: run the method, and memoize what it returns.
                let ghost before = self.stack.frames@;
                self.stack.frames[n - 1].modifiers.insert(MEM_SAVE);
                proof {
                    lemma_remove_keeps_other(self.stack.frames@[n - 1].modifiers.bits, MEM_LOAD, MEM_SAVE);
                }
                self.stack.frames[n - 1].modifiers.remove(MEM_LOAD);
                assert(self.stack.frames@.drop_last() =~= before.drop_last());
                return Ok(Event::Continue);
            }
            // A hit: the stored answer replaces the call.
            let ghost before = self.stack.frames@;
            let _ = self.stack.frames.pop();
            assert(self.stack.frames@ =~= before.drop_last());
            if self.stack.frames.len() == 0 {
                return Ok(Event::Finished);
            }
        }
        let m = self.stack.frames.len();
        let ghost before = self.stack.frames@;
        if !self.stack.frames[m - 1].push(value) {
            return Err(VmError::StackCorruption);
        }
        assert(self.stack.frames@.drop_last() =~= before.drop_last());
        Ok(Event::Continue)
    }

    /// A bare return: drops the innermost frame.
    pub fn return_call(&mut self) -> (r: Event)
        ensures
            final(self).stack.frames@.len() == 0 ==> r == Event::Finished,
            frames_within_capacity(old(self).stack.frames@) ==> frames_within_capacity(final(self).stack.frames@),
            final(self).stack.frames@.len() > 0 ==> r == Event::Continue,
            old(self).stack.frames@.len() > 0 ==> final(self).stack.frames@ == old(self).stack.frames@.drop_last(),
            final(self).heap == old(self).heap,
            final(self).program == old(self).program,
    {
        self.stack.pop_frame();
        if self.stack.is_empty() {
            Event::Finished
        } else {
            Event::Continue
        }
    }

    /// Runs one instruction and whatever call or return it asks for.
    pub fn step(&mut self) -> (r: Result<Event, VmError>)
        ensures
            step_spec(*old(self), *final(self), r),
    {
        match self.do_command()? {
            StackModification::Nop => Ok(Event::Continue),
            StackModification::Call(c, m) => self.call(c, m),
            StackModification::Return(v) => {
                if v.is_void() {
                    Ok(self.return_call())
                } else {
                    self.return_call_with_value(v)
                }
            },
            StackModification::Load(n) => Ok(Event::Load(n)),
        }
    }

    /// Steps until the host is needed (a class to load, a request, the end) or
    /// `max_steps` steps have run; returns the last event.
    pub fn do_loop(&mut self, max_steps: u64) -> (r: Result<Event, VmError>)
        ensures
            old(self).stack.frames@.len() == 0 ==> r == Ok::<Event, VmError>(Event::Finished),
            old(self).stack.frames@.len() > 0 && max_steps == 0 ==> r == Ok::<Event, VmError>(Event::Continue),
            old(self).stack.frames@.len() > 0 && max_steps == 1 ==> step_spec(*old(self), *final(self), r),
            old(self).stack.frames@.len() > 0 && max_steps > 0 ==> exists|t: Seq<VM>| #[trigger] ran_steps(t, *old(self), *final(self), r, max_steps as int),
            r matches Ok(e) ==> ((e is Finished) <==> final(self).stack.frames@.len() == 0),
            frames_within_capacity(old(self).stack.frames@) ==> frames_within_capacity(final(self).stack.frames@),
    {
        if self.stack.frames.len() == 0 {
            return Ok(Event::Finished);
        }
        let ghost mut t: Seq<VM> = seq![*self];
        let mut n: u64 = 0;
        while n < max_steps
            invariant
                n <= max_steps,
                old(self).stack.frames@.len() > 0,
                self.stack.frames@.len() > 0,
                frames_within_capacity(old(self).stack.frames@) ==> frames_within_capacity(self.stack.frames@),
                t.len() == n + 1,
                t[0] == *old(self),
                t.last() == *self,
                forall|k: int| 0 <= k < t.len() - 1 ==> step_spec(#[trigger] t[k], t[k + 1], Ok::<Event, VmError>(Event::Continue)),
            decreases max_steps - n,
        {
            let ghost before = t;
            let e = self.step();
            proof {
                t = t.push(*self);
                assert forall|k: int| 0 <= k < t.len() - 2 implies step_spec(#[trigger] t[k], t[k + 1], Ok::<Event, VmError>(
                    Event::Continue,
                )) by {
                    assert(t[k] == before[k]);
                    assert(t[k + 1] == before[k + 1]);
                }
                assert(t[t.len() - 2] == before.last());
            }
            match e {
                Ok(Event::Continue) => {},
                _ => {
                    assert(ran_steps(t, *old(self), *self, e, max_steps as int));
                    return e;
                },
            }
            n = n + 1;
        }
        proof {
            if max_steps > 0 {
                assert(ran_steps(t, *old(self), *self, Ok::<Event, VmError>(Event::Continue), max_steps as int));
            }
        }
        Ok(Event::Continue)
    }

    /// Pushes the first frame: the `main` method of the loaded class `class_name`.
    pub fn start(&mut self, class_name: &str) -> (r: Result<(), VmError>)
        ensures
            r is Ok ==> final(self).stack.frames@.len() == old(self).stack.frames@.len() + 1
                && final(self).stack.frames@.drop_last() == old(self).stack.frames@,
            r is Err ==> *final(self) == *old(self),
            no_class_named(old(self).program.classes@, class_name@) ==> (r matches Err(VmError::ClassNotFound(n)) && n@
                == class_name@),
            forall|i: int| #[trigger] first_class_named(old(self).program.classes@, class_name@, i) ==> {
                let ms = old(self).program.classes@[i].methods@;
                &&& (forall|k: int| 0 <= k < ms.len() ==> (#[trigger] ms[k]).name@ != "main"@) ==> r is Err
                &&& forall|k: int| #[trigger] first_method_named(ms, "main"@, k) ==> {
                    let f = final(self).stack.frames@.last();
                    &&& r is Ok
                    &&& f.pc == ms[k].code_ptr
                    &&& f.cp_offset == old(self).program.classes@[i].constant_pool_idx
                    &&& f.class_method_idxs == (i as usize, k as usize)
                    &&& f.max_stack == ms[k].max_stack
                    &&& f.locals@ == Seq::new(ms[k].max_locals as nat, |j: int| Value::Int(0))
                    &&& f.stack@.len() == 0
                    &&& f.modifiers.bits == 0
                    &&& f.instantiated@.len() == 0
                }
            },
    {
        let name = class_name.to_string();
        let class_idx = match self.program.class_idx_of(&name) {
            Some(i) => i,
            None => {
                return Err(VmError::ClassNotFound(name));
            },
        };
        let main = "main".to_string();
        let methods = &self.program.classes[class_idx].methods;
        let mut i: usize = 0;
        while i < methods.len()
            invariant
                i <= methods@.len(),
                methods@ == self.program.classes@[class_idx as int].methods@,
                main@ == "main"@,
                forall|j: int| 0 <= j < i ==> (#[trigger] methods@[j]).name@ != main@,
            ensures
                i <= methods@.len(),
                forall|j: int| 0 <= j < i ==> (#[trigger] methods@[j]).name@ != main@,
                i < methods@.len() ==> methods@[i as int].name@ == main@,
            decreases methods@.len() - i,
        {
            if methods[i].name == main {
                break;
            }
            i = i + 1;
        }
        if i >= methods.len() {
            return Err(
                VmError::UnresolvedMethod { class_name: name, method_name: main, descriptor: String::new() },
            );
        }
        let mut frame = StackFrame::new(methods[i].max_stack, methods[i].max_locals);
        frame.pc = methods[i].code_ptr;
        frame.cp_offset = self.program.classes[class_idx].constant_pool_idx;
        frame.class_method_idxs = (class_idx, i);
        self.stack.frames.push(frame);
        proof {
            let cs = old(self).program.classes@;
            assert forall|c: int| #[trigger] first_class_named(cs, class_name@, c) implies c == class_idx by {
                if c < class_idx {
                    assert(cs[c].name@ != name@);
                } else if c > class_idx {
                    assert(cs[class_idx as int].name@ != class_name@);
                }
            }
            let ms = cs[class_idx as int].methods@;
            assert forall|k: int| #[trigger] first_method_named(ms, "main"@, k) implies k == i by {
                if k < i {
                    assert(ms[k].name@ != main@);
                } else if k > i {
                    assert(ms[i as int].name@ != "main"@);
                }
            }
            assert(self.stack.frames@.drop_last() =~= old(self).stack.frames@);
        }
        Ok(())
    }

    /// Links the class `name` from its class-file view (see
    /// `ClassLoader::load_class_into`); its super class must be loaded already.
    pub fn load_class(&mut self, name: &String, image: &ClassImage) -> (r: Result<ClassIdx, VmError>)
        ensures
            r is Err ==> final(self).program == old(self).program && final(self).heap == old(self).heap,
            r matches Ok(i) ==> i < final(self).program.classes@.len() && final(self).program.classes@[i as int].name@
                == name@,
            final(self).stack == old(self).stack,
            !no_class_named(old(self).program.classes@, name@) ==> (r matches Ok(i) && first_class_named(
                old(self).program.classes@,
                name@,
                i as int,
            ) && final(self).program == old(self).program && final(self).heap == old(self).heap),
            no_class_named(old(self).program.classes@, name@) ==> {
                let sup = class_name_of(image.constant_pool@, image.super_class as int);
                &&& old(self).program.constant_pool@.len() > 0 && sup is Some && no_class_named(
                    old(self).program.classes@,
                    sup.unwrap(),
                ) ==> (r matches Err(VmError::ClassNotFound(n)) && n@ == sup.unwrap())
                &&& old(self).program.constant_pool@.len() > 0 && sup is Some && !no_class_named(
                    old(self).program.classes@,
                    sup.unwrap(),
                ) && image_well_formed(*image, old(self).program.code@.len() as int) ==> r == Ok::<ClassIdx, VmError>(
                    old(self).program.classes@.len() as usize,
                )
            },
    {
        self.class_loader.load_class_into(name, image, &mut self.heap, &mut self.program)
    }

    /// Answers a `Tick` request: pushes the elapsed milliseconds on the innermost frame.
    pub fn push_tick(&mut self, millis: i32) -> (r: Result<(), VmError>)
        ensures
            r is Ok ==> old(self).stack.frames@.len() > 0 && final(self).stack.frames@.last().stack@
                == old(self).stack.frames@.last().stack@.push(Value::Int(millis)),
            r is Ok <==> old(self).stack.frames@.len() > 0 && old(self).stack.frames@.last().stack@.len()
                < old(self).stack.frames@.last().max_stack,
            r is Ok ==> final(self).stack.frames@.len() == old(self).stack.frames@.len()
                && final(self).stack.frames@.drop_last() == old(self).stack.frames@.drop_last()
                && final(self).stack.frames@.last() == (StackFrame {
                    stack: final(self).stack.frames@.last().stack,
                    ..old(self).stack.frames@.last()
                }),
            r is Err ==> final(self).stack.frames@ == old(self).stack.frames@,
    {
        let n = self.stack.frames.len();
        if n == 0 {
            return Err(VmError::StackCorruption);
        }
        if self.stack.frames[n - 1].push(Value::Int(millis)) {
            Ok(())
        } else {
            Err(VmError::StackCorruption)
        }
    }
}

} // verus!
