//! Fetch, decode and dispatch; symbol resolution on first use.
use vstd::prelude::*;
use crate::classes::{vmt_get, ConstantPoolValue};
use crate::program::{first_class_named, key_lookup, last_field_named, no_class_named, no_field_named};
use crate::error::VmError;
use crate::flags::{has_bits, FRAME_AUTO_FREE};
use crate::frame_ops::{exec_frame_op, frame_is, frame_step, is_frame_op, is_frame_opcode};
use crate::stack::{frames_within_capacity, u16_of, StackFrame};
use crate::value::{int_value, ClassIdx, ConstantPoolIdx, FieldIdx, HeapPtr, MethodInClassIdx, Value};
use crate::vm::VM;

verus! {

/// The outcome of resolving a symbolic reference.
#[derive(Clone, Debug, PartialEq)]
pub enum Resolution<T> {
    Resolved(T),
    /// The class of that name must be loaded first; nothing was changed.
    NeedsClass(String),
}

/// What one instruction asks of the machine.
#[derive(Clone, Debug, PartialEq)]
pub enum StackModification {
    Nop,
    Call(ClassIdx, MethodInClassIdx),
    /// `Void` for a bare return.
    Return(Value),
    /// The class of that name must be loaded; the instruction did not run.
    Load(String),
}

pub const RVM_CLASS: &'static str = "io/github/rvm/RVM";
pub const MEM_ENTRY_CLASS: &'static str = "io/github/rvm/MemEntry";

/// The state outside the constant pool is untouched.
pub open spec fn only_pool_changed(a: VM, b: VM) -> bool {
    &&& b.program.classes == a.program.classes
    &&& b.program.code == a.program.code
    &&& b.program.method_keys == a.program.method_keys
    &&& b.heap == a.heap
    &&& b.stack == a.stack
    &&& b.ints == a.ints
    &&& b.more_ints == a.more_ints
    &&& b.class_loader == a.class_loader
    &&& b.program.constant_pool@.len() == a.program.constant_pool@.len()
}

impl VM {
    /// Resolves the class entry `cpi`, rewriting it to `Class(idx)` on first use.
    pub fn resolve_class_reference(&mut self, cpi: ConstantPoolIdx) -> (r: Result<Resolution<ClassIdx>, VmError>)
        ensures
            !(r matches Err(VmError::UnknownOpcode(_))),
            only_pool_changed(*old(self), *final(self)),
            r is Ok ==> cpi < old(self).program.constant_pool@.len(),
            cpi < old(self).program.constant_pool@.len() ==> (old(self).program.constant_pool@[cpi as int] matches ConstantPoolValue::Class(c)
                ==> r == Ok::<Resolution<ClassIdx>, VmError>(Resolution::Resolved(c)) && *final(self) == *old(self)),
            r matches Ok(Resolution::Resolved(c)) ==> final(self).program.constant_pool@ == old(self).program.constant_pool@.update(
                cpi as int,
                ConstantPoolValue::Class(c),
            ),
            r matches Ok(Resolution::NeedsClass(n)) ==> *final(self) == *old(self)
                && (old(self).program.constant_pool@[cpi as int] matches ConstantPoolValue::UnresolvedClassRef { class_name }
                && class_name@ == n@),
            r is Err ==> *final(self) == *old(self),
            cpi >= old(self).program.constant_pool@.len() ==> r == Err::<Resolution<ClassIdx>, VmError>(VmError::BadCode),
            cpi < old(self).program.constant_pool@.len() ==> {
                let e = old(self).program.constant_pool@[cpi as int];
                let classes = old(self).program.classes@;
                &&& !(e is UnresolvedClassRef || e is Class) ==> r == Err::<Resolution<ClassIdx>, VmError>(VmError::BadCode)
                &&& e is UnresolvedClassRef && no_class_named(classes, e->UnresolvedClassRef_class_name@) ==> (r matches Ok(
                    Resolution::NeedsClass(n),
                ) && n@ == e->UnresolvedClassRef_class_name@)
                &&& forall|i: int| e is UnresolvedClassRef && #[trigger] first_class_named(classes, e->UnresolvedClassRef_class_name@, i) ==> r
                    == Ok::<Resolution<ClassIdx>, VmError>(Resolution::Resolved(i as usize))
            },
    {
        if cpi >= self.program.constant_pool.len() {
            return Err(VmError::BadCode);
        }
        match &self.program.constant_pool[cpi] {
            ConstantPoolValue::UnresolvedClassRef { class_name } => {
                match self.program.class_idx_of(class_name) {
                    Some(idx) => {
                        self.program.constant_pool.set(cpi, ConstantPoolValue::Class(idx));
                        Ok(Resolution::Resolved(idx))
                    },
                    None => Ok(Resolution::NeedsClass(class_name.clone())),
                }
            },
            ConstantPoolValue::Class(idx) => Ok(Resolution::Resolved(*idx)),
            _ => Err(VmError::BadCode),
        }
    }

    /// Resolves the field entry `cpi`, rewriting it to `FieldRef(class, field)` on first use.
    pub fn resolve_field_reference(&mut self, cpi: ConstantPoolIdx) -> (r: Result<Resolution<(ClassIdx, FieldIdx)>, VmError>)
        ensures
            !(r matches Err(VmError::UnknownOpcode(_))),
            only_pool_changed(*old(self), *final(self)),
            r is Ok ==> cpi < old(self).program.constant_pool@.len(),
            cpi < old(self).program.constant_pool@.len() ==> (old(self).program.constant_pool@[cpi as int] matches ConstantPoolValue::FieldRef(c, f)
                ==> r == Ok::<Resolution<(ClassIdx, FieldIdx)>, VmError>(Resolution::Resolved((c, f))) && *final(self) == *old(self)),
            r matches Ok(Resolution::Resolved((c, f))) ==> final(self).program.constant_pool@ == old(self).program.constant_pool@.update(
                cpi as int,
                ConstantPoolValue::FieldRef(c, f),
            ),
            r matches Ok(Resolution::NeedsClass(n)) ==> *final(self) == *old(self),
            r is Err ==> *final(self) == *old(self),
            cpi >= old(self).program.constant_pool@.len() ==> r == Err::<Resolution<(ClassIdx, FieldIdx)>, VmError>(VmError::BadCode),
            cpi < old(self).program.constant_pool@.len() ==> {
                let e = old(self).program.constant_pool@[cpi as int];
                let classes = old(self).program.classes@;
                &&& !(e is UnresolvedFieldRef || e is FieldRef) ==> r == Err::<Resolution<(ClassIdx, FieldIdx)>, VmError>(
                    VmError::BadCode,
                )
                &&& e is UnresolvedFieldRef && no_class_named(classes, e->UnresolvedFieldRef_class_name@) ==> (r matches Ok(
                    Resolution::NeedsClass(n),
                ) && n@ == e->UnresolvedFieldRef_class_name@)
                &&& forall|i: int| e is UnresolvedFieldRef && #[trigger] first_class_named(classes, e->UnresolvedFieldRef_class_name@, i) ==> {
                    let fs = classes[i].fields@;
                    let fname = e->UnresolvedFieldRef_field_name@;
                    &&& forall|k: int| #[trigger] last_field_named(fs, fname, k) ==> r == Ok::<
                        Resolution<(ClassIdx, FieldIdx)>,
                        VmError,
                    >(Resolution::Resolved((i as usize, k as usize)))
                    &&& no_field_named(fs, fname) ==> (r matches Err(VmError::UnresolvedField { class_name, field_name })
                        && class_name@ == e->UnresolvedFieldRef_class_name@ && field_name@ == fname)
                }
            },
    {
        if cpi >= self.program.constant_pool.len() {
            return Err(VmError::BadCode);
        }
        match &self.program.constant_pool[cpi] {
            ConstantPoolValue::UnresolvedFieldRef { class_name, field_name } => {
                match self.program.class_idx_of(class_name) {
                    Some(idx) => match self.program.field_idx_of(idx, field_name) {
                        Some(f) => {
                            self.program.constant_pool.set(cpi, ConstantPoolValue::FieldRef(idx, f));
                            Ok(Resolution::Resolved((idx, f)))
                        },
                        None => Err(
                            VmError::UnresolvedField { class_name: class_name.clone(), field_name: field_name.clone() },
                        ),
                    },
                    None => Ok(Resolution::NeedsClass(class_name.clone())),
                }
            },
            ConstantPoolValue::FieldRef(c, f) => Ok(Resolution::Resolved((*c, *f))),
            _ => Err(VmError::BadCode),
        }
    }

    /// Resolves the method entry `cpi`, rewriting it to `MethodRef(class, method)` on first use.
    pub fn resolve_method_reference(&mut self, cpi: ConstantPoolIdx) -> (r: Result<
        Resolution<(ClassIdx, MethodInClassIdx)>,
        VmError,
    >)
        ensures
            !(r matches Err(VmError::UnknownOpcode(_))),
            only_pool_changed(*old(self), *final(self)),
            r is Ok ==> cpi < old(self).program.constant_pool@.len(),
            cpi < old(self).program.constant_pool@.len() ==> (old(self).program.constant_pool@[cpi as int] matches ConstantPoolValue::MethodRef(c, m)
                ==> r == Ok::<Resolution<(ClassIdx, MethodInClassIdx)>, VmError>(Resolution::Resolved((c, m)))
                && *final(self) == *old(self)),
            r matches Ok(Resolution::Resolved((c, m))) ==> final(self).program.constant_pool@ == old(self).program.constant_pool@.update(
                cpi as int,
                ConstantPoolValue::MethodRef(c, m),
            ),
            r matches Ok(Resolution::NeedsClass(n)) ==> *final(self) == *old(self),
            r is Err ==> *final(self) == *old(self),
            cpi >= old(self).program.constant_pool@.len() ==> r == Err::<
                Resolution<(ClassIdx, MethodInClassIdx)>,
                VmError,
            >(VmError::BadCode),
            cpi < old(self).program.constant_pool@.len() ==> {
                let e = old(self).program.constant_pool@[cpi as int];
                let classes = old(self).program.classes@;
                &&& !(e is UnresolvedMethodRef || e is MethodRef) ==> r == Err::<
                    Resolution<(ClassIdx, MethodInClassIdx)>,
                    VmError,
                >(VmError::BadCode)
                &&& e is UnresolvedMethodRef && no_class_named(classes, e->UnresolvedMethodRef_class_name@) ==> (r matches Ok(
                    Resolution::NeedsClass(n),
                ) && n@ == e->UnresolvedMethodRef_class_name@)
                &&& forall|i: int| e is UnresolvedMethodRef && #[trigger] first_class_named(classes, e->UnresolvedMethodRef_class_name@, i) ==> match key_lookup(
                    old(self).program.method_keys@,
                    i as usize,
                    e->UnresolvedMethodRef_method_name@,
                    e->UnresolvedMethodRef_signature@,
                ) {
                    Some(k) => r == Ok::<Resolution<(ClassIdx, MethodInClassIdx)>, VmError>(
                        Resolution::Resolved((i as usize, k)),
                    ),
                    None => r matches Err(VmError::UnresolvedMethod { class_name, method_name, descriptor })
                        && class_name@ == e->UnresolvedMethodRef_class_name@ && method_name@
                        == e->UnresolvedMethodRef_method_name@ && descriptor@ == e->UnresolvedMethodRef_signature@,
                }
            },
    {
        if cpi >= self.program.constant_pool.len() {
            return Err(VmError::BadCode);
        }
        match &self.program.constant_pool[cpi] {
            ConstantPoolValue::UnresolvedMethodRef { class_name, method_name, signature } => {
                match self.program.class_idx_of(class_name) {
                    Some(idx) => match self.program.method_idx_of(idx, method_name, signature) {
                        Some(m) => {
                            self.program.constant_pool.set(cpi, ConstantPoolValue::MethodRef(idx, m));
                            Ok(Resolution::Resolved((idx, m)))
                        },
                        None => Err(
                            VmError::UnresolvedMethod {
                                class_name: class_name.clone(),
                                method_name: method_name.clone(),
                                descriptor: signature.clone(),
                            },
                        ),
                    },
                    None => Ok(Resolution::NeedsClass(class_name.clone())),
                }
            },
            ConstantPoolValue::MethodRef(c, m) => Ok(Resolution::Resolved((*c, *m))),
            _ => Err(VmError::BadCode),
        }
    }
}

/// The frame keeps its capacity, and stays within it if it was.
pub open spec fn keeps_capacity(f: StackFrame, g: StackFrame) -> bool {
    &&& g.max_stack == f.max_stack
    &&& f.wf() ==> g.wf()
}

/// The value an `ldc` entry pushes.
pub open spec fn loadable(c: ConstantPoolValue) -> Option<Value> {
    match c {
        ConstantPoolValue::String(v) => Some(v),
        ConstantPoolValue::Const(v) => Some(v),
        _ => None,
    }
}

/// The constant-pool index named by the two operand bytes at `pc`.
pub open spec fn cp_operand(code: Seq<u8>, pc: int, f: StackFrame) -> int {
    f.cp_offset + u16_of(code[pc], code[pc + 1])
}

/// Records `ptr` when the frame is auto-free.
pub open spec fn recorded(f: StackFrame, g: StackFrame, ptr: HeapPtr) -> bool {
    if has_bits(f.modifiers.bits, FRAME_AUTO_FREE) {
        g.instantiated@ == f.instantiated@.push(ptr)
    } else {
        g.instantiated == f.instantiated
    }
}

/// The effect of an object instruction `op` whose opcode has been read (`f.pc`
/// is at its operands): frame `f` becomes `g`, the heap `heap0` becomes
/// `heap1`, `pool` is the constant pool after resolution.
pub open spec fn object_effect(
    op: u8,
    code: Seq<u8>,
    f: StackFrame,
    g: StackFrame,
    heap0: Seq<Value>,
    heap1: Seq<Value>,
    pool: Seq<ConstantPoolValue>,
    classes: Seq<crate::classes::Class>,
) -> bool {
    let st = f.stack@;
    let n = st.len();
    if op == 18 {
        &&& f.pc < code.len()
        &&& loadable(pool[f.cp_offset + code[f.pc as int]]) matches Some(v) && g.stack@ == st.push(v)
        &&& heap1 == heap0
    } else if op == 50 {
        &&& n >= 2 && st[n - 2] is Reference && int_value(st[n - 1]) is Some
        &&& {
            let a = st[n - 2]->Reference_0 as int;
            let i = int_value(st[n - 1]).unwrap() as int;
            0 <= i && a + 2 + i < heap0.len() && g.stack@ == st.drop_last().drop_last().push(heap0[a + 2 + i])
        }
        &&& heap1 == heap0
    } else if op == 83 {
        &&& n >= 3 && st[n - 3] is Reference && int_value(st[n - 2]) is Some
        &&& {
            let a = st[n - 3]->Reference_0 as int;
            let i = int_value(st[n - 2]).unwrap() as int;
            0 <= i && a + 2 + i < heap0.len() && heap1 == heap0.update(a + 2 + i, st[n - 1])
        }
        &&& g.stack@ == st.drop_last().drop_last().drop_last()
    } else if op == 190 {
        &&& n >= 1 && st[n - 1] is Reference
        &&& {
            let a = st[n - 1]->Reference_0 as int;
            a + 1 < heap0.len() && g.stack@ == st.drop_last().push(heap0[a + 1])
        }
        &&& heap1 == heap0
    } else if op == 180 || op == 181 {
        &&& pool[cp_operand(code, f.pc as int, f)] is FieldRef
        &&& {
            let fi = pool[cp_operand(code, f.pc as int, f)]->FieldRef_1 as int;
            if op == 180 {
                &&& n >= 1 && st[n - 1] is Reference
                &&& st[n - 1]->Reference_0 + 1 + fi < heap0.len()
                &&& g.stack@ == st.drop_last().push(heap0[st[n - 1]->Reference_0 + 1 + fi])
                &&& heap1 == heap0
            } else {
                &&& n >= 2 && st[n - 2] is Reference
                &&& st[n - 2]->Reference_0 + 1 + fi < heap0.len()
                &&& heap1 == heap0.update(st[n - 2]->Reference_0 + 1 + fi, st[n - 1])
                &&& g.stack@ == st.drop_last().drop_last()
            }
        }
    } else if op == 187 {
        &&& pool[cp_operand(code, f.pc as int, f)] is Class
        &&& {
            let c = pool[cp_operand(code, f.pc as int, f)]->Class_0;
            &&& c < classes.len()
            &&& heap1 == heap0.push(Value::ClassIndex(c, classes[c as int].fields@.len() as u16))
                + crate::vm::field_zeros(classes[c as int].fields@)
            &&& g.stack@ == st.push(Value::Reference(heap0.len() as usize))
            &&& recorded(f, g, heap0.len() as usize)
        }
    } else if op == 189 {
        &&& pool[cp_operand(code, f.pc as int, f)] is Class
        &&& n >= 1 && int_value(st[n - 1]) is Some
        &&& {
            let c = pool[cp_operand(code, f.pc as int, f)]->Class_0;
            let count = int_value(st[n - 1]).unwrap();
            &&& c < classes.len()
            &&& heap1.len() >= heap0.len() + 2
            &&& heap1[heap0.len() as int] == Value::ArrayOf(crate::value::Type::Reference, c)
            &&& heap1[heap0.len() + 1int] == Value::Int(count)
            &&& forall|i: int| #![trigger heap1[heap0.len() + 2 + i]] 0 <= i < count ==> (heap1[heap0.len() + 2 + i] is Reference && {
                let q = heap1[heap0.len() + 2 + i]->Reference_0 as int;
                &&& heap0.len() + 2 + count <= q < heap1.len()
                &&& heap1[q] == Value::ClassIndex(c, classes[c as int].fields@.len() as u16)
                &&& crate::vm::zero_fields_at(heap1, q, classes[c as int].fields@)
            })
            &&& forall|i: int, j: int| #![trigger heap1[heap0.len() + 2 + i], heap1[heap0.len() + 2 + j]] 0 <= i < j < count
                ==> heap1[heap0.len() + 2 + i]->Reference_0 < heap1[heap0.len() + 2 + j]->Reference_0
            &&& g.stack@ == st.drop_last().push(Value::Reference(heap0.len() as usize))
            &&& recorded(f, g, heap0.len() as usize)
        }
    } else {
        false
    }
}

/// The method an invoke instruction `op` calls, given the resolved method
/// entry at its operand: for `invokevirtual`, the override that the receiver's
/// class table registers for it, if any.
pub open spec fn invoke_target(
    op: u8,
    code: Seq<u8>,
    f: StackFrame,
    heap: Seq<Value>,
    pool: Seq<ConstantPoolValue>,
    classes: Seq<crate::classes::Class>,
) -> Option<(ClassIdx, MethodInClassIdx)> {
    let entry = pool[cp_operand(code, f.pc as int, f)];
    if !(entry is MethodRef) {
        None
    } else {
        let (rc, rm) = (entry->MethodRef_0, entry->MethodRef_1);
        if op != 182 {
            Some((rc, rm))
        } else if rc < classes.len() && rm < classes[rc as int].methods@.len() {
            let n = classes[rc as int].methods@[rm as int].signature.arguments@.len();
            let st = f.stack@;
            if n < st.len() && st[st.len() - 1 - n] is Reference {
                let h = st[st.len() - 1 - n]->Reference_0;
                if h < heap.len() && heap[h as int] is ClassIndex && heap[h as int]->ClassIndex_0 < classes.len() {
                    match vmt_get(classes[heap[h as int]->ClassIndex_0 as int].vmt.mapping@, (rc, rm)) {
                        Some(t) => Some(t),
                        None => Some((rc, rm)),
                    }
                } else {
                    None
                }
            } else {
                None
            }
        } else {
            None
        }
    }
}

/// Whether the two-byte constant-pool operand at `f.pc` can be read and names an entry.
pub open spec fn cp_operand_ok(code: Seq<u8>, f: StackFrame, pool: Seq<ConstantPoolValue>) -> bool {
    f.pc + 1 < code.len() && cp_operand(code, f.pc as int, f) <= usize::MAX && cp_operand(code, f.pc as int, f) < pool.len()
}

/// The resolved form of a constant-pool entry: what resolution rewrites it to,
/// or the entry itself when it is resolved already or cannot be resolved.
pub open spec fn resolved_form(
    e: ConstantPoolValue,
    classes: Seq<crate::classes::Class>,
    keys: Seq<crate::program::MethodKey>,
) -> ConstantPoolValue {
    match e {
        ConstantPoolValue::UnresolvedClassRef { class_name } => if exists|i: int| first_class_named(classes, class_name@, i) {
            ConstantPoolValue::Class((choose|i: int| first_class_named(classes, class_name@, i)) as usize)
        } else {
            e
        },
        ConstantPoolValue::UnresolvedFieldRef { class_name, field_name } => if exists|i: int|
            first_class_named(classes, class_name@, i) {
            let i = choose|i: int| first_class_named(classes, class_name@, i);
            if exists|k: int| last_field_named(classes[i].fields@, field_name@, k) {
                ConstantPoolValue::FieldRef(
                    i as usize,
                    (choose|k: int| last_field_named(classes[i].fields@, field_name@, k)) as usize,
                )
            } else {
                e
            }
        } else {
            e
        },
        ConstantPoolValue::UnresolvedMethodRef { class_name, method_name, signature } => if exists|i: int|
            first_class_named(classes, class_name@, i) {
            let i = choose|i: int| first_class_named(classes, class_name@, i);
            match key_lookup(keys, i as usize, method_name@, signature@) {
                Some(k) => ConstantPoolValue::MethodRef(i as usize, k),
                None => e,
            }
        } else {
            e
        },
        _ => e,
    }
}

/// The constant pool an instruction `op` (operands at `f.pc`) works with once its
/// two-byte entry is resolved.
pub open spec fn ready_pool(
    op: u8,
    code: Seq<u8>,
    f: StackFrame,
    pool: Seq<ConstantPoolValue>,
    classes: Seq<crate::classes::Class>,
    keys: Seq<crate::program::MethodKey>,
) -> Seq<ConstantPoolValue> {
    if (op == 180 || op == 181 || op == 187 || op == 189 || 182 <= op <= 184) && cp_operand_ok(code, f, pool) {
        let i = cp_operand(code, f.pc as int, f);
        pool.update(i, resolved_form(pool[i], classes, keys))
    } else {
        pool
    }
}

/// Whether an object instruction `op` (operands at `f.pc`) can run: its entry is
/// resolved and its operands are well formed.
pub open spec fn object_ready(
    op: u8,
    code: Seq<u8>,
    f: StackFrame,
    heap: Seq<Value>,
    pool: Seq<ConstantPoolValue>,
    classes: Seq<crate::classes::Class>,
) -> bool {
    let st = f.stack@;
    let n = st.len();
    if op == 18 {
        &&& f.pc < code.len()
        &&& f.cp_offset + code[f.pc as int] < pool.len()
        &&& loadable(pool[f.cp_offset + code[f.pc as int]]) is Some
        &&& n < f.max_stack
    } else if op == 50 {
        &&& n >= 2 && st[n - 2] is Reference && int_value(st[n - 1]) is Some
        &&& 0 <= int_value(st[n - 1]).unwrap()
        &&& st[n - 2]->Reference_0 + 2 + int_value(st[n - 1]).unwrap() < heap.len()
        &&& n - 2 < f.max_stack
    } else if op == 83 {
        &&& n >= 3 && st[n - 3] is Reference && int_value(st[n - 2]) is Some
        &&& 0 <= int_value(st[n - 2]).unwrap()
        &&& st[n - 3]->Reference_0 + 2 + int_value(st[n - 2]).unwrap() < heap.len()
    } else if op == 190 {
        &&& n >= 1 && st[n - 1] is Reference
        &&& st[n - 1]->Reference_0 + 1 < heap.len()
        &&& n - 1 < f.max_stack
    } else if op == 180 || op == 181 {
        &&& cp_operand_ok(code, f, pool)
        &&& pool[cp_operand(code, f.pc as int, f)] is FieldRef
        &&& {
            let fi = pool[cp_operand(code, f.pc as int, f)]->FieldRef_1 as int;
            if op == 180 {
                n >= 1 && st[n - 1] is Reference && st[n - 1]->Reference_0 + 1 + fi < heap.len() && n - 1 < f.max_stack
            } else {
                n >= 2 && st[n - 2] is Reference && st[n - 2]->Reference_0 + 1 + fi < heap.len()
            }
        }
    } else if op == 187 || op == 189 {
        &&& cp_operand_ok(code, f, pool)
        &&& pool[cp_operand(code, f.pc as int, f)] is Class
        &&& {
            let c = pool[cp_operand(code, f.pc as int, f)]->Class_0;
            c < classes.len() && classes[c as int].fields@.len() <= 65535
        }
        &&& op == 187 ==> n < f.max_stack
        &&& op == 189 ==> n >= 1 && int_value(st[n - 1]) is Some && n - 1 < f.max_stack
    } else {
        false
    }
}

/// The class an instruction (operands at `f.pc`) must have loaded first: its
/// entry is unresolved and names a class that is not loaded.
pub open spec fn class_needed(op: u8, code: Seq<u8>, f: StackFrame, pool: Seq<ConstantPoolValue>, classes: Seq<crate::classes::Class>) -> Option<
    Seq<char>,
> {
    if !cp_operand_ok(code, f, pool) {
        None
    } else {
        let e = pool[cp_operand(code, f.pc as int, f)];
        let name = if (op == 180 || op == 181) && e is UnresolvedFieldRef {
            Some(e->UnresolvedFieldRef_class_name@)
        } else if (op == 187 || op == 189) && e is UnresolvedClassRef {
            Some(e->UnresolvedClassRef_class_name@)
        } else if 182 <= op <= 184 && e is UnresolvedMethodRef {
            Some(e->UnresolvedMethodRef_class_name@)
        } else {
            None
        };
        match name {
            Some(c) => if no_class_named(classes, c) {
                Some(c)
            } else {
                None
            },
            None => None,
        }
    }
}

/// Whether an invoke instruction (operands at `f.pc`) can issue its call: the
/// entry is resolved, the target exists, and a memoized target finds the
/// runtime and memo-node classes loaded.
pub open spec fn invoke_ready(
    op: u8,
    code: Seq<u8>,
    f: StackFrame,
    heap: Seq<Value>,
    pool: Seq<ConstantPoolValue>,
    classes: Seq<crate::classes::Class>,
) -> bool {
    &&& cp_operand_ok(code, f, pool)
    &&& pool[cp_operand(code, f.pc as int, f)] is MethodRef
    &&& pool[cp_operand(code, f.pc as int, f)]->MethodRef_0 < classes.len()
    &&& pool[cp_operand(code, f.pc as int, f)]->MethodRef_1 < classes[pool[cp_operand(code, f.pc as int, f)]->MethodRef_0 as int].methods@.len()
    &&& invoke_target(op, code, f, heap, pool, classes) matches Some(t) && t.0 < classes.len()
        && t.1 < classes[t.0 as int].methods@.len() && (crate::calls::memoized(classes[t.0 as int].methods@[t.1 as int])
        ==> !no_class_named(classes, RVM_CLASS@) && !no_class_named(classes, MEM_ENTRY_CLASS@))
}

/// Whether `op` is an instruction of the machine.
pub open spec fn is_listed_op(op: u8) -> bool {
    is_frame_op(op) || op == 18 || op == 50 || op == 83 || op == 190 || op == 180 || op == 181 || op == 187 || op
        == 189 || 182 <= op <= 184 || op == 172 || op == 174 || op == 176 || op == 177
}

/// Whether `op` is one of the return instructions.
pub open spec fn is_return_op(op: u8) -> bool {
    172 <= op <= 177
}

/// Whether `op` is one of the return instructions.
pub fn is_return(op_code: u8) -> (r: bool)
    ensures
        r == is_return_op(op_code),
{
    172 <= op_code && op_code <= 177
}

fn pop_int(frame: &mut StackFrame) -> (r: Result<i32, VmError>)
    ensures
        !(r matches Err(VmError::UnknownOpcode(_))),
        keeps_capacity(*old(frame), *final(frame)),
        *final(frame) == (StackFrame { stack: final(frame).stack, ..*old(frame) }),
        r matches Ok(i) ==> old(frame).stack@.len() > 0 && int_value(old(frame).stack@.last()) == Some(i)
            && final(frame).stack@ == old(frame).stack@.drop_last(),
        r is Ok <==> old(frame).stack@.len() > 0 && int_value(old(frame).stack@.last()) is Some,
{
    match frame.pop() {
        Some(Value::Int(i)) => Ok(i),
        Some(Value::Boolean(i)) => Ok(i),
        _ => Err(VmError::StackCorruption),
    }
}

fn pop_ref(frame: &mut StackFrame) -> (r: Result<HeapPtr, VmError>)
    ensures
        !(r matches Err(VmError::UnknownOpcode(_))),
        keeps_capacity(*old(frame), *final(frame)),
        *final(frame) == (StackFrame { stack: final(frame).stack, ..*old(frame) }),
        r matches Ok(h) ==> old(frame).stack@.len() > 0 && old(frame).stack@.last() == Value::Reference(h)
            && final(frame).stack@ == old(frame).stack@.drop_last(),
        r is Ok <==> old(frame).stack@.len() > 0 && old(frame).stack@.last() is Reference,
{
    match frame.pop() {
        Some(Value::Reference(h)) => Ok(h),
        _ => Err(VmError::StackCorruption),
    }
}

fn push_or_fail(frame: &mut StackFrame, v: Value) -> (r: Result<(), VmError>)
    ensures
        !(r matches Err(VmError::UnknownOpcode(_))),
        keeps_capacity(*old(frame), *final(frame)),
        *final(frame) == (StackFrame { stack: final(frame).stack, ..*old(frame) }),
        r is Ok ==> final(frame).stack@ == old(frame).stack@.push(v),
        r is Ok <==> old(frame).stack@.len() < old(frame).max_stack,
{
    if frame.push(v) {
        Ok(())
    } else {
        Err(VmError::StackCorruption)
    }
}

/// Reads the two-byte constant-pool operand and adds the frame's pool base.
fn read_cpi(frame: &mut StackFrame, code: &Vec<u8>) -> (r: Result<ConstantPoolIdx, VmError>)
    ensures
        !(r matches Err(VmError::UnknownOpcode(_))),
        keeps_capacity(*old(frame), *final(frame)),
        *final(frame) == (StackFrame { pc: final(frame).pc, ..*old(frame) }),
        r matches Ok(i) ==> old(frame).pc + 1 < code@.len() && final(frame).pc == old(frame).pc + 2
            && i == old(frame).cp_offset + u16_of(code@[old(frame).pc as int], code@[old(frame).pc + 1]),
        r is Ok <==> old(frame).pc + 1 < code@.len() && old(frame).cp_offset + u16_of(
            code@[old(frame).pc as int],
            code@[old(frame).pc + 1],
        ) <= usize::MAX,
{
    let _n = code.len();
    match frame.read_u16(code) {
        Some(v) => {
            if frame.cp_offset <= usize::MAX - v as usize {
                Ok(frame.cp_offset + v as usize)
            } else {
                Err(VmError::BadCode)
            }
        },
        None => Err(VmError::BadCode),
    }
}

impl VM {
    /// Allocates an object for `new`, checking the class index.
    fn instantiate(&mut self, class_idx: ClassIdx) -> (r: Result<HeapPtr, VmError>)
        ensures
            final(self).stack == old(self).stack,
            final(self).program == old(self).program,
            r matches Ok(p) ==> p == old(self).heap@.len() && class_idx < old(self).program.classes@.len()
                && final(self).heap@ == old(self).heap@.push(
                Value::ClassIndex(class_idx, old(self).program.classes@[class_idx as int].fields@.len() as u16),
            ) + crate::vm::field_zeros(old(self).program.classes@[class_idx as int].fields@),
            r is Err ==> *final(self) == *old(self),
    {
        if class_idx >= self.program.classes.len() || self.program.classes[class_idx].fields.len() > 65535 {
            return Err(VmError::BadCode);
        }
        Ok(self.new_object(class_idx))
    }

    /// `ldc`, `aaload`, `aastore`, `arraylength`, `getfield`, `putfield`, `new`
    /// and `anewarray`; the opcode has been read.
    fn exec_object_op(&mut self, frame: &mut StackFrame, op: u8) -> (r: Result<StackModification, VmError>)
        ensures
            keeps_capacity(*old(frame), *final(frame)),
            final(self).stack == old(self).stack,
            final(self).program.classes == old(self).program.classes,
            final(self).program.code == old(self).program.code,
            r matches Ok(m) ==> (m is Nop || m is Load),
            r matches Ok(StackModification::Load(_)) ==> *final(frame) == (StackFrame { pc: final(frame).pc, ..*old(frame) })
                && final(self).heap == old(self).heap,
            r == Ok::<StackModification, VmError>(StackModification::Nop) ==> object_effect(
                op,
                old(self).program.code@,
                *old(frame),
                *final(frame),
                old(self).heap@,
                final(self).heap@,
                final(self).program.constant_pool@,
                old(self).program.classes@,
            ),
            object_ready(
                op,
                old(self).program.code@,
                *old(frame),
                old(self).heap@,
                ready_pool(
                    op,
                    old(self).program.code@,
                    *old(frame),
                    old(self).program.constant_pool@,
                    old(self).program.classes@,
                    old(self).program.method_keys@,
                ),
                old(self).program.classes@,
            ) ==> r == Ok::<StackModification, VmError>(StackModification::Nop),
            class_needed(op, old(self).program.code@, *old(frame), old(self).program.constant_pool@, old(self).program.classes@) is Some
                && (op == 180 || op == 181 || op == 187 || op == 189) ==> (r matches Ok(StackModification::Load(n)) && Some(n@)
                == class_needed(op, old(self).program.code@, *old(frame), old(self).program.constant_pool@, old(self).program.classes@)),
            !(op == 18 || op == 50 || op == 83 || op == 190 || op == 180 || op == 181 || op == 187 || op == 189) ==> r
                == Err::<StackModification, VmError>(VmError::UnknownOpcode(op)),
            r matches Err(VmError::UnknownOpcode(x)) ==> x == op && !(op == 18 || op == 50 || op == 83 || op == 190 || op
                == 180 || op == 181 || op == 187 || op == 189),
    {
        if op == 18 {
            let idx = match frame.read_u8(&self.program.code) {
                Some(b) => b,
                None => {
                    return Err(VmError::BadCode);
                },
            };
            let _pool_len = self.program.constant_pool.len();
            if frame.cp_offset > usize::MAX - idx as usize || frame.cp_offset + idx as usize >= self.program.constant_pool.len() {
                return Err(VmError::BadCode);
            }
            let v = match &self.program.constant_pool[frame.cp_offset + idx as usize] {
                ConstantPoolValue::String(v) => v.clone_value(),
                ConstantPoolValue::Const(v) => v.clone_value(),
                _ => {
                    return Err(VmError::UnsupportedConstant);
                },
            };
            push_or_fail(frame, v)?;
            Ok(StackModification::Nop)
        } else if op == 50 {
            let idx = pop_int(frame)?;
            let arr = pop_ref(frame)?;
            if idx < 0 || arr > self.heap.len() || self.heap.len() - arr <= 2 + idx as usize {
                return Err(VmError::BadHandle);
            }
            let v = self.heap.get_array_element(arr, idx as usize);
            push_or_fail(frame, v)?;
            Ok(StackModification::Nop)
        } else if op == 83 {
            let v = match frame.pop() {
                Some(v) => v,
                None => {
                    return Err(VmError::StackCorruption);
                },
            };
            let idx = pop_int(frame)?;
            let arr = pop_ref(frame)?;
            if idx < 0 || arr > self.heap.len() || self.heap.len() - arr <= 2 + idx as usize {
                return Err(VmError::BadHandle);
            }
            self.heap.set_array_element(arr, idx as usize, v);
            Ok(StackModification::Nop)
        } else if op == 190 {
            let arr = pop_ref(frame)?;
            if arr > self.heap.len() || self.heap.len() - arr <= 1 {
                return Err(VmError::BadHandle);
            }
            let v = self.heap.get_field(arr, 0);
            push_or_fail(frame, v)?;
            Ok(StackModification::Nop)
        } else if op == 180 || op == 181 {
            let pc0 = frame.pc;
            let cpi = read_cpi(frame, &self.program.code)?;
            let field_idx = match self.resolve_field_reference(cpi)? {
                Resolution::Resolved((_, f)) => f,
                Resolution::NeedsClass(n) => {
                    frame.pc = pc0;
                    return Ok(StackModification::Load(n));
                },
            };
            if op == 180 {
                let obj = pop_ref(frame)?;
                if obj > self.heap.len() || field_idx >= self.heap.len() - obj || self.heap.len() - obj - field_idx <= 1 {
                    return Err(VmError::BadHandle);
                }
                let v = self.heap.get_field(obj, field_idx);
                push_or_fail(frame, v)?;
            } else {
                let v = match frame.pop() {
                    Some(v) => v,
                    None => {
                        return Err(VmError::StackCorruption);
                    },
                };
                let obj = pop_ref(frame)?;
                if obj > self.heap.len() || field_idx >= self.heap.len() - obj || self.heap.len() - obj - field_idx <= 1 {
                    return Err(VmError::BadHandle);
                }
                self.heap.set_field(obj, field_idx, v);
            }
            Ok(StackModification::Nop)
        } else if op == 187 || op == 189 {
            let pc0 = frame.pc;
            let cpi = read_cpi(frame, &self.program.code)?;
            let class_idx = match self.resolve_class_reference(cpi)? {
                Resolution::Resolved(c) => c,
                Resolution::NeedsClass(n) => {
                    frame.pc = pc0;
                    return Ok(StackModification::Load(n));
                },
            };
            if class_idx >= self.program.classes.len() || self.program.classes[class_idx].fields.len() > 65535 {
                return Err(VmError::BadCode);
            }
            let ptr = if op == 187 {
                self.new_object(class_idx)
            } else {
                let count = pop_int(frame)?;
                self.new_object_array(class_idx, count)
            };
            push_or_fail(frame, Value::Reference(ptr))?;
            if frame.modifiers.contains(FRAME_AUTO_FREE) {
                frame.on_instantiate(ptr);
            }
            Ok(StackModification::Nop)
        } else {
            Err(VmError::UnknownOpcode(op))
        }
    }

    /// `invokevirtual`, `invokespecial` and `invokestatic`; the opcode has been read.
    /// A virtual call is redirected through the receiver's class table.
    fn exec_invoke(&mut self, frame: &mut StackFrame, op: u8) -> (r: Result<StackModification, VmError>)
        ensures
            *final(frame) == (StackFrame { pc: final(frame).pc, ..*old(frame) }),
            final(self).stack == old(self).stack,
            final(self).heap == old(self).heap,
            final(self).program.classes == old(self).program.classes,
            final(self).program.code == old(self).program.code,
            r matches Ok(m) ==> (m is Call || m is Load),
            r matches Ok(StackModification::Call(c, m)) ==> c < old(self).program.classes@.len()
                && m < old(self).program.classes@[c as int].methods@.len() && invoke_target(
                op,
                old(self).program.code@,
                *old(frame),
                old(self).heap@,
                final(self).program.constant_pool@,
                old(self).program.classes@,
            ) == Some((c, m)),
            r matches Ok(StackModification::Call(_, _)) ==> final(frame).pc == old(frame).pc + 2,
            invoke_ready(
                op,
                old(self).program.code@,
                *old(frame),
                old(self).heap@,
                ready_pool(
                    op,
                    old(self).program.code@,
                    *old(frame),
                    old(self).program.constant_pool@,
                    old(self).program.classes@,
                    old(self).program.method_keys@,
                ),
                old(self).program.classes@,
            ) ==> r is Ok && r->Ok_0 is Call,
            class_needed(op, old(self).program.code@, *old(frame), old(self).program.constant_pool@, old(self).program.classes@) is Some
                && 182 <= op <= 184 ==> (r matches Ok(StackModification::Load(n)) && Some(n@) == class_needed(
                op,
                old(self).program.code@,
                *old(frame),
                old(self).program.constant_pool@,
                old(self).program.classes@,
            )),
            !(r matches Err(VmError::UnknownOpcode(_))),
    {
        let pc0 = frame.pc;
        let cpi = read_cpi(frame, &self.program.code)?;
        let (ci, mi) = match self.resolve_method_reference(cpi)? {
            Resolution::Resolved(x) => x,
            Resolution::NeedsClass(n) => {
                frame.pc = pc0;
                return Ok(StackModification::Load(n));
            },
        };
        if ci >= self.program.classes.len() || mi >= self.program.classes[ci].methods.len() {
            return Err(VmError::BadCode);
        }
        let (ci, mi) = if op == 182 {
            let args_count = self.program.classes[ci].methods[mi].signature.arguments.len();
            let receiver = match frame.pick(args_count) {
                Some(Value::Reference(h)) => h,
                _ => {
                    return Err(VmError::StackCorruption);
                },
            };
            if receiver >= self.heap.len() {
                return Err(VmError::StackCorruption);
            }
            match &self.heap.values[receiver] {
                Value::ClassIndex(runtime_class, _) => {
                    if *runtime_class >= self.program.classes.len() {
                        return Err(VmError::StackCorruption);
                    }
                    match self.program.classes[*runtime_class].vmt.get((ci, mi)) {
                        Some(t) => t,
                        None => (ci, mi),
                    }
                },
                _ => {
                    return Err(VmError::StackCorruption);
                },
            }
        } else {
            (ci, mi)
        };
        if ci >= self.program.classes.len() || mi >= self.program.classes[ci].methods.len() {
            return Err(VmError::BadCode);
        }
        let method = &self.program.classes[ci].methods[mi];
        if method.flags.contains(crate::flags::MEM) && method.signature.all_references() {
            let rvm = RVM_CLASS.to_string();
            if self.program.class_idx_of(&rvm).is_none() {
                frame.pc = pc0;
                return Ok(StackModification::Load(rvm));
            }
            let entry = MEM_ENTRY_CLASS.to_string();
            if self.program.class_idx_of(&entry).is_none() {
                frame.pc = pc0;
                return Ok(StackModification::Load(entry));
            }
        }
        Ok(StackModification::Call(ci, mi))
    }

    fn execute(&mut self, frame: &mut StackFrame) -> (r: Result<StackModification, VmError>)
        ensures
            old(frame).pc >= old(self).program.code@.len() ==> r == Err::<StackModification, VmError>(VmError::BadCode),
            old(frame).pc < old(self).program.code@.len() && !is_listed_op(old(self).program.code@[old(frame).pc as int]) ==> r == Err::<StackModification, VmError>(
                VmError::UnknownOpcode(old(self).program.code@[old(frame).pc as int]),
            ),
            r matches Err(VmError::UnknownOpcode(x)) ==> old(frame).pc < old(self).program.code@.len() && x == old(self).program.code@[old(frame).pc as int] && !is_listed_op(x),
            old(frame).pc < old(self).program.code@.len() && old(self).program.code@[old(frame).pc as int] == 177 ==> r == Ok::<StackModification, VmError>(
                StackModification::Return(Value::Void),
            ),
            old(frame).pc < old(self).program.code@.len() && (old(self).program.code@[old(frame).pc as int] == 172 || old(self).program.code@[old(frame).pc as int] == 174 || old(self).program.code@[old(frame).pc as int] == 176) ==> (old(frame).stack@.len() > 0 ==> r == Ok::<
                StackModification,
                VmError,
            >(StackModification::Return(old(frame).stack@.last()))) && (old(frame).stack@.len() == 0 ==> r == Err::<
                StackModification,
                VmError,
            >(VmError::StackCorruption)),
            old(frame).pc < old(self).program.code@.len() && object_ready(old(self).program.code@[old(frame).pc as int], old(self).program.code@, StackFrame { pc: (old(frame).pc + 1) as usize, ..*old(frame) }, old(self).heap@, ready_pool(old(self).program.code@[old(frame).pc as int], old(self).program.code@, StackFrame { pc: (old(frame).pc + 1) as usize, ..*old(frame) }, old(self).program.constant_pool@, old(self).program.classes@, old(self).program.method_keys@), old(self).program.classes@) ==> r == Ok::<
                StackModification,
                VmError,
            >(StackModification::Nop),
            old(frame).pc < old(self).program.code@.len() && class_needed(old(self).program.code@[old(frame).pc as int], old(self).program.code@, StackFrame { pc: (old(frame).pc + 1) as usize, ..*old(frame) }, old(self).program.constant_pool@, old(self).program.classes@) is Some ==> (r matches Ok(
                StackModification::Load(n),
            ) && Some(n@) == class_needed(old(self).program.code@[old(frame).pc as int], old(self).program.code@, StackFrame { pc: (old(frame).pc + 1) as usize, ..*old(frame) }, old(self).program.constant_pool@, old(self).program.classes@)),
            old(frame).pc < old(self).program.code@.len() && 182 <= old(self).program.code@[old(frame).pc as int] <= 184 && invoke_ready(old(self).program.code@[old(frame).pc as int], old(self).program.code@, StackFrame { pc: (old(frame).pc + 1) as usize, ..*old(frame) }, old(self).heap@, ready_pool(old(self).program.code@[old(frame).pc as int], old(self).program.code@, StackFrame { pc: (old(frame).pc + 1) as usize, ..*old(frame) }, old(self).program.constant_pool@, old(self).program.classes@, old(self).program.method_keys@), old(self).program.classes@) ==> r is Ok
                && r->Ok_0 is Call && final(frame).pc == old(frame).pc + 3,
            keeps_capacity(*old(frame), *final(frame)),
            final(self).stack == old(self).stack,
            final(self).program.classes == old(self).program.classes,
            final(self).program.code == old(self).program.code,
            old(frame).pc < old(self).program.code@.len() && is_frame_op(old(self).program.code@[old(frame).pc as int])
                ==> match frame_step(
                old(self).program.code@,
                old(frame).pc as int,
                old(frame).stack@,
                old(frame).locals@,
                old(frame).max_stack as int,
            ) {
                Some(s) => r == Ok::<StackModification, VmError>(StackModification::Nop) && frame_is(
                    *old(frame),
                    *final(frame),
                    s,
                ) && final(self).heap == old(self).heap,
                None => r is Err,
            },
            r matches Ok(StackModification::Load(_)) ==> *final(frame) == (StackFrame { pc: final(frame).pc, ..*old(frame) })
                && final(self).heap == old(self).heap,
            r matches Ok(StackModification::Return(v)) ==> final(self).heap == old(self).heap && {
                let op = old(self).program.code@[old(frame).pc as int];
                &&& old(frame).pc < old(self).program.code@.len()
                &&& is_return_op(op)
                &&& op == 177 ==> v == Value::Void && final(frame).stack == old(frame).stack
                &&& op != 177 ==> old(frame).stack@.len() > 0 && v == old(frame).stack@.last()
                    && final(frame).stack@ == old(frame).stack@.drop_last()
            },
            r matches Ok(StackModification::Call(c, m)) ==> c < old(self).program.classes@.len()
                && m < old(self).program.classes@[c as int].methods@.len() && final(self).heap == old(self).heap
                && final(frame).stack == old(frame).stack && old(frame).pc < old(self).program.code@.len() && invoke_target(
                old(self).program.code@[old(frame).pc as int],
                old(self).program.code@,
                StackFrame { pc: (old(frame).pc + 1) as usize, ..*old(frame) },
                old(self).heap@,
                final(self).program.constant_pool@,
                old(self).program.classes@,
            ) == Some((c, m)),
            r == Ok::<StackModification, VmError>(StackModification::Nop) && !is_frame_op(
                old(self).program.code@[old(frame).pc as int],
            ) ==> old(frame).pc < old(self).program.code@.len() && object_effect(
                old(self).program.code@[old(frame).pc as int],
                old(self).program.code@,
                StackFrame { pc: (old(frame).pc + 1) as usize, ..*old(frame) },
                *final(frame),
                old(self).heap@,
                final(self).heap@,
                final(self).program.constant_pool@,
                old(self).program.classes@,
            ),
    {
        let op = match frame.pick_u8(&self.program.code) {
            Some(b) => b,
            None => {
                return Err(VmError::BadCode);
            },
        };
        if is_frame_opcode(op) {
            exec_frame_op(frame, &self.program.code)?;
            return Ok(StackModification::Nop);
        }
        let _n = self.program.code.len();
        frame.pc = frame.pc + 1;
        if op == 172 || op == 174 || op == 176 {
            match frame.pop() {
                Some(v) => Ok(StackModification::Return(v)),
                None => Err(VmError::StackCorruption),
            }
        } else if op == 177 {
            Ok(StackModification::Return(Value::Void))
        } else if 182 <= op && op <= 184 {
            self.exec_invoke(frame, op)
        } else {
            self.exec_object_op(frame, op)
        }
    }

    /// Runs one instruction of the innermost frame.
    pub fn do_command(&mut self) -> (r: Result<StackModification, VmError>)
        ensures
            old(self).stack.frames@.len() == 0 ==> r is Err && *final(self) == *old(self),
            final(self).stack.frames@.len() == old(self).stack.frames@.len(),
            final(self).stack.frames@.drop_last() == old(self).stack.frames@.drop_last(),
            final(self).program.classes == old(self).program.classes,
            final(self).program.code == old(self).program.code,
            frames_within_capacity(old(self).stack.frames@) ==> frames_within_capacity(final(self).stack.frames@),
            old(self).stack.frames@.len() > 0 ==> {
                let f = old(self).stack.frames@.last();
                let g = final(self).stack.frames@.last();
                let code = old(self).program.code@;
                &&& keeps_capacity(f, g)
                &&& (f.pc >= code.len() ==> r == Err::<StackModification, VmError>(VmError::BadCode))
                &&& (f.pc < code.len() && !is_listed_op(code[f.pc as int]) ==> r == Err::<StackModification, VmError>(VmError::UnknownOpcode(code[f.pc as int])))
                &&& (r matches Err(VmError::UnknownOpcode(x)) ==> f.pc < code.len() && x == code[f.pc as int] && !is_listed_op(x))
                &&& (f.pc < code.len() && code[f.pc as int] == 177 ==> r == Ok::<StackModification, VmError>(StackModification::Return(Value::Void)))
                &&& (f.pc < code.len() && (code[f.pc as int] == 172 || code[f.pc as int] == 174 || code[f.pc as int] == 176) ==> (f.stack@.len() > 0 ==> r == Ok::<StackModification, VmError>(StackModification::Return(f.stack@.last()))) && (f.stack@.len() == 0 ==> r == Err::<StackModification, VmError>(VmError::StackCorruption)))
                &&& (f.pc < code.len() && object_ready(code[f.pc as int], code, StackFrame { pc: (f.pc + 1) as usize, ..f }, old(self).heap@, ready_pool(code[f.pc as int], code, StackFrame { pc: (f.pc + 1) as usize, ..f }, old(self).program.constant_pool@, old(self).program.classes@, old(self).program.method_keys@), old(self).program.classes@) ==> r == Ok::<StackModification, VmError>(StackModification::Nop))
                &&& (f.pc < code.len() && class_needed(code[f.pc as int], code, StackFrame { pc: (f.pc + 1) as usize, ..f }, old(self).program.constant_pool@, old(self).program.classes@) is Some ==> (r matches Ok(StackModification::Load(n)) && Some(n@) == class_needed(code[f.pc as int], code, StackFrame { pc: (f.pc + 1) as usize, ..f }, old(self).program.constant_pool@, old(self).program.classes@)))
                &&& (f.pc < code.len() && 182 <= code[f.pc as int] <= 184 && invoke_ready(code[f.pc as int], code, StackFrame { pc: (f.pc + 1) as usize, ..f }, old(self).heap@, ready_pool(code[f.pc as int], code, StackFrame { pc: (f.pc + 1) as usize, ..f }, old(self).program.constant_pool@, old(self).program.classes@, old(self).program.method_keys@), old(self).program.classes@) ==> r is Ok && r->Ok_0 is Call && g.pc == f.pc + 3)
                &&& f.pc < code.len() && is_frame_op(code[f.pc as int]) ==> match frame_step(
                    code,
                    f.pc as int,
                    f.stack@,
                    f.locals@,
                    f.max_stack as int,
                ) {
                    Some(s) => r == Ok::<StackModification, VmError>(StackModification::Nop) && frame_is(f, g, s)
                        && final(self).heap == old(self).heap,
                    None => r is Err,
                }
                &&& r matches Ok(StackModification::Return(v)) ==> final(self).heap == old(self).heap
                    && f.pc < code.len() && is_return_op(code[f.pc as int]) && (code[f.pc as int] == 177 ==> v
                    == Value::Void) && (code[f.pc as int] != 177 ==> f.stack@.len() > 0 && v == f.stack@.last()
                    && g.stack@ == f.stack@.drop_last())
                &&& r matches Ok(StackModification::Call(c, m)) ==> c < old(self).program.classes@.len()
                    && m < old(self).program.classes@[c as int].methods@.len() && g.stack == f.stack
                    && final(self).heap == old(self).heap && f.pc < code.len() && invoke_target(
                    code[f.pc as int],
                    code,
                    StackFrame { pc: (f.pc + 1) as usize, ..f },
                    old(self).heap@,
                    final(self).program.constant_pool@,
                    old(self).program.classes@,
                ) == Some((c, m))
                &&& r == Ok::<StackModification, VmError>(StackModification::Nop) && !is_frame_op(code[f.pc as int])
                    ==> f.pc < code.len() && object_effect(
                    code[f.pc as int],
                    code,
                    StackFrame { pc: (f.pc + 1) as usize, ..f },
                    g,
                    old(self).heap@,
                    final(self).heap@,
                    final(self).program.constant_pool@,
                    old(self).program.classes@,
                )
            },
            r matches Ok(StackModification::Load(_)) ==> final(self).stack.frames@ == old(self).stack.frames@
                && final(self).heap == old(self).heap,
    {
        if self.stack.frames.len() == 0 {
            return Err(VmError::StackCorruption);
        }
        let mut frame = self.stack.frames.pop().unwrap();
        let ghost f = frame;
        let pc0 = frame.pc;
        let r = self.execute(&mut frame);
        if let Ok(StackModification::Load(_)) = &r {
            frame.pc = pc0;
            assert(frame == f);
        }
        self.stack.frames.push(frame);
        assert(self.stack.frames@.drop_last() =~= old(self).stack.frames@.drop_last());
        proof {
            if frames_within_capacity(old(self).stack.frames@) {
                assert(f.wf());
                assert forall|i: int| 0 <= i < self.stack.frames@.len() implies (#[trigger] self.stack.frames@[i]).wf() by {
                    if i < self.stack.frames@.len() - 1 {
                        assert(self.stack.frames@[i] == old(self).stack.frames@[i]);
                    }
                }
            }
            if r matches Ok(StackModification::Load(_)) {
                assert(self.stack.frames@ =~= old(self).stack.frames@);
            }
        }
        r
    }
}

} // verus!
