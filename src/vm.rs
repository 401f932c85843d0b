//! The machine state: frame stack, heap, program image and the integer cache,
//! with allocation of objects, arrays and strings.
use vstd::prelude::*;
use crate::class_loader::ClassLoader;
use crate::classes::{Class, ConstantPoolValue, Field, Method};
use crate::heap::HeapMemory;
use crate::program::{Program, STRING_CLASS_IDX};
use crate::stack::Stack;
use crate::value::{zero_value, ClassIdx, CodePtr, ConstantPoolIdx, HeapPtr, MethodInClassIdx, Type, Value};

verus! {

/// The zero values of a class's fields, in order.
pub open spec fn field_zeros(fields: Seq<Field>) -> Seq<Value> {
    Seq::new(fields.len(), |i: int| zero_value(fields[i].value_type))
}

/// An object allocated by `new_object` reads back, through `get_value` and
/// `get_field`, as its header `ClassIndex(class, n)` followed by the zero value
/// of each field's declared type.
pub proof fn new_object_reads_back(before: Seq<Value>, after: Seq<Value>, class_idx: ClassIdx, fields: Seq<Field>)
    requires
        fields.len() <= u16::MAX,
        after == before.push(Value::ClassIndex(class_idx, fields.len() as u16)) + field_zeros(fields),
    ensures
        after[before.len() as int] == Value::ClassIndex(class_idx, fields.len() as u16),
        forall|i: int| 0 <= i < fields.len() ==> #[trigger] after[before.len() + 1 + i] == zero_value(fields[i].value_type),
{
    assert forall|i: int| 0 <= i < fields.len() implies #[trigger] after[before.len() + 1 + i] == zero_value(
        fields[i].value_type,
    ) by {
        assert(after[before.len() + 1 + i] == field_zeros(fields)[i]);
    }
}

/// Whether the object at `p` has its field slots at the zero values of `fields`.
pub open spec fn zero_fields_at(heap: Seq<Value>, p: int, fields: Seq<Field>) -> bool {
    &&& p + fields.len() < heap.len()
    &&& forall|j: int| 0 <= j < fields.len() ==> #[trigger] heap[p + 1 + j] == zero_value(fields[j].value_type)
}

proof fn lemma_zero_fields_kept(a: Seq<Value>, b: Seq<Value>, p: int, fields: Seq<Field>)
    requires
        zero_fields_at(a, p, fields),
        b.len() >= a.len(),
        forall|x: int| p < x < a.len() ==> #[trigger] b[x] == a[x],
    ensures
        zero_fields_at(b, p, fields),
{
    assert forall|j: int| 0 <= j < fields.len() implies #[trigger] b[p + 1 + j] == zero_value(fields[j].value_type) by {
        assert(b[p + 1 + j] == a[p + 1 + j]);
    }
}

/// The virtual machine.
pub struct VM {
    pub stack: Stack,
    pub heap: HeapMemory,
    pub class_loader: ClassLoader,
    pub program: Program,
    /// Boxed integers `0, 1, …` in order, grown on demand.
    pub ints: Vec<HeapPtr>,
    /// Boxed integers outside the small range, as `(value, handle)`.
    pub more_ints: Vec<(i32, HeapPtr)>,
}

impl VM {
    /// A machine with the built-in classes, an empty stack and a heap holding
    /// only the null sentinel.
    pub fn new(classpath: &str) -> (r: VM)
        ensures
            r.stack.frames@.len() == 0,
            r.heap@ == seq![Value::Void],
            r.class_loader.base_path@ == classpath@,
            r.program.classes@.len() == 4,
            r.program.classes@[0].name@ == crate::program::OBJECT_CLASS@,
            r.program.classes@[1].name@ == crate::program::STRING_CLASS@,
            r.program.classes@[2].name@ == crate::program::STRING_BUILDER_CLASS@,
            forall|c: int| 0 <= c < 4 ==> (#[trigger] r.program.classes@[c]).super_class_idx == 0,
            r.program.classes@[0].fields@.len() == 0,
            r.program.classes@[1].fields@.len() == 0,
            r.program.classes@[2].fields@.len() == 1,
            r.program.classes@[2].fields@[0].value_type == Type::Reference,
            r.program.constant_pool@.len() == 1,
            r.program.constant_pool@[0] is Skip,
            r.program.method_keys@.len() == 8,
            forall|j: int| 0 <= j < 8 ==> crate::program::key_is(
                #[trigger] r.program.method_keys@[j],
                crate::program::builtin_key(j),
            ),
            r.program.classes@[3].name@ == crate::program::INTEGER_CLASS@,
            r.program.classes@[3].fields@.len() == 1,
            r.program.classes@[3].fields@[0].value_type == Type::Int,
            r.program.code@ == seq![0u8, 177u8],
            r.ints@.len() == 0,
            r.more_ints@.len() == 0,
            crate::program::class_names_unique(r.program.classes@),
            crate::program::method_keys_unique(r.program.method_keys@),
            crate::program::method_keys_below(r.program.method_keys@, r.program.classes@.len() as int),
    {
        VM {
            stack: Stack::new(),
            heap: HeapMemory::new(),
            class_loader: ClassLoader::new(classpath),
            program: Program::init(),
            ints: Vec::new(),
            more_ints: Vec::new(),
        }
    }

    /// The index of the loaded class `name`, if it is loaded.
    pub fn get_or_load_class_idx(&self, name: &String) -> (r: Option<ClassIdx>)
        ensures
            r matches Some(i) ==> i < self.program.classes@.len() && self.program.classes@[i as int].name@ == name@,
            r is None ==> forall|j: int|
                0 <= j < self.program.classes@.len() ==> (#[trigger] self.program.classes@[j]).name@ != name@,
    {
        self.program.class_idx_of(name)
    }

    /// The loaded class `name`, if it is loaded.
    pub fn get_or_load_class(&self, name: &str) -> (r: Option<&Class>)
        ensures
            r matches Some(c) ==> exists|i: int|
                0 <= i < self.program.classes@.len() && self.program.classes@[i] == *c && c.name@ == name@,
            r is None ==> forall|j: int|
                0 <= j < self.program.classes@.len() ==> (#[trigger] self.program.classes@[j]).name@ != name@,
    {
        let n = name.to_string();
        match self.program.class_idx_of(&n) {
            Some(i) => Some(&self.program.classes[i]),
            None => None,
        }
    }

    /// Class `idx`.
    pub fn get_class(&self, idx: ClassIdx) -> (r: &Class)
        requires
            idx < self.program.classes@.len(),
        ensures
            *r == self.program.classes@[idx as int],
    {
        &self.program.classes[idx]
    }

    /// Method `method_idx` of class `idx`.
    pub fn get_method(&self, idx: ClassIdx, method_idx: MethodInClassIdx) -> (r: &Method)
        requires
            idx < self.program.classes@.len(),
            method_idx < self.program.classes@[idx as int].methods@.len(),
        ensures
            *r == self.program.classes@[idx as int].methods@[method_idx as int],
    {
        &self.program.classes[idx].methods[method_idx]
    }

    /// Method `method_idx` of class `idx`, for update.
    pub fn get_method_mut(&mut self, idx: ClassIdx, method_idx: MethodInClassIdx) -> (r: &mut Method)
        requires
            idx < old(self).program.classes@.len(),
            method_idx < old(self).program.classes@[idx as int].methods@.len(),
        ensures
            *r == old(self).program.classes@[idx as int].methods@[method_idx as int],
            final(self).program.classes@.len() == old(self).program.classes@.len(),
            final(self).program.classes@[idx as int].methods@ == old(self).program.classes@[idx as int].methods@.update(
                method_idx as int,
                *final(r),
            ),
            final(self).heap == old(self).heap,
            final(self).stack == old(self).stack,
    {
        &mut self.program.classes[idx].methods[method_idx]
    }

    /// Allocates an object of class `class_idx` with every field at its zero value.
    pub fn new_object(&mut self, class_idx: ClassIdx) -> (r: HeapPtr)
        requires
            class_idx < old(self).program.classes@.len(),
            old(self).program.classes@[class_idx as int].fields@.len() <= u16::MAX,
        ensures
            r == old(self).heap@.len(),
            final(self).heap@ == old(self).heap@.push(
                Value::ClassIndex(class_idx, old(self).program.classes@[class_idx as int].fields@.len() as u16),
            ) + field_zeros(old(self).program.classes@[class_idx as int].fields@),
            final(self).program == old(self).program,
            final(self).stack == old(self).stack,
            final(self).ints == old(self).ints,
            final(self).more_ints == old(self).more_ints,
    {
        let fields = &self.program.classes[class_idx].fields;
        let ptr = self.heap.new_object(class_idx, fields.len() as u16);
        let ghost base = self.heap@;
        let mut i: usize = 0;
        while i < fields.len()
            invariant
                class_idx < old(self).program.classes@.len(),
                fields@ == old(self).program.classes@[class_idx as int].fields@,
                self.program == old(self).program,
                self.stack == old(self).stack,
                self.ints == old(self).ints,
                self.more_ints == old(self).more_ints,
                i <= fields@.len(),
                self.heap@ == base + field_zeros(fields@.subrange(0, i as int)),
            decreases fields@.len() - i,
        {
            let t = fields[i].value_type;
            let v = if t == Type::Void {
                Value::Void
            } else {
                t.default_value()
            };
            self.heap.new_object_field(v);
            assert(field_zeros(fields@.subrange(0, i + 1)) =~= field_zeros(fields@.subrange(0, i as int)).push(v));
            i = i + 1;
        }
        assert(fields@.subrange(0, i as int) =~= fields@);
        ptr
    }

    /// Allocates an array of `length` fresh objects of class `class_idx`.
    pub fn new_object_array(&mut self, class_idx: ClassIdx, length: i32) -> (r: HeapPtr)
        requires
            class_idx < old(self).program.classes@.len(),
            old(self).program.classes@[class_idx as int].fields@.len() <= u16::MAX,
        ensures
            r == old(self).heap@.len(),
            final(self).heap@.len() >= r + 2 + (if length < 0 { 0 } else { length as int }),
            final(self).heap@[r as int] == Value::ArrayOf(Type::Reference, class_idx),
            final(self).heap@[r + 1] == Value::Int(length),
            forall|i: int| #![trigger final(self).heap@[r + 2 + i]]
                0 <= i < length ==> (final(self).heap@[r + 2 + i] matches Value::Reference(p)
                    && r + 2 + length <= p < final(self).heap@.len()
                    && final(self).heap@[p as int] == Value::ClassIndex(
                        class_idx,
                        old(self).program.classes@[class_idx as int].fields@.len() as u16,
                    ) && zero_fields_at(final(self).heap@, p as int, old(self).program.classes@[class_idx as int].fields@)),
            forall|i: int, j: int| #![trigger final(self).heap@[r + 2 + i], final(self).heap@[r + 2 + j]]
                0 <= i < j < length ==> (final(self).heap@[r + 2 + i] matches Value::Reference(p)
                    && final(self).heap@[r + 2 + j] matches Value::Reference(q) && p < q),
            forall|i: int| 0 <= i < old(self).heap@.len() ==> #[trigger] final(self).heap@[i] == old(self).heap@[i],
            final(self).program == old(self).program,
            final(self).stack == old(self).stack,
            final(self).ints == old(self).ints,
            final(self).more_ints == old(self).more_ints,
    {
        let arr_ptr = self.heap.new_object_array(class_idx, length);
        let ghost n = old(self).program.classes@[class_idx as int].fields@.len() as u16;
        let ghost mid = self.heap@;
        let ghost cnt: int = if length < 0 { 0 } else { length as int };
        assert(mid.len() == arr_ptr + 2 + cnt);
        let mut i: i32 = 0;
        while i < length
            invariant
                0 <= i,
                length >= 0 ==> i <= length,
                length < 0 ==> i == 0,
                self.program == old(self).program,
                self.stack == old(self).stack,
                self.ints == old(self).ints,
                self.more_ints == old(self).more_ints,
                class_idx < self.program.classes@.len(),
                self.program.classes@[class_idx as int].fields@.len() <= u16::MAX,
                n == self.program.classes@[class_idx as int].fields@.len() as u16,
                mid.len() == arr_ptr + 2 + cnt,
                cnt == (if length < 0 { 0 } else { length as int }),
                self.heap@.len() >= mid.len(),
                forall|k: int| 0 <= k < arr_ptr + 2 ==> #[trigger] self.heap@[k] == mid[k],
                forall|k: int| i <= k < cnt ==> #[trigger] self.heap@[arr_ptr + 2 + k] == Value::Reference(0),
                forall|k: int| #![trigger self.heap@[arr_ptr + 2 + k]]
                    0 <= k < i ==> (self.heap@[arr_ptr + 2 + k] matches Value::Reference(p)
                        && arr_ptr + 2 + cnt <= p < self.heap@.len()
                        && self.heap@[p as int] == Value::ClassIndex(class_idx, n)
                        && zero_fields_at(self.heap@, p as int, self.program.classes@[class_idx as int].fields@)),
                forall|k: int, j: int| #![trigger self.heap@[arr_ptr + 2 + k], self.heap@[arr_ptr + 2 + j]]
                    0 <= k < j < i ==> (self.heap@[arr_ptr + 2 + k] matches Value::Reference(p)
                        && self.heap@[arr_ptr + 2 + j] matches Value::Reference(q) && p < q),
            decreases length - i,
        {
            let ghost before = self.heap@;
            let o_ptr = self.new_object(class_idx);
            let ghost after_alloc = self.heap@;
            assert(self.heap@[o_ptr as int] == Value::ClassIndex(class_idx, n));
            self.heap.set_array_element(arr_ptr, i as usize, Value::Reference(o_ptr));
            let ghost fields = self.program.classes@[class_idx as int].fields@;
            proof {
                new_object_reads_back(before, after_alloc, class_idx, fields);
                assert(zero_fields_at(after_alloc, o_ptr as int, fields));
                lemma_zero_fields_kept(after_alloc, self.heap@, o_ptr as int, fields);
            }
            assert forall|k: int| #![trigger self.heap@[arr_ptr + 2 + k]]
                0 <= k < i + 1 implies (self.heap@[arr_ptr + 2 + k] matches Value::Reference(p)
                    && arr_ptr + 2 + cnt <= p < self.heap@.len()
                    && self.heap@[p as int] == Value::ClassIndex(class_idx, n)
                    && zero_fields_at(self.heap@, p as int, fields)) by {
                if k < i {
                    assert(self.heap@[arr_ptr + 2 + k] == before[arr_ptr + 2 + k]);
                    let p = before[arr_ptr + 2 + k]->Reference_0 as int;
                    lemma_zero_fields_kept(before, self.heap@, p, fields);
                }
            }
            assert forall|k: int, j: int| #![trigger self.heap@[arr_ptr + 2 + k], self.heap@[arr_ptr + 2 + j]]
                0 <= k < j < i + 1 implies (self.heap@[arr_ptr + 2 + k] matches Value::Reference(p)
                    && self.heap@[arr_ptr + 2 + j] matches Value::Reference(q) && p < q) by {
                assert(self.heap@[arr_ptr + 2 + k] == before[arr_ptr + 2 + k]);
                if j < i {
                    assert(self.heap@[arr_ptr + 2 + j] == before[arr_ptr + 2 + j]);
                }
            }
            i = i + 1;
        }
        arr_ptr
    }

    /// Allocates a string object: a `String` header and one slot holding the text.
    pub fn new_string(&mut self, string_value: &String) -> (r: HeapPtr)
        ensures
            r == old(self).heap@.len(),
            final(self).heap@ == old(self).heap@.push(Value::ClassIndex(STRING_CLASS_IDX, 1)).push(
                Value::String(*string_value),
            ),
            final(self).program == old(self).program,
            final(self).stack == old(self).stack,
            final(self).ints == old(self).ints,
            final(self).more_ints == old(self).more_ints,
    {
        let obj_ptr = self.heap.new_object(STRING_CLASS_IDX, 1);
        self.heap.append(string_value);
        obj_ptr
    }

    /// The code byte at `code_ptr`, if there is one.
    pub fn code_read_u8(&self, code_ptr: CodePtr) -> (r: Option<u8>)
        ensures
            code_ptr < self.program.code@.len() ==> r == Some(self.program.code@[code_ptr as int]),
            code_ptr >= self.program.code@.len() ==> r is None,
    {
        if code_ptr < self.program.code.len() {
            Some(self.program.code[code_ptr])
        } else {
            None
        }
    }

    /// Constant-pool entry `cpi`.
    pub fn get_constant_pool_value(&self, cpi: ConstantPoolIdx) -> (r: &ConstantPoolValue)
        requires
            cpi < self.program.constant_pool@.len(),
        ensures
            *r == self.program.constant_pool@[cpi as int],
    {
        &self.program.constant_pool[cpi]
    }

    /// Rewrites constant-pool entry `cpi`.
    pub fn set_constant_pool_value(&mut self, cpi: ConstantPoolIdx, value: ConstantPoolValue)
        requires
            cpi < old(self).program.constant_pool@.len(),
        ensures
            final(self).program.constant_pool@ == old(self).program.constant_pool@.update(cpi as int, value),
            final(self).program.classes == old(self).program.classes,
            final(self).program.code == old(self).program.code,
            final(self).program.method_keys == old(self).program.method_keys,
            final(self).heap == old(self).heap,
            final(self).stack == old(self).stack,
            final(self).ints == old(self).ints,
            final(self).more_ints == old(self).more_ints,
    {
        self.program.constant_pool.set(cpi, value);
    }
}

} // verus!
