//! Native implementations of the built-in `java/lang` classes.
use vstd::prelude::*;
use crate::error::VmError;
use crate::program::{is_name, INTEGER_CLASS_IDX, STRING_CLASS_IDX};
use crate::text::{decimal, decimal_text};
use crate::value::{int_value, same_value, HeapPtr, Value};
use crate::vm::VM;

verus! {

/// Integers in `0..SMALL_INTS` share one cache vector, indexed by value.
pub const SMALL_INTS: i32 = 50;

/// The handle cached for the boxed integer `i`, if any.
pub open spec fn cached_int(ints: Seq<HeapPtr>, more: Seq<(i32, HeapPtr)>, i: i32) -> Option<HeapPtr>
    decreases more.len(),
{
    if 0 <= i < SMALL_INTS {
        if i < ints.len() {
            Some(ints[i as int])
        } else {
            None
        }
    } else if more.len() == 0 {
        None
    } else if more.last().0 == i {
        Some(more.last().1)
    } else {
        cached_int(ints, more.drop_last(), i)
    }
}

proof fn lemma_cached_large(a: Seq<HeapPtr>, b: Seq<HeapPtr>, more: Seq<(i32, HeapPtr)>, j: i32)
    requires
        !(0 <= j < SMALL_INTS),
    ensures
        cached_int(a, more, j) == cached_int(b, more, j),
    decreases more.len(),
{
    if more.len() > 0 {
        lemma_cached_large(a, b, more.drop_last(), j);
    }
}

/// Whether no two entries of the large-integer cache share a value.
pub open spec fn int_keys_unique(more: Seq<(i32, HeapPtr)>) -> bool {
    forall|a: int, b: int| 0 <= a < b < more.len() ==> (#[trigger] more[a]).0 != (#[trigger] more[b]).0
}

proof fn lemma_cached_none(ints: Seq<HeapPtr>, more: Seq<(i32, HeapPtr)>, i: i32)
    requires
        !(0 <= i < SMALL_INTS),
        cached_int(ints, more, i) is None,
    ensures
        forall|a: int| 0 <= a < more.len() ==> (#[trigger] more[a]).0 != i,
    decreases more.len(),
{
    if more.len() > 0 {
        lemma_cached_none(ints, more.drop_last(), i);
        assert forall|a: int| 0 <= a < more.len() implies (#[trigger] more[a]).0 != i by {
            if a < more.len() - 1 {
                assert(more[a] == more.drop_last()[a]);
            }
        }
    }
}

/// Whether `h` is a string object whose text slot holds a string.
pub open spec fn is_string_object(heap: Seq<Value>, h: int) -> bool {
    &&& 0 <= h && h + 1 < heap.len()
    &&& heap[h] is ClassIndex
    &&& heap[h]->ClassIndex_0 == STRING_CLASS_IDX
    &&& heap[h + 1] is String
}

/// The text that `StringBuilder.append` adds for `v`; `None` when it cannot render it.
pub open spec fn append_text(v: Value, heap: Seq<Value>) -> Option<Seq<char>> {
    match v {
        Value::Byte(x) => Some(decimal(x as int)),
        Value::Short(x) => Some(decimal(x as int)),
        Value::Int(x) => Some(decimal(x as int)),
        Value::Long(x) => Some(decimal(x as int)),
        Value::Char(x) => Some(decimal(x as int)),
        Value::Boolean(x) => Some(decimal(x as int)),
        Value::String(s) => Some(s@),
        Value::Reference(h) => if is_string_object(heap, h as int) {
            Some(heap[h + 1]->String_0@)
        } else {
            Some(Seq::empty())
        },
        _ => None,
    }
}

/// The text of a string object's slot, if `h` is a string object.
fn string_object_text(heap: &Vec<Value>, h: HeapPtr) -> (r: Option<String>)
    ensures
        is_string_object(heap@, h as int) ==> r is Some && r.unwrap()@ == heap@[h + 1]->String_0@,
        !is_string_object(heap@, h as int) ==> r is None,
{
    if h < heap.len() && heap.len() - h > 1 {
        match &heap[h] {
            Value::ClassIndex(c, _) => {
                if *c == STRING_CLASS_IDX {
                    match &heap[h + 1] {
                        Value::String(s) => Some(s.clone()),
                        _ => None,
                    }
                } else {
                    None
                }
            },
            _ => None,
        }
    } else {
        None
    }
}

impl VM {
    /// `Object.equals`: `Boolean(1)` when the two values are equal component-wise.
    pub fn object_equals(a: &Value, b: &Value) -> (r: Value)
        ensures
            r == Value::Boolean(if same_value(*a, *b) { 1 } else { 0 }),
    {
        Value::Boolean(if a.same(b) { 1 } else { 0 })
    }

    /// `Integer.valueOf`: the canonical boxed instance of `i`, allocated on first use.
    pub fn integer_value_of(&mut self, i: i32) -> (r: Result<HeapPtr, VmError>)
        ensures
            r is Err <==> !(INTEGER_CLASS_IDX < old(self).program.classes@.len()
                && old(self).program.classes@[INTEGER_CLASS_IDX as int].fields@.len() == 1),
            r is Err ==> *final(self) == *old(self),
            int_keys_unique(old(self).more_ints@) ==> int_keys_unique(final(self).more_ints@),
            r matches Ok(h) ==> cached_int(final(self).ints@, final(self).more_ints@, i) == Some(h)
                && final(self).program == old(self).program && final(self).stack == old(self).stack,
            r matches Ok(h) ==> (cached_int(old(self).ints@, old(self).more_ints@, i) matches Some(h0) ==> h == h0
                && final(self).heap == old(self).heap && final(self).ints == old(self).ints
                && final(self).more_ints == old(self).more_ints),
            r matches Ok(h) ==> forall|j: i32| #[trigger] cached_int(old(self).ints@, old(self).more_ints@, j) is Some
                ==> cached_int(final(self).ints@, final(self).more_ints@, j) == cached_int(
                old(self).ints@,
                old(self).more_ints@,
                j,
            ),
            r matches Ok(h) ==> forall|j: i32| #[trigger] cached_int(final(self).ints@, final(self).more_ints@, j) is Some ==> (
                cached_int(old(self).ints@, old(self).more_ints@, j) is Some || j == i || (0 <= j <= i && i < SMALL_INTS)),
            r matches Ok(h) ==> cached_int(old(self).ints@, old(self).more_ints@, i) is None ==> h + 1 < final(self).heap@.len(),
            r matches Ok(h) ==> cached_int(old(self).ints@, old(self).more_ints@, i) is None ==> old(self).heap@.len() <= h
                < final(self).heap@.len() && final(self).heap@[h as int] == Value::ClassIndex(INTEGER_CLASS_IDX, 1)
                && final(self).heap@[h + 1] == Value::Int(i),
    {
        if INTEGER_CLASS_IDX >= self.program.classes.len() || self.program.classes[INTEGER_CLASS_IDX].fields.len() != 1 {
            return Err(VmError::BadCode);
        }
        if 0 <= i && i < SMALL_INTS {
            let k = i as usize;
            let ghost heap0 = self.heap@;
            if k < self.ints.len() {
                return Ok(self.ints[k]);
            }
            while self.ints.len() <= k
                invariant
                    k < 50,
                    old(self).ints@.len() <= k,
                    old(self).ints@.len() <= self.ints@.len(),
                    self.ints@.len() <= k + 1,
                    self.ints@.subrange(0, old(self).ints@.len() as int) == old(self).ints@,
                    self.more_ints == old(self).more_ints,
                    self.program == old(self).program,
                    self.stack == old(self).stack,
                    INTEGER_CLASS_IDX < self.program.classes@.len(),
                    self.program.classes@[INTEGER_CLASS_IDX as int].fields@.len() == 1,
                    self.heap@.len() >= old(self).heap@.len(),
                    self.ints@.len() > old(self).ints@.len() ==> self.ints@.last() + 1 < self.heap@.len(),
                    self.ints@.len() > old(self).ints@.len() ==> old(self).heap@.len() <= self.ints@.last() < self.heap@.len()
                        && self.heap@[self.ints@.last() as int] == Value::ClassIndex(INTEGER_CLASS_IDX, 1)
                        && self.heap@[self.ints@.last() + 1] == Value::Int((self.ints@.len() - 1) as i32),
                decreases k + 1 - self.ints@.len(),
            {
                let n = self.ints.len();
                let o = self.new_object(INTEGER_CLASS_IDX);
                self.heap.set_field(o, 0, Value::Int(n as i32));
                self.ints.push(o);
                assert(self.ints@.subrange(0, old(self).ints@.len() as int) =~= old(self).ints@);
            }
            proof {
                assert forall|j: i32| #[trigger] cached_int(old(self).ints@, old(self).more_ints@, j) is Some
                    implies cached_int(self.ints@, self.more_ints@, j) == cached_int(
                    old(self).ints@,
                    old(self).more_ints@,
                    j,
                ) by {
                    if 0 <= j < SMALL_INTS {
                        assert(self.ints@[j as int] == self.ints@.subrange(0, old(self).ints@.len() as int)[j as int]);
                    } else {
                        lemma_cached_large(self.ints@, old(self).ints@, self.more_ints@, j);
                    }
                }
                assert forall|j: i32| #[trigger] cached_int(self.ints@, self.more_ints@, j) is Some implies (cached_int(
                    old(self).ints@,
                    old(self).more_ints@,
                    j,
                ) is Some || j == i || (0 <= j <= i && i < SMALL_INTS)) by {
                    if !(0 <= j < SMALL_INTS) {
                        lemma_cached_large(self.ints@, old(self).ints@, self.more_ints@, j);
                    }
                }
            }
            Ok(self.ints[k])
        } else {
            let mut m = self.more_ints.len();
            assert(self.more_ints@.subrange(0, m as int) =~= self.more_ints@);
            while m > 0
                invariant
                    m <= self.more_ints@.len(),
                    *self == *old(self),
                    !(0 <= i < SMALL_INTS),
                    INTEGER_CLASS_IDX < self.program.classes@.len(),
                    self.program.classes@[INTEGER_CLASS_IDX as int].fields@.len() == 1,
                    cached_int(self.ints@, self.more_ints@, i) == cached_int(
                        self.ints@,
                        self.more_ints@.subrange(0, m as int),
                        i,
                    ),
                decreases m,
            {
                let (v, p) = self.more_ints[m - 1];
                if v == i {
                    return Ok(p);
                }
                assert(self.more_ints@.subrange(0, m as int).drop_last() =~= self.more_ints@.subrange(0, m - 1));
                m = m - 1;
            }
            proof {
                lemma_cached_none(self.ints@, self.more_ints@, i);
            }
            let o = self.new_object(INTEGER_CLASS_IDX);
            self.heap.set_field(o, 0, Value::Int(i));
            self.more_ints.push((i, o));
            proof {
                assert(self.more_ints@.drop_last() =~= old(self).more_ints@);
                assert forall|j: i32| #[trigger] cached_int(self.ints@, self.more_ints@, j) is Some implies (cached_int(
                    old(self).ints@,
                    old(self).more_ints@,
                    j,
                ) is Some || j == i || (0 <= j <= i && i < SMALL_INTS)) by {
                    if !(0 <= j < SMALL_INTS) && j != i {
                        assert(cached_int(self.ints@, self.more_ints@, j) == cached_int(self.ints@, old(self).more_ints@, j));
                    }
                }
            }
            Ok(o)
        }
    }

    /// `StringBuilder.append`: adds the text of `v` to the builder's string field.
    pub fn builder_append(&mut self, builder: HeapPtr, v: &Value) -> (r: Result<(), VmError>)
        ensures
            final(self).program == old(self).program,
            final(self).stack == old(self).stack,
            final(self).ints == old(self).ints,
            final(self).more_ints == old(self).more_ints,
            r is Ok ==> {
                ||| (builder + 1 < old(self).heap@.len() && old(self).heap@[builder + 1] is String
                    && append_text(*v, old(self).heap@) is Some
                    && final(self).heap@ == old(self).heap@.update(
                    builder + 1,
                    final(self).heap@[builder + 1],
                ) && final(self).heap@[builder + 1] is String
                    && final(self).heap@[builder + 1]->String_0@ == old(self).heap@[builder + 1]->String_0@
                    + append_text(*v, old(self).heap@).unwrap())
                ||| (!(builder + 1 < old(self).heap@.len() && old(self).heap@[builder + 1] is String)
                    && final(self).heap == old(self).heap)
            },
            r is Err ==> *final(self) == *old(self) && builder + 1 < old(self).heap@.len()
                && old(self).heap@[builder + 1] is String && append_text(*v, old(self).heap@) is None,
    {
        if builder >= self.heap.len() || self.heap.len() - builder <= 1 {
            return Ok(());
        }
        let mut text = match &self.heap.values[builder + 1] {
            Value::String(s) => s.clone(),
            _ => {
                return Ok(());
            },
        };
        let tail: String = match v {
            Value::Byte(x) => decimal_text(*x as i64),
            Value::Short(x) => decimal_text(*x as i64),
            Value::Int(x) => decimal_text(*x as i64),
            Value::Long(x) => decimal_text(*x),
            Value::Char(x) => decimal_text(*x as i64),
            Value::Boolean(x) => decimal_text(*x as i64),
            Value::String(s) => s.clone(),
            Value::Reference(h) => match string_object_text(&self.heap.values, *h) {
                Some(s) => s,
                None => String::new(),
            },
            Value::Float(_) => {
                return Err(VmError::FloatText);
            },
            Value::Double(_) => {
                return Err(VmError::FloatText);
            },
            _ => {
                return Err(VmError::StackCorruption);
            },
        };
        text.append(tail.as_str());
        self.heap.set_field(builder, 0, Value::String(text));
        Ok(())
    }

}

/// The provider of the natives of the built-in `java/lang` classes.
pub struct JavaLang;

impl JavaLang {
    /// The built-in `java/lang` natives; `None` when the method is not one of them.
    pub fn invoke(&self, vm: &mut VM, class_name: &String, name: &String, arguments: &Vec<Value>) -> (r: Result<
        Option<Value>,
        VmError,
    >)
        ensures
            final(vm).program == old(vm).program,
            final(vm).stack == old(vm).stack,
            (class_name@ == "java/lang/Object"@ && name@ == "equals"@ && arguments@.len() >= 2) ==> r == Ok::<
                Option<Value>,
                VmError,
            >(Some(Value::Boolean(if same_value(arguments@[0], arguments@[1]) { 1 } else { 0 }))),
            (class_name@ == "java/lang/Integer"@ && name@ == "valueOf"@ && arguments@.len() >= 1
                && arguments@[0] is Int) ==> (r matches Ok(Some(Value::Reference(h)))
                ==> cached_int(final(vm).ints@, final(vm).more_ints@, arguments@[0]->Int_0) == Some(h)),
            (class_name@ == "java/lang/Object"@ && name@ == "equals"@) ==> *final(vm) == *old(vm),
            (class_name@ == "java/lang/Integer"@ && name@ == "valueOf"@ && arguments@.len() >= 1 && int_value(arguments@[0]) is Some)
                ==> (r is Ok <==> INTEGER_CLASS_IDX < old(vm).program.classes@.len()
                && old(vm).program.classes@[INTEGER_CLASS_IDX as int].fields@.len() == 1) && (r is Ok ==> (r matches Ok(
                Some(Value::Reference(h)),
            ) && cached_int(final(vm).ints@, final(vm).more_ints@, int_value(arguments@[0]).unwrap()) == Some(h) && {
                let i = int_value(arguments@[0]).unwrap();
                &&& cached_int(old(vm).ints@, old(vm).more_ints@, i) matches Some(h0) ==> h == h0
                    && final(vm).heap == old(vm).heap
                &&& cached_int(old(vm).ints@, old(vm).more_ints@, i) is None ==> old(vm).heap@.len() <= h
                    && h + 1 < final(vm).heap@.len() && final(vm).heap@[h as int] == Value::ClassIndex(INTEGER_CLASS_IDX, 1)
                    && final(vm).heap@[h + 1] == Value::Int(i)
                &&& forall|j: i32| #[trigger] cached_int(old(vm).ints@, old(vm).more_ints@, j) is Some ==> cached_int(
                    final(vm).ints@,
                    final(vm).more_ints@,
                    j,
                ) == cached_int(old(vm).ints@, old(vm).more_ints@, j)
                &&& forall|j: i32| #[trigger] cached_int(final(vm).ints@, final(vm).more_ints@, j) is Some ==> (
                    cached_int(old(vm).ints@, old(vm).more_ints@, j) is Some || j == i || (0 <= j <= i && i < SMALL_INTS))
            })),
            (class_name@ == "java/lang/Integer"@ && name@ == "intValue"@ && arguments@.len() >= 1 && arguments@[0] is Reference
                && arguments@[0]->Reference_0 + 1 < old(vm).heap@.len()) ==> r == Ok::<Option<Value>, VmError>(
                Some(old(vm).heap@[arguments@[0]->Reference_0 + 1]),
            ) && *final(vm) == *old(vm),
            (class_name@ == "java/lang/StringBuilder"@ && name@ == "append"@ && arguments@.len() >= 2 && arguments@[0] is Reference
                && !(arguments@[0]->Reference_0 + 1 < old(vm).heap@.len() && old(vm).heap@[arguments@[0]->Reference_0
                + 1] is String && append_text(arguments@[1], old(vm).heap@) is None)) ==> {
                let b = arguments@[0]->Reference_0;
                &&& r == Ok::<Option<Value>, VmError>(Some(arguments@[0]))
                &&& b + 1 < old(vm).heap@.len() && old(vm).heap@[b + 1] is String ==> final(vm).heap@
                    == old(vm).heap@.update(b + 1, final(vm).heap@[b + 1]) && final(vm).heap@[b + 1] is String
                    && final(vm).heap@[b + 1]->String_0@ == old(vm).heap@[b + 1]->String_0@ + append_text(
                    arguments@[1],
                    old(vm).heap@,
                ).unwrap()
                &&& !(b + 1 < old(vm).heap@.len() && old(vm).heap@[b + 1] is String) ==> final(vm).heap
                    == old(vm).heap
            },
            (class_name@ == "java/lang/StringBuilder"@ && name@ == "<init>"@ && arguments@.len() >= 1
                && arguments@[0] is Reference && arguments@[0]->Reference_0 + 1 < old(vm).heap@.len()) ==> {
                let h = arguments@[0]->Reference_0;
                &&& r == Ok::<Option<Value>, VmError>(Some(Value::Void))
                &&& final(vm).heap@ == old(vm).heap@.update(h + 1, final(vm).heap@[h + 1])
                &&& final(vm).heap@[h + 1] is String && final(vm).heap@[h + 1]->String_0@ == Seq::<char>::empty()
            },
            (class_name@ == "java/lang/StringBuilder"@ && name@ == "toString"@ && arguments@.len() >= 1
                && arguments@[0] is Reference && arguments@[0]->Reference_0 + 1 < old(vm).heap@.len()) ==> {
                let h = arguments@[0]->Reference_0;
                &&& r == Ok::<Option<Value>, VmError>(Some(Value::Reference(old(vm).heap@.len() as usize)))
                &&& final(vm).heap@ == old(vm).heap@.push(Value::ClassIndex(STRING_CLASS_IDX, 1)).push(
                    old(vm).heap@[h + 1],
                )
            },
            !((class_name@ == "java/lang/Object"@ && name@ == "equals"@) || (class_name@ == "java/lang/Integer"@ && (name@
                == "valueOf"@ || name@ == "intValue"@)) || (class_name@ == "java/lang/StringBuilder"@ && (name@
                == "<init>"@ || name@ == "toString"@ || name@ == "append"@))) ==> r == Ok::<
                Option<Value>,
                VmError,
            >(None) && *final(vm) == *old(vm),
    {
        proof {
            reveal_strlit("java/lang/Object");
            reveal_strlit("java/lang/Integer");
            reveal_strlit("java/lang/StringBuilder");
            reveal_strlit("equals");
            reveal_strlit("valueOf");
            reveal_strlit("intValue");
            reveal_strlit("<init>");
            reveal_strlit("toString");
            reveal_strlit("append");
            assert("<init>"@[0] != "append"@[0]);
            assert("java/lang/Object"@.len() != "java/lang/Integer"@.len());
            assert("java/lang/Object"@.len() != "java/lang/StringBuilder"@.len());
            assert("java/lang/Integer"@.len() != "java/lang/StringBuilder"@.len());
            assert("valueOf"@.len() != "intValue"@.len());
            assert("toString"@.len() != "append"@.len() && "toString"@.len() != "<init>"@.len());
        }
        if is_name(class_name, "java/lang/Object") && is_name(name, "equals") {
            if arguments.len() < 2 {
                return Err(VmError::StackCorruption);
            }
            Ok(Some(VM::object_equals(&arguments[0], &arguments[1])))
        } else if is_name(class_name, "java/lang/Integer") && is_name(name, "intValue") {
            if arguments.len() < 1 {
                return Err(VmError::StackCorruption);
            }
            match &arguments[0] {
                Value::Reference(p) => {
                    if *p >= vm.heap.len() || vm.heap.len() - *p <= 1 {
                        return Err(VmError::BadHandle);
                    }
                    Ok(Some(vm.heap.get_field(*p, 0)))
                },
                _ => Err(VmError::StackCorruption),
            }
        } else if is_name(class_name, "java/lang/Integer") && is_name(name, "valueOf") {
            if arguments.len() < 1 {
                return Err(VmError::StackCorruption);
            }
            match &arguments[0] {
                Value::Int(i) => {
                    let h = vm.integer_value_of(*i)?;
                    Ok(Some(Value::Reference(h)))
                },
                Value::Boolean(i) => {
                    let h = vm.integer_value_of(*i)?;
                    Ok(Some(Value::Reference(h)))
                },
                _ => Err(VmError::StackCorruption),
            }
        } else if is_name(class_name, "java/lang/StringBuilder") && is_name(name, "<init>") {
            if arguments.len() >= 1 {
                if let Value::Reference(h) = &arguments[0] {
                    if *h < vm.heap.len() && vm.heap.len() - *h > 1 {
                        vm.heap.set_field(*h, 0, Value::String(String::new()));
                    }
                }
            }
            Ok(Some(Value::Void))
        } else if is_name(class_name, "java/lang/StringBuilder") && is_name(name, "toString") {
            if arguments.len() >= 1 {
                if let Value::Reference(h) = &arguments[0] {
                    if *h < vm.heap.len() && vm.heap.len() - *h > 1 {
                        let v = vm.heap.get_field(*h, 0);
                        let p = vm.heap.new_object(STRING_CLASS_IDX, 1);
                        vm.heap.new_object_field(v);
                        return Ok(Some(Value::Reference(p)));
                    }
                    return Err(VmError::BadHandle);
                }
            }
            Ok(None)
        } else if is_name(class_name, "java/lang/StringBuilder") && is_name(name, "append") {
            if arguments.len() < 2 {
                return Err(VmError::StackCorruption);
            }
            if let Value::Reference(h) = &arguments[0] {
                vm.builder_append(*h, &arguments[1])?;
            }
            Ok(Some(arguments[0].clone_value()))
        } else {
            Ok(None)
        }
    }
}

} // verus!
