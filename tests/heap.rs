use rvm::heap::HeapMemory;
use rvm::program::{INTEGER_CLASS_IDX, STRING_BUILDER_CLASS_IDX};
use rvm::value::{Type, Value};
use rvm::vm::VM;

#[test]
fn new_object_has_header_and_zero_fields() {
    let mut vm = VM::new(".");
    let o = vm.new_object(INTEGER_CLASS_IDX);
    assert_eq!(o, 1);
    assert_eq!(vm.heap.get_value(o), Value::ClassIndex(INTEGER_CLASS_IDX, 1));
    assert_eq!(vm.heap.get_field(o, 0), Value::Int(0));
    let b = vm.new_object(STRING_BUILDER_CLASS_IDX);
    assert_eq!(b, 3);
    assert_eq!(vm.heap.get_value(b), Value::ClassIndex(STRING_BUILDER_CLASS_IDX, 1));
    assert_eq!(vm.heap.get_field(b, 0), Value::Reference(0));
}

#[test]
fn new_object_array_holds_fresh_objects() {
    let mut vm = VM::new(".");
    let a = vm.new_object_array(INTEGER_CLASS_IDX, 3);
    assert_eq!(vm.heap.get_value(a), Value::ArrayOf(Type::Reference, INTEGER_CLASS_IDX));
    assert_eq!(vm.heap.get_field(a, 0), Value::Int(3));
    let mut seen = Vec::new();
    for i in 0..3 {
        match vm.heap.get_array_element(a, i) {
            Value::Reference(p) => {
                assert!(p > a + 4);
                assert_eq!(vm.heap.get_value(p), Value::ClassIndex(INTEGER_CLASS_IDX, 1));
                assert!(!seen.contains(&p));
                seen.push(p);
            }
            other => panic!("element is {:?}", other),
        }
    }
}

#[test]
fn empty_array_has_only_header_and_length() {
    let mut heap = HeapMemory::new();
    let a = heap.new_object_array(0, 0);
    assert_eq!(heap.inspect(), vec![Value::Void, Value::ArrayOf(Type::Reference, 0), Value::Int(0)]);
    let b = heap.new_object_array(0, -4);
    assert_eq!(b, a + 2);
    assert_eq!(heap.len(), 5);
}

#[test]
fn free_clears_array_and_elements_and_truncates() {
    let mut vm = VM::new(".");
    let keep = vm.new_object(INTEGER_CLASS_IDX);
    let a = vm.new_object_array(INTEGER_CLASS_IDX, 2);
    assert_eq!(vm.heap.len(), a + 4 + 4);
    vm.heap.free(a);
    assert_eq!(vm.heap.len(), keep + 2);
    assert_eq!(vm.heap.get_value(keep), Value::ClassIndex(INTEGER_CLASS_IDX, 1));
}

#[test]
fn free_in_the_middle_leaves_void_slots() {
    let mut vm = VM::new(".");
    let first = vm.new_object(INTEGER_CLASS_IDX);
    let second = vm.new_object(INTEGER_CLASS_IDX);
    vm.heap.free(first);
    assert_eq!(vm.heap.get_value(first), Value::Void);
    assert_eq!(vm.heap.get_field(first, 0), Value::Void);
    assert_eq!(vm.heap.get_value(second), Value::ClassIndex(INTEGER_CLASS_IDX, 1));
    assert_eq!(vm.heap.len(), second + 2);
}

#[test]
fn free_of_null_keeps_everything() {
    let mut vm = VM::new(".");
    let o = vm.new_object(INTEGER_CLASS_IDX);
    vm.heap.free(0);
    assert_eq!(vm.heap.len(), o + 2);
    vm.heap.free(o);
    assert_eq!(vm.heap.len(), 1);
    assert_eq!(vm.heap.get_value(0), Value::Void);
}

#[test]
fn string_object_layout() {
    let mut vm = VM::new(".");
    let s = vm.new_string(&"hi".to_string());
    assert_eq!(vm.heap.get_value(s), Value::ClassIndex(1, 1));
    assert_eq!(vm.heap.get_field(s, 0), Value::String("hi".to_string()));
}
