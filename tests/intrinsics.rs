use rvm::java_lang::JavaLang;
use rvm::error::VmError;
use rvm::program::STRING_BUILDER_CLASS_IDX;
use rvm::rvm_class::{HostRequest, NativeResult, PrintPiece, RvmClass};
use rvm::value::Value;
use rvm::vm::VM;

fn s(text: &str) -> String {
    text.to_string()
}

#[test]
fn integer_cache_small_values() {
    let mut vm = VM::new(".");
    let a = vm.integer_value_of(5).unwrap();
    let b = vm.integer_value_of(5).unwrap();
    assert_eq!(a, b);
    let c = vm.integer_value_of(6).unwrap();
    assert_ne!(a, c);
    assert_eq!(vm.heap.get_field(a, 0), Value::Int(5));
    assert_eq!(vm.heap.get_field(c, 0), Value::Int(6));
}

#[test]
fn integer_cache_large_values() {
    let mut vm = VM::new(".");
    let a = vm.integer_value_of(1000).unwrap();
    let b = vm.integer_value_of(1000).unwrap();
    assert_eq!(a, b);
    let c = vm.integer_value_of(-7).unwrap();
    assert_ne!(a, c);
    assert_eq!(vm.heap.get_field(c, 0), Value::Int(-7));
}

#[test]
fn integer_value_of_through_native_dispatch() {
    let mut vm = VM::new(".");
    let r1 = JavaLang.invoke(&mut vm, &s("java/lang/Integer"), &s("valueOf"), &vec![Value::Int(49)]).unwrap();
    let r2 = JavaLang.invoke(&mut vm, &s("java/lang/Integer"), &s("valueOf"), &vec![Value::Int(49)]).unwrap();
    assert_eq!(r1, r2);
    let h = match r1 {
        Some(Value::Reference(h)) => h,
        other => panic!("{:?}", other),
    };
    let v = JavaLang.invoke(&mut vm, &s("java/lang/Integer"), &s("intValue"), &vec![Value::Reference(h)]).unwrap();
    assert_eq!(v, Some(Value::Int(49)));
}

#[test]
fn object_equals_compares_components() {
    let mut vm = VM::new(".");
    let eq = JavaLang.invoke(&mut vm, &s("java/lang/Object"), &s("equals"), &vec![Value::Reference(3), Value::Reference(3)]);
    assert_eq!(eq, Ok(Some(Value::Boolean(1))));
    let ne = JavaLang.invoke(&mut vm, &s("java/lang/Object"), &s("equals"), &vec![Value::Reference(3), Value::Reference(4)]);
    assert_eq!(ne, Ok(Some(Value::Boolean(0))));
    let strings = JavaLang.invoke(&mut vm, 
        &s("java/lang/Object"),
        &s("equals"),
        &vec![Value::String(s("ab")), Value::String(s("ab"))],
    );
    assert_eq!(strings, Ok(Some(Value::Boolean(1))));
}

#[test]
fn unknown_native_is_not_claimed() {
    let mut vm = VM::new(".");
    assert_eq!(JavaLang.invoke(&mut vm, &s("java/lang/Math"), &s("abs"), &vec![Value::Int(1)]), Ok(None));
    assert_eq!(RvmClass.invoke(&vm, &s("java/lang/Math"), &s("abs"), &vec![]), Ok(None));
}

#[test]
fn string_builder_appends_text_and_numbers() {
    let mut vm = VM::new(".");
    let b = vm.new_object(STRING_BUILDER_CLASS_IDX);
    let sb = s("java/lang/StringBuilder");
    JavaLang.invoke(&mut vm, &sb, &s("<init>"), &vec![Value::Reference(b)]).unwrap();
    let prefix = vm.new_string(&s("x="));
    let r = JavaLang.invoke(&mut vm, &sb, &s("append"), &vec![Value::Reference(b), Value::Reference(prefix)]).unwrap();
    assert_eq!(r, Some(Value::Reference(b)));
    JavaLang.invoke(&mut vm, &sb, &s("append"), &vec![Value::Reference(b), Value::Int(42)]).unwrap();
    let out = JavaLang.invoke(&mut vm, &sb, &s("toString"), &vec![Value::Reference(b)]).unwrap();
    let h = match out {
        Some(Value::Reference(h)) => h,
        other => panic!("{:?}", other),
    };
    assert_eq!(vm.heap.get_value(h), Value::ClassIndex(1, 1));
    assert_eq!(vm.heap.get_field(h, 0), Value::String(s("x=42")));
}

#[test]
fn string_builder_renders_negative_and_boolean() {
    let mut vm = VM::new(".");
    let b = vm.new_object(STRING_BUILDER_CLASS_IDX);
    let sb = s("java/lang/StringBuilder");
    JavaLang.invoke(&mut vm, &sb, &s("<init>"), &vec![Value::Reference(b)]).unwrap();
    JavaLang.invoke(&mut vm, &sb, &s("append"), &vec![Value::Reference(b), Value::Long(-1234567890123)]).unwrap();
    JavaLang.invoke(&mut vm, &sb, &s("append"), &vec![Value::Reference(b), Value::Boolean(1)]).unwrap();
    JavaLang.invoke(&mut vm, &sb, &s("append"), &vec![Value::Reference(b), Value::Char(65)]).unwrap();
    assert_eq!(vm.heap.get_field(b, 0), Value::String(s("-1234567890123165")));
}

#[test]
fn string_builder_refuses_floats() {
    let mut vm = VM::new(".");
    let b = vm.new_object(STRING_BUILDER_CLASS_IDX);
    let sb = s("java/lang/StringBuilder");
    JavaLang.invoke(&mut vm, &sb, &s("<init>"), &vec![Value::Reference(b)]).unwrap();
    let r = JavaLang.invoke(&mut vm, &sb, &s("append"), &vec![Value::Reference(b), Value::Float(0)]);
    assert_eq!(r, Err(VmError::FloatText));
}

#[test]
fn print_renders_values() {
    let mut vm = VM::new(".");
    let text = vm.new_string(&s("hello"));
    let boxed = vm.integer_value_of(7).unwrap();
    let r = RvmClass
        .invoke(
            &vm,
            &s("io/github/rvm/RVM"),
            &s("print"),
            &vec![Value::Int(-3), Value::Reference(0), Value::Reference(text), Value::Reference(boxed), Value::Float(1)],
        )
        .unwrap();
    assert_eq!(
        r,
        Some(NativeResult::Host(HostRequest::Print(vec![
            PrintPiece::Text(s("-3")),
            PrintPiece::Text(s("null")),
            PrintPiece::Text(s("hello")),
            PrintPiece::Text(s("7")),
            PrintPiece::Float(1),
        ])))
    );
}

#[test]
fn heap_size_and_tick_requests() {
    let mut vm = VM::new(".");
    vm.new_string(&s("a"));
    let rvm = s("io/github/rvm/RVM");
    assert_eq!(RvmClass.invoke(&vm, &rvm, &s("heapSize"), &vec![]), Ok(Some(NativeResult::Value(Value::Int(3)))));
    assert_eq!(RvmClass.invoke(&vm, &rvm, &s("tick"), &vec![]), Ok(Some(NativeResult::Host(HostRequest::Tick))));
    assert_eq!(RvmClass.invoke(&vm, &rvm, &s("logState"), &vec![]), Ok(Some(NativeResult::Host(HostRequest::LogState))));
}
