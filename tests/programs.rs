use rvm::calls::Event;
use rvm::class_loader::{ClassImage, ClassLoader, RawCode, RawConstant, RawField, RawMethod};
use rvm::classes::ConstantPoolValue;
use rvm::flags::{NATIVE, PUBLIC, STATIC};
use rvm::frame_ops::exec_frame_op;
use rvm::interpreter::Resolution;
use rvm::rvm_class::{HostRequest, PrintPiece};
use rvm::stack::StackFrame;
use rvm::value::Value;
use rvm::vm::VM;

const TAIL_RECURSION_ANNOTATION: &str = "Lio/github/rvm/RVM$TailRecursion;";
const AUTO_FREE_ANNOTATION: &str = "Lio/github/rvm/RVM$AutoFree;";
const MEM_ANNOTATION: &str = "Lio/github/rvm/RVM$Mem;";
const MEM_ENTRY: &str = "io/github/rvm/MemEntry";
const RVM: &str = "io/github/rvm/RVM";
const OBJECT: &str = "java/lang/Object";

struct Pool {
    entries: Vec<RawConstant>,
}

impl Pool {
    fn new() -> Pool {
        Pool { entries: Vec::new() }
    }

    fn add(&mut self, c: RawConstant) -> u16 {
        self.entries.push(c);
        self.entries.len() as u16
    }

    fn utf8(&mut self, s: &str) -> u16 {
        self.add(RawConstant::Utf8(s.to_string()))
    }

    fn class(&mut self, name: &str) -> u16 {
        let n = self.utf8(name);
        self.add(RawConstant::Class { name_index: n })
    }

    fn name_and_type(&mut self, name: &str, descriptor: &str) -> u16 {
        let n = self.utf8(name);
        let d = self.utf8(descriptor);
        self.add(RawConstant::NameAndType { name_index: n, descriptor_index: d })
    }

    fn method(&mut self, class: &str, name: &str, descriptor: &str) -> u16 {
        let c = self.class(class);
        let nt = self.name_and_type(name, descriptor);
        self.add(RawConstant::MethodRef { class_index: c, name_and_type_index: nt })
    }

    fn field(&mut self, class: &str, name: &str, descriptor: &str) -> u16 {
        let c = self.class(class);
        let nt = self.name_and_type(name, descriptor);
        self.add(RawConstant::FieldRef { class_index: c, name_and_type_index: nt })
    }

    fn string(&mut self, s: &str) -> u16 {
        let u = self.utf8(s);
        self.add(RawConstant::String { string_index: u })
    }

    fn integer(&mut self, v: i32) -> u16 {
        self.add(RawConstant::Integer(v as u32))
    }
}

fn hi(i: u16) -> u8 {
    (i >> 8) as u8
}

fn lo(i: u16) -> u8 {
    (i & 0xff) as u8
}

fn method(pool: &mut Pool, flags: u16, name: &str, descriptor: &str, code: Option<(Vec<u8>, u16, u16)>, annotations: &[&str]) -> RawMethod {
    let name_index = pool.utf8(name);
    let descriptor_index = pool.utf8(descriptor);
    let annotation_type_indices = annotations.iter().map(|a| pool.utf8(a)).collect();
    RawMethod {
        access_flags: flags,
        name_index,
        descriptor_index,
        code: code.map(|(code, max_stack, max_locals)| RawCode { code, max_stack, max_locals }),
        annotation_type_indices,
    }
}

fn image(mut pool: Pool, super_name: &str, fields: Vec<(&str, &str)>, methods: Vec<RawMethod>) -> ClassImage {
    let super_class = pool.class(super_name);
    let fields = fields
        .iter()
        .map(|(n, d)| {
            let name_index = pool.utf8(n);
            let descriptor_index = pool.utf8(d);
            RawField { name_index, descriptor_index }
        })
        .collect();
    ClassImage { constant_pool: pool.entries, super_class, fields, methods }
}

/// The runtime class, with its natives.
fn rvm_image() -> (&'static str, ClassImage) {
    let mut pool = Pool::new();
    let methods = vec![
        method(&mut pool, PUBLIC | STATIC | NATIVE, "print", "(I)V", None, &[]),
        method(&mut pool, PUBLIC | STATIC | NATIVE, "print", "(Ljava/lang/Object;)V", None, &[]),
        method(&mut pool, PUBLIC | STATIC | NATIVE, "println", "()V", None, &[]),
        method(&mut pool, PUBLIC | STATIC | NATIVE, "heapSize", "()I", None, &[]),
    ];
    (RVM, image(pool, OBJECT, vec![], methods))
}

fn load(vm: &mut VM, images: &[(&str, ClassImage)], name: &str) {
    if vm.get_or_load_class_idx(&name.to_string()).is_some() {
        return;
    }
    let image = &images.iter().find(|(n, _)| *n == name).unwrap_or_else(|| panic!("no class {}", name)).1;
    let super_name = ClassLoader::super_class_name(image).unwrap();
    load(vm, images, &super_name);
    vm.load_class(&name.to_string(), image).unwrap();
}

struct Outcome {
    printed: String,
    max_frames: usize,
}

/// Runs `main` of `root`. With `stop_before_last_return`, stops when the
/// outermost frame is about to return, so that its locals can be read.
fn run(vm: &mut VM, images: &[(&str, ClassImage)], root: &str, stop_before_last_return: bool) -> Outcome {
    load(vm, images, root);
    vm.start(root).unwrap();
    let mut printed = String::new();
    let mut max_frames = 0;
    loop {
        if stop_before_last_return && vm.stack.frames.len() == 1 {
            let pc = vm.stack.frames[0].pc;
            if vm.program.code[pc] == 177 {
                break;
            }
        }
        let event = vm.step().unwrap();
        max_frames = max_frames.max(vm.stack.frames.len());
        match event {
            Event::Continue => {}
            Event::Finished => break,
            Event::Load(name) => load(vm, images, &name),
            Event::Host(HostRequest::Print(pieces)) => {
                for p in pieces {
                    match p {
                        PrintPiece::Text(t) => printed.push_str(&t),
                        other => panic!("unexpected {:?}", other),
                    }
                }
            }
            Event::Host(HostRequest::Tick) => vm.push_tick(0).unwrap(),
            Event::Host(HostRequest::LogState) => {}
        }
    }
    Outcome { printed, max_frames }
}

#[test]
fn sum_of_one_to_ten() {
    let mut pool = Pool::new();
    let sum = pool.method("Main", "sum", "(I)I");
    let print = pool.method(RVM, "print", "(I)V");
    let main_code = vec![16, 10, 184, hi(sum), lo(sum), 184, hi(print), lo(print), 177];
    let sum_code = vec![
        3, 60, 4, 61, // s = 0; i = 1
        28, 26, 163, 0, 13, // if i > n goto 19
        27, 28, 96, 60, // s = s + i
        132, 2, 1, // i += 1
        167, 0xff, 0xf4, // goto 4
        27, 172, // return s
    ];
    let methods = vec![
        method(&mut pool, PUBLIC | STATIC, "main", "()V", Some((main_code, 1, 1)), &[]),
        method(&mut pool, STATIC, "sum", "(I)I", Some((sum_code, 2, 3)), &[]),
    ];
    let images = vec![("Main", image(pool, OBJECT, vec![], methods)), rvm_image()];
    let mut vm = VM::new(".");
    let out = run(&mut vm, &images, "Main", false);
    assert_eq!(out.printed, "55");
    assert!(vm.stack.is_empty());
}

fn dispatch_images() -> Vec<(&'static str, ClassImage)> {
    let mut a = Pool::new();
    let a_methods = vec![method(&mut a, PUBLIC, "f", "()I", Some((vec![4, 172], 1, 1)), &[])];
    let mut b = Pool::new();
    let b_methods = vec![method(&mut b, PUBLIC, "f", "()I", Some((vec![5, 172], 1, 1)), &[])];
    let mut m = Pool::new();
    let class_b = m.class("B");
    let class_a = m.class("A");
    let f = m.method("A", "f", "()I");
    let print = m.method(RVM, "print", "(I)V");
    let main_code = vec![
        187, hi(class_b), lo(class_b), 182, hi(f), lo(f), 184, hi(print), lo(print),
        187, hi(class_a), lo(class_a), 182, hi(f), lo(f), 184, hi(print), lo(print),
        177,
    ];
    let main_methods = vec![method(&mut m, PUBLIC | STATIC, "main", "()V", Some((main_code, 1, 1)), &[])];
    vec![
        ("A", image(a, OBJECT, vec![], a_methods)),
        ("B", image(b, "A", vec![], b_methods)),
        ("Main", image(m, OBJECT, vec![], main_methods)),
        rvm_image(),
    ]
}

#[test]
fn virtual_dispatch_reaches_the_override() {
    let images = dispatch_images();
    let mut vm = VM::new(".");
    let out = run(&mut vm, &images, "Main", false);
    assert_eq!(out.printed, "21");
}

#[test]
fn override_is_registered_in_the_subclass_table() {
    let images = dispatch_images();
    let mut vm = VM::new(".");
    load(&mut vm, &images, "B");
    let a = vm.get_or_load_class_idx(&"A".to_string()).unwrap();
    let b = vm.get_or_load_class_idx(&"B".to_string()).unwrap();
    assert_eq!(vm.get_class(b).super_class_idx, a);
    assert_eq!(vm.get_class(b).vmt.get((a, 0)), Some((b, 0)));
    assert_eq!(vm.get_class(a).vmt.get((a, 0)), None);
    assert_eq!(vm.get_class(b).vmt.get((0, 1)), None);
}

#[test]
fn resolution_rewrites_the_entry_once() {
    let images = dispatch_images();
    let mut vm = VM::new(".");
    load(&mut vm, &images, "Main");
    let main = vm.get_or_load_class_idx(&"Main".to_string()).unwrap();
    let base = vm.get_class(main).constant_pool_idx;
    // The method reference to A.f is entry 10 of Main's pool (see `dispatch_images`).
    let cpi = base + 10;
    assert!(matches!(vm.get_constant_pool_value(cpi), ConstantPoolValue::UnresolvedMethodRef { .. }));
    assert_eq!(vm.resolve_method_reference(cpi), Ok(Resolution::NeedsClass("A".to_string())));
    load(&mut vm, &images, "A");
    let a = vm.get_or_load_class_idx(&"A".to_string()).unwrap();
    let first = vm.resolve_method_reference(cpi);
    assert_eq!(first, Ok(Resolution::Resolved((a, 0))));
    assert!(matches!(vm.get_constant_pool_value(cpi), ConstantPoolValue::MethodRef(c, 0) if *c == a));
    let second = vm.resolve_method_reference(cpi);
    assert_eq!(first, second);
}

#[test]
fn string_builder_program() {
    let mut m = Pool::new();
    let sb = m.class("java/lang/StringBuilder");
    let init = m.method("java/lang/StringBuilder", "<init>", "()V");
    let text = m.string("x=");
    let append_s = m.method("java/lang/StringBuilder", "append", "(Ljava/lang/String;)Ljava/lang/StringBuilder;");
    let append_i = m.method("java/lang/StringBuilder", "append", "(I)Ljava/lang/StringBuilder;");
    let to_string = m.method("java/lang/StringBuilder", "toString", "()Ljava/lang/String;");
    let print = m.method(RVM, "print", "(Ljava/lang/Object;)V");
    let code = vec![
        187, hi(sb), lo(sb), 89, 183, hi(init), lo(init),
        18, text as u8, 182, hi(append_s), lo(append_s),
        16, 42, 182, hi(append_i), lo(append_i),
        182, hi(to_string), lo(to_string),
        184, hi(print), lo(print),
        177,
    ];
    let methods = vec![method(&mut m, PUBLIC | STATIC, "main", "()V", Some((code, 3, 1)), &[])];
    let images = vec![("Main", image(m, OBJECT, vec![], methods)), rvm_image()];
    let mut vm = VM::new(".");
    let out = run(&mut vm, &images, "Main", false);
    assert_eq!(out.printed, "x=42");
}

#[test]
fn tail_recursion_reuses_the_frame() {
    let mut m = Pool::new();
    let looping = m.method("Main", "loop", "(II)I");
    let limit = m.integer(1_000_000);
    let print = m.method(RVM, "print", "(I)V");
    let main_code = vec![3, 18, limit as u8, 184, hi(looping), lo(looping), 184, hi(print), lo(print), 177];
    let loop_code = vec![
        26, 27, 161, 0, 5, // if i < n goto 7
        26, 172, // return i
        26, 4, 96, 27, 184, hi(looping), lo(looping), 172, // return loop(i + 1, n)
    ];
    let methods = vec![
        method(&mut m, PUBLIC | STATIC, "main", "()V", Some((main_code, 2, 1)), &[]),
        method(&mut m, STATIC, "loop", "(II)I", Some((loop_code, 2, 2)), &[TAIL_RECURSION_ANNOTATION]),
    ];
    let images = vec![("Main", image(m, OBJECT, vec![], methods)), rvm_image()];
    let mut vm = VM::new(".");
    let out = run(&mut vm, &images, "Main", false);
    assert_eq!(out.printed, "1000000");
    assert!(out.max_frames <= 2);
}

#[test]
fn auto_free_releases_the_array() {
    let mut m = Pool::new();
    let object = m.class(OBJECT);
    let make = m.method("Main", "make", "(Ljava/lang/Object;)Ljava/lang/Object;");
    let make_code = vec![6, 189, hi(object), lo(object), 76, 42, 176];
    let main_code = vec![187, hi(object), lo(object), 75, 42, 184, hi(make), lo(make), 76, 177];
    let methods = vec![
        method(&mut m, PUBLIC | STATIC, "main", "()V", Some((main_code, 1, 2)), &[]),
        method(&mut m, STATIC, "make", "(Ljava/lang/Object;)Ljava/lang/Object;", Some((make_code, 1, 2)), &[AUTO_FREE_ANNOTATION]),
    ];
    let images = vec![("Main", image(m, OBJECT, vec![], methods)), rvm_image()];
    let mut vm = VM::new(".");
    run(&mut vm, &images, "Main", true);
    let locals = vm.stack.top_frame().inspect_locals();
    let kept = match locals[1] {
        Value::Reference(h) => h,
        ref other => panic!("{:?}", other),
    };
    assert_eq!(locals[0], locals[1]);
    assert_eq!(vm.heap.get_value(kept), Value::ClassIndex(0, 0));
    assert_eq!(vm.heap.len(), kept + 1);
    assert!(vm.heap.inspect().iter().all(|v| !matches!(v, Value::ArrayOf(..))));
}

#[test]
fn null_checks_branch_on_null() {
    let code: Vec<u8> = vec![1, 198, 0, 5, 0, 0, 1, 199, 0, 5, 177];
    let mut frame = StackFrame::new(2, 0);
    exec_frame_op(&mut frame, &code).unwrap();
    assert_eq!(frame.inspect_stack(), vec![Value::Reference(0)]);
    exec_frame_op(&mut frame, &code).unwrap();
    assert_eq!(frame.pc, 6);
    assert!(frame.inspect_stack().is_empty());
    exec_frame_op(&mut frame, &code).unwrap();
    exec_frame_op(&mut frame, &code).unwrap();
    assert_eq!(frame.pc, 10);
    frame.push(Value::Reference(9));
    frame.pc = 7;
    exec_frame_op(&mut frame, &code).unwrap();
    assert_eq!(frame.pc, 12);
    frame.pc = 1;
    frame.push(Value::Reference(9));
    exec_frame_op(&mut frame, &code).unwrap();
    assert_eq!(frame.pc, 4);
}

#[test]
fn frame_operations() {
    let mut frame = StackFrame::new(3, 2);
    assert!(frame.push(Value::Int(1)));
    assert!(frame.push(Value::Int(2)));
    assert!(frame.dup_x1());
    assert_eq!(frame.inspect_stack(), vec![Value::Int(2), Value::Int(1), Value::Int(2)]);
    assert!(!frame.push(Value::Int(9)));
    assert!(!frame.dup());
    assert_eq!(frame.pick(1), Some(Value::Int(1)));
    assert_eq!(frame.pick(3), None);
    assert!(frame.set_local(1, Value::Int(7)));
    assert!(!frame.set_local(2, Value::Int(7)));
    assert_eq!(frame.get_local(1), Some(Value::Int(7)));
    assert_eq!(frame.inspect_locals(), vec![Value::Int(0), Value::Int(7)]);
}

#[test]
fn arithmetic_wraps_and_iinc_adds_signed_delta() {
    // iconst_m1, bipush 255 (zero-extended), iadd, istore_0, iinc 0 -2
    let code: Vec<u8> = vec![2, 16, 255, 96, 59, 132, 0, 0xfe];
    let mut frame = StackFrame::new(2, 1);
    for _ in 0..5 {
        exec_frame_op(&mut frame, &code).unwrap();
    }
    assert_eq!(frame.get_local(0), Some(Value::Int(252)));
    let overflow: Vec<u8> = vec![96];
    let mut f = StackFrame::new(2, 0);
    f.push(Value::Int(i32::MAX));
    f.push(Value::Int(1));
    exec_frame_op(&mut f, &overflow).unwrap();
    assert_eq!(f.inspect_stack(), vec![Value::Int(i32::MIN)]);
}

#[test]
fn unknown_opcode_is_fatal() {
    let mut pool = Pool::new();
    let methods = vec![method(&mut pool, PUBLIC | STATIC, "main", "()V", Some((vec![0xca], 1, 1)), &[])];
    let images = vec![("Main", image(pool, OBJECT, vec![], methods))];
    let mut vm = VM::new(".");
    load(&mut vm, &images, "Main");
    vm.start("Main").unwrap();
    assert_eq!(vm.step(), Err(rvm::error::VmError::UnknownOpcode(0xca)));
}

#[test]
fn fields_are_inherited_before_own_fields() {
    let a_image = image(Pool::new(), OBJECT, vec![("x", "I"), ("y", "Ljava/lang/String;")], vec![]);
    let b_image = image(Pool::new(), "A", vec![("z", "J")], vec![]);
    let images = vec![("A", a_image), ("B", b_image)];
    let mut vm = VM::new(".");
    load(&mut vm, &images, "B");
    let bi = vm.get_or_load_class_idx(&"B".to_string()).unwrap();
    let names: Vec<String> = vm.get_class(bi).fields.iter().map(|f| f.name.clone()).collect();
    assert_eq!(names, vec!["x".to_string(), "y".to_string(), "z".to_string()]);
    let o = vm.new_object(bi);
    assert_eq!(vm.heap.get_value(o), Value::ClassIndex(bi, 3));
    assert_eq!(vm.heap.get_field(o, 0), Value::Int(0));
    assert_eq!(vm.heap.get_field(o, 1), Value::Reference(0));
    assert_eq!(vm.heap.get_field(o, 2), Value::Long(0));
}

/// The runtime class with a bytecode `getAnswer` that walks a memo list, and
/// the list's node class.
fn memo_images() -> Vec<(&'static str, ClassImage)> {
    let mut pool = Pool::new();
    let args_f = pool.field(MEM_ENTRY, "args", "[Ljava/lang/Object;");
    let answer_f = pool.field(MEM_ENTRY, "answer", "Ljava/lang/Object;");
    let next_f = pool.field(MEM_ENTRY, "next", "Lio/github/rvm/MemEntry;");
    let equals = pool.method(OBJECT, "equals", "(Ljava/lang/Object;)Z");
    let code = vec![
        42, 198, 0, 29, // 0: if entry == null goto 30
        42, 180, hi(args_f), lo(args_f), 3, 50, // 4: entry.args[0]
        43, 182, hi(equals), lo(equals), // 10: .equals(arg)
        153, 0, 8, // 14: if false goto 22
        42, 180, hi(answer_f), lo(answer_f), 176, // 17: return entry.answer
        42, 180, hi(next_f), lo(next_f), 75, // 22: entry = entry.next
        167, 0xff, 0xe5, // 27: goto 0
        1, 176, // 30: return null
    ];
    let mut methods = vec![
        method(&mut pool, PUBLIC | STATIC | NATIVE, "print", "(I)V", None, &[]),
        method(
            &mut pool,
            PUBLIC | STATIC,
            "getAnswer",
            "(Lio/github/rvm/MemEntry;Ljava/lang/Object;)Ljava/lang/Object;",
            Some((code, 2, 2)),
            &[],
        ),
    ];
    methods.push(method(&mut pool, PUBLIC | STATIC | NATIVE, "println", "()V", None, &[]));
    let entry = image(
        Pool::new(),
        OBJECT,
        vec![("args", "[Ljava/lang/Object;"), ("answer", "Ljava/lang/Object;"), ("next", "Lio/github/rvm/MemEntry;")],
        vec![],
    );
    vec![(RVM, image(pool, OBJECT, vec![], methods)), (MEM_ENTRY, entry)]
}

#[test]
fn memoized_fib_enters_its_body_once_per_argument() {
    let mut m = Pool::new();
    let int_value = m.method("java/lang/Integer", "intValue", "()I");
    let value_of = m.method("java/lang/Integer", "valueOf", "(I)Ljava/lang/Integer;");
    let fib = m.method("Main", "fib", "(Ljava/lang/Integer;)Ljava/lang/Integer;");
    let print = m.method(RVM, "print", "(I)V");
    let fib_code = vec![
        42, 182, hi(int_value), lo(int_value), 5, 162, 0, 5, // if n < 2
        42, 176, // return n
        42, 182, hi(int_value), lo(int_value), 4, 100, 184, hi(value_of), lo(value_of), // valueOf(n - 1)
        184, hi(fib), lo(fib), 182, hi(int_value), lo(int_value), // fib(..).intValue()
        42, 182, hi(int_value), lo(int_value), 5, 100, 184, hi(value_of), lo(value_of), // valueOf(n - 2)
        184, hi(fib), lo(fib), 182, hi(int_value), lo(int_value), // fib(..).intValue()
        96, 184, hi(value_of), lo(value_of), 176, // return valueOf(sum)
    ];
    let once = vec![
        16, 20, 184, hi(value_of), lo(value_of), 184, hi(fib), lo(fib), 182, hi(int_value), lo(int_value), 184,
        hi(print), lo(print),
    ];
    let mut main_code = once.clone();
    main_code.extend_from_slice(&once);
    main_code.push(177);
    let methods = vec![
        method(&mut m, PUBLIC | STATIC, "main", "()V", Some((main_code, 1, 1)), &[]),
        method(
            &mut m,
            STATIC,
            "fib",
            "(Ljava/lang/Integer;)Ljava/lang/Integer;",
            Some((fib_code, 3, 1)),
            &[MEM_ANNOTATION],
        ),
    ];
    let mut images = memo_images();
    images.push(("Main", image(m, OBJECT, vec![], methods)));
    let mut vm = VM::new(".");
    load(&mut vm, &images, "Main");
    vm.start("Main").unwrap();
    let main_idx = vm.get_or_load_class_idx(&"Main".to_string()).unwrap();
    let fib_ptr = vm.get_method(main_idx, 1).code_ptr;
    let mut entries = 0;
    let mut entries_after_first = 0;
    let mut printed = String::new();
    loop {
        let top = vm.stack.top_frame();
        if top.class_method_idxs == (main_idx, 1) && top.pc == fib_ptr {
            entries += 1;
            if !printed.is_empty() {
                entries_after_first += 1;
            }
        }
        match vm.step().unwrap() {
            Event::Continue => {}
            Event::Finished => break,
            Event::Load(name) => load(&mut vm, &images, &name),
            Event::Host(HostRequest::Print(pieces)) => {
                for p in pieces {
                    if let PrintPiece::Text(t) = p {
                        printed.push_str(&t);
                    }
                }
            }
            other => panic!("unexpected {:?}", other),
        }
    }
    assert_eq!(printed, "67656765");
    assert_eq!(entries, 21);
    assert_eq!(entries_after_first, 0);
}

fn single_main(pool: Pool, code: Vec<u8>, max_stack: u16, max_locals: u16, fields: Vec<(&str, &str)>) -> Vec<(&'static str, ClassImage)> {
    let mut pool = pool;
    let methods = vec![method(&mut pool, PUBLIC | STATIC, "main", "()V", Some((code, max_stack, max_locals)), &[])];
    vec![("Main", image(pool, OBJECT, fields, methods)), rvm_image()]
}

fn first_error(images: &[(&str, ClassImage)]) -> rvm::error::VmError {
    let mut vm = VM::new(".");
    load(&mut vm, images, "Main");
    vm.start("Main").unwrap();
    loop {
        match vm.step() {
            Ok(Event::Load(name)) => load(&mut vm, images, &name),
            Ok(Event::Finished) => panic!("no error"),
            Ok(_) => {}
            Err(e) => return e,
        }
    }
}

#[test]
fn fields_and_arrays_through_bytecode() {
    let mut m = Pool::new();
    let main_class = m.class("Main");
    let object = m.class(OBJECT);
    let value_f = m.field("Main", "value", "I");
    let print = m.method(RVM, "print", "(I)V");
    let code = vec![
        187, hi(main_class), lo(main_class), 75, // o = new Main
        42, 16, 7, 181, hi(value_f), lo(value_f), // o.value = 7
        42, 180, hi(value_f), lo(value_f), 184, hi(print), lo(print), // print(o.value)
        5, 189, hi(object), lo(object), 76, // a = new Object[2]
        43, 4, 42, 83, // a[1] = o
        43, 4, 50, 180, hi(value_f), lo(value_f), 184, hi(print), lo(print), // print(a[1].value)
        43, 190, 184, hi(print), lo(print), // print(a.length)
        177,
    ];
    let images = single_main(m, code, 3, 2, vec![("value", "I")]);
    let mut vm = VM::new(".");
    let out = run(&mut vm, &images, "Main", false);
    assert_eq!(out.printed, "772");
}

#[test]
fn ldc_pushes_integer_constants() {
    let mut m = Pool::new();
    let k = m.integer(-40000);
    let print = m.method(RVM, "print", "(I)V");
    let code = vec![18, k as u8, 184, hi(print), lo(print), 177];
    let images = single_main(m, code, 1, 0, vec![]);
    let mut vm = VM::new(".");
    assert_eq!(run(&mut vm, &images, "Main", false).printed, "-40000");
}

#[test]
fn missing_method_is_reported() {
    let mut m = Pool::new();
    let missing = m.method("Main", "absent", "()V");
    let images = single_main(m, vec![184, hi(missing), lo(missing), 177], 1, 0, vec![]);
    assert_eq!(
        first_error(&images),
        rvm::error::VmError::UnresolvedMethod {
            class_name: "Main".to_string(),
            method_name: "absent".to_string(),
            descriptor: "()V".to_string(),
        }
    );
}

#[test]
fn missing_field_is_reported() {
    let mut m = Pool::new();
    let main_class = m.class("Main");
    let missing = m.field("Main", "absent", "I");
    let code = vec![187, hi(main_class), lo(main_class), 180, hi(missing), lo(missing), 177];
    let images = single_main(m, code, 1, 0, vec![]);
    assert_eq!(
        first_error(&images),
        rvm::error::VmError::UnresolvedField { class_name: "Main".to_string(), field_name: "absent".to_string() }
    );
}

#[test]
fn abstract_method_is_reported() {
    let mut m = Pool::new();
    let target = m.method("Main", "nothing", "()V");
    let code = vec![184, hi(target), lo(target), 177];
    let mut methods = vec![method(&mut m, PUBLIC | STATIC, "main", "()V", Some((code, 1, 0)), &[])];
    methods.push(method(&mut m, STATIC | 0x0400, "nothing", "()V", None, &[]));
    let images = vec![("Main", image(m, OBJECT, vec![], methods))];
    assert_eq!(first_error(&images), rvm::error::VmError::AbstractMethodInvoked { class_idx: 4, method_idx: 1 });
}

#[test]
fn unknown_native_is_reported() {
    let mut m = Pool::new();
    let target = m.method("Main", "magic", "()V");
    let code = vec![184, hi(target), lo(target), 177];
    let mut methods = vec![method(&mut m, PUBLIC | STATIC, "main", "()V", Some((code, 1, 0)), &[])];
    methods.push(method(&mut m, STATIC | NATIVE, "magic", "()V", None, &[]));
    let images = vec![("Main", image(m, OBJECT, vec![], methods))];
    assert_eq!(
        first_error(&images),
        rvm::error::VmError::NativeNotFound { class_name: "Main".to_string(), method_name: "magic".to_string() }
    );
}

#[test]
fn operand_underflow_is_reported() {
    let images = single_main(Pool::new(), vec![96, 177], 2, 0, vec![]);
    assert_eq!(first_error(&images), rvm::error::VmError::StackCorruption);
}

#[test]
fn operand_overflow_is_reported() {
    let images = single_main(Pool::new(), vec![3, 3, 177], 1, 0, vec![]);
    assert_eq!(first_error(&images), rvm::error::VmError::StackCorruption);
}

#[test]
fn array_index_out_of_heap_is_reported() {
    let mut m = Pool::new();
    let object = m.class(OBJECT);
    let code = vec![4, 189, hi(object), lo(object), 16, 9, 50, 177];
    let images = single_main(m, code, 2, 0, vec![]);
    assert_eq!(first_error(&images), rvm::error::VmError::BadHandle);
}

#[test]
fn local_out_of_range_is_reported() {
    let images = single_main(Pool::new(), vec![27, 177], 1, 1, vec![]);
    assert_eq!(first_error(&images), rvm::error::VmError::BadCode);
}

#[test]
fn ldc_of_a_class_entry_is_refused() {
    let mut m = Pool::new();
    let object = m.class(OBJECT);
    let images = single_main(m, vec![18, object as u8, 177], 1, 0, vec![]);
    assert_eq!(first_error(&images), rvm::error::VmError::UnsupportedConstant);
}

#[test]
fn loading_needs_the_super_class_first() {
    let images = vec![("B", image(Pool::new(), "A", vec![], vec![]))];
    let mut vm = VM::new(".");
    assert_eq!(
        vm.load_class(&"B".to_string(), &images[0].1),
        Err(rvm::error::VmError::ClassNotFound("A".to_string()))
    );
    assert!(vm.get_or_load_class_idx(&"B".to_string()).is_none());
}

#[test]
fn void_field_is_refused() {
    let img = image(Pool::new(), OBJECT, vec![("bad", "V")], vec![]);
    let mut vm = VM::new(".");
    assert_eq!(vm.load_class(&"Main".to_string(), &img), Err(rvm::error::VmError::DescriptorParse));
    assert_eq!(vm.program.classes.len(), 4);
}

#[test]
fn malformed_pool_index_is_refused() {
    let mut img = image(Pool::new(), OBJECT, vec![], vec![]);
    img.constant_pool.push(RawConstant::Class { name_index: 99 });
    let mut vm = VM::new(".");
    let heap_before = vm.heap.len();
    assert_eq!(vm.load_class(&"Main".to_string(), &img), Err(rvm::error::VmError::MalformedClass));
    assert_eq!(vm.heap.len(), heap_before);
}

#[test]
fn loading_twice_returns_the_same_index() {
    let img = image(Pool::new(), OBJECT, vec![], vec![]);
    let mut vm = VM::new(".");
    let first = vm.load_class(&"Main".to_string(), &img).unwrap();
    let pool_len = vm.program.constant_pool.len();
    let second = vm.load_class(&"Main".to_string(), &img).unwrap();
    assert_eq!(first, second);
    assert_eq!(vm.program.constant_pool.len(), pool_len);
    assert_eq!(first, 4);
}

#[test]
fn string_constants_become_string_objects() {
    let mut m = Pool::new();
    let text = m.string("hello");
    let img = image(m, OBJECT, vec![], vec![]);
    let mut vm = VM::new(".");
    let idx = vm.load_class(&"Main".to_string(), &img).unwrap();
    let base = vm.get_class(idx).constant_pool_idx;
    match vm.get_constant_pool_value(base + text as usize) {
        ConstantPoolValue::String(Value::Reference(h)) => {
            assert_eq!(vm.heap.get_value(*h), Value::ClassIndex(1, 1));
            assert_eq!(vm.heap.get_field(*h, 0), Value::String("hello".to_string()));
        }
        other => panic!("{:?}", other),
    }
}

#[test]
fn annotations_set_flags() {
    let mut m = Pool::new();
    let methods = vec![
        method(&mut m, STATIC, "a", "()V", Some((vec![177], 0, 0)), &[TAIL_RECURSION_ANNOTATION]),
        method(&mut m, STATIC, "b", "()V", Some((vec![177], 0, 0)), &[AUTO_FREE_ANNOTATION, MEM_ANNOTATION]),
    ];
    let img = image(m, OBJECT, vec![], methods);
    let mut vm = VM::new(".");
    let idx = vm.load_class(&"Main".to_string(), &img).unwrap();
    assert_eq!(vm.get_method(idx, 0).flags.bits, STATIC | 0x1000);
    assert_eq!(vm.get_method(idx, 1).flags.bits, STATIC | 0x4000 | 0x2000);
    assert_eq!(vm.get_method(idx, 1).annotation_names.len(), 2);
    assert_eq!(vm.get_method(idx, 0).code_ptr, 2);
    assert_eq!(vm.get_method(idx, 1).code_ptr, 3);
}

#[test]
fn run_until_the_host_is_needed() {
    let mut m = Pool::new();
    let print = m.method(RVM, "print", "(I)V");
    let images = single_main(m, vec![16, 3, 184, hi(print), lo(print), 177], 1, 0, vec![]);
    let mut vm = VM::new(".");
    load(&mut vm, &images, "Main");
    vm.start("Main").unwrap();
    assert_eq!(vm.do_loop(0), Ok(Event::Continue));
    assert_eq!(vm.do_loop(100), Ok(Event::Load(RVM.to_string())));
    load(&mut vm, &images, RVM);
    assert_eq!(vm.do_loop(100), Ok(Event::Host(HostRequest::Print(vec![PrintPiece::Text("3".to_string())]))));
    assert_eq!(vm.stack.inspect().len(), 1);
    assert_eq!(vm.do_loop(100), Ok(Event::Finished));
}

#[test]
fn far_backward_branch_reaches_its_target() {
    // goto with operand 0x8000 (-32768) from pc 40000 lands on pc 7232.
    let mut code = vec![0u8; 40003];
    code[7232] = 177;
    code[40000] = 167;
    code[40001] = 0x80;
    code[40002] = 0x00;
    let mut frame = StackFrame::new(1, 0);
    frame.pc = 40000;
    exec_frame_op(&mut frame, &code).unwrap();
    assert_eq!(frame.pc, 7232);
}

#[test]
fn duplicate_methods_are_refused() {
    let mut m = Pool::new();
    let methods = vec![
        method(&mut m, STATIC, "f", "()V", Some((vec![177], 0, 0)), &[]),
        method(&mut m, STATIC, "f", "()V", Some((vec![177], 0, 0)), &[]),
    ];
    let img = image(m, OBJECT, vec![], methods);
    let mut vm = VM::new(".");
    assert_eq!(vm.load_class(&"Main".to_string(), &img), Err(rvm::error::VmError::MalformedClass));
}

#[test]
fn override_replaces_the_inherited_entry() {
    let mut a = Pool::new();
    let a_methods = vec![method(&mut a, PUBLIC, "f", "()I", Some((vec![4, 172], 1, 1)), &[])];
    let mut b = Pool::new();
    let b_methods = vec![method(&mut b, PUBLIC, "f", "()I", Some((vec![5, 172], 1, 1)), &[])];
    let mut c = Pool::new();
    let c_methods = vec![method(&mut c, PUBLIC, "f", "()I", Some((vec![6, 172], 1, 1)), &[])];
    let images = vec![
        ("A", image(a, OBJECT, vec![], a_methods)),
        ("B", image(b, "A", vec![], b_methods)),
        ("C", image(c, "B", vec![], c_methods)),
    ];
    let mut vm = VM::new(".");
    load(&mut vm, &images, "C");
    let ai = vm.get_or_load_class_idx(&"A".to_string()).unwrap();
    let bi = vm.get_or_load_class_idx(&"B".to_string()).unwrap();
    let ci = vm.get_or_load_class_idx(&"C".to_string()).unwrap();
    let vmt = &vm.get_class(ci).vmt;
    assert_eq!(vmt.get((ai, 0)), Some((ci, 0)));
    assert_eq!(vmt.get((bi, 0)), Some((ci, 0)));
    assert_eq!(vmt.mapping.len(), 2);
}
