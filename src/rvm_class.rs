//! Natives of the runtime class `io/github/rvm/RVM`. Output, time and state
//! dumps are the host's work: they come back as requests.
use vstd::prelude::*;
use crate::error::VmError;
use crate::java_lang::is_string_object;
use crate::program::{is_name, INTEGER_CLASS_IDX};
use crate::text::{decimal, decimal_text};
use crate::value::Value;
use crate::vm::VM;

verus! {

pub const RVM_CLASS_NAME: &'static str = "io/github/rvm/RVM";

/// The provider of the natives of `io/github/rvm/RVM`.
pub struct RvmClass;

/// One printed argument. Floating-point values are rendered by the host.
#[derive(Clone, Debug, PartialEq)]
pub enum PrintPiece {
    Text(String),
    Float(u32),
    Double(u64),
}

/// Work that only the host can do.
#[derive(Clone, Debug, PartialEq)]
pub enum HostRequest {
    /// Write these pieces to standard output, in order.
    Print(Vec<PrintPiece>),
    /// Push the milliseconds since start as an `Int` (see `VM::push_tick`).
    Tick,
    /// Dump the stack, heap and class table for diagnosis.
    LogState,
}

/// What a native call produced.
#[derive(Clone, Debug, PartialEq)]
pub enum NativeResult {
    /// A value for the caller (`Void` for none).
    Value(Value),
    Host(HostRequest),
}

/// Whether `h` is a boxed integer.
pub open spec fn is_integer_object(heap: Seq<Value>, h: int) -> bool {
    &&& 0 <= h && h + 1 < heap.len()
    &&& heap[h] is ClassIndex
    &&& heap[h]->ClassIndex_0 == INTEGER_CLASS_IDX
    &&& heap[h + 1] is Int
}

/// The printed text of a value that is not floating point; `None` when it
/// cannot be printed.
pub open spec fn print_text(v: Value, heap: Seq<Value>) -> Option<Seq<char>> {
    match v {
        Value::Byte(x) => Some(decimal(x as int)),
        Value::Short(x) => Some(decimal(x as int)),
        Value::Int(x) => Some(decimal(x as int)),
        Value::Long(x) => Some(decimal(x as int)),
        Value::Char(x) => Some(decimal(x as int)),
        Value::Boolean(x) => Some(decimal(x as int)),
        Value::String(s) => Some(s@),
        Value::Reference(h) => if h == 0 {
            Some("null"@)
        } else if is_string_object(heap, h as int) {
            Some(heap[h + 1]->String_0@)
        } else if is_integer_object(heap, h as int) {
            Some(decimal(heap[h + 1]->Int_0 as int))
        } else {
            None
        },
        _ => Some(Seq::empty()),
    }
}

/// Whether `p` is the printed form of `v`.
pub open spec fn printed_as(v: Value, heap: Seq<Value>, p: PrintPiece) -> bool {
    match v {
        Value::Float(b) => p == PrintPiece::Float(b),
        Value::Double(b) => p == PrintPiece::Double(b),
        _ => p is Text && print_text(v, heap) == Some(p->Text_0@),
    }
}

/// Whether `v` can be printed.
pub open spec fn printable(v: Value, heap: Seq<Value>) -> bool {
    v is Float || v is Double || print_text(v, heap) is Some
}

impl RvmClass {
    /// The printed form of one value.
    pub fn print_piece(&self, vm: &VM, v: &Value) -> (r: Result<PrintPiece, VmError>)
        ensures
            printable(*v, vm.heap@) ==> (r matches Ok(p) && printed_as(*v, vm.heap@, p)),
            !printable(*v, vm.heap@) ==> r is Err,
    {
        proof {
            reveal_strlit("null");
        }
        let t = match v {
            Value::Byte(x) => decimal_text(*x as i64),
            Value::Short(x) => decimal_text(*x as i64),
            Value::Int(x) => decimal_text(*x as i64),
            Value::Long(x) => decimal_text(*x),
            Value::Char(x) => decimal_text(*x as i64),
            Value::Boolean(x) => decimal_text(*x as i64),
            Value::Float(b) => {
                return Ok(PrintPiece::Float(*b));
            },
            Value::Double(b) => {
                return Ok(PrintPiece::Double(*b));
            },
            Value::String(s) => s.clone(),
            Value::Reference(h) => {
                let h = *h;
                if h == 0 {
                    "null".to_string()
                } else if h >= vm.heap.len() || vm.heap.len() - h <= 1 {
                    return Err(VmError::BadHandle);
                } else {
                    match (&vm.heap.values[h], &vm.heap.values[h + 1]) {
                        (Value::ClassIndex(c, _), Value::String(s)) => {
                            if *c == crate::program::STRING_CLASS_IDX {
                                s.clone()
                            } else {
                                return Err(VmError::StackCorruption);
                            }
                        },
                        (Value::ClassIndex(c, _), Value::Int(i)) => {
                            if *c == INTEGER_CLASS_IDX {
                                decimal_text(*i as i64)
                            } else {
                                return Err(VmError::StackCorruption);
                            }
                        },
                        _ => {
                            return Err(VmError::StackCorruption);
                        },
                    }
                }
            },
            _ => String::new(),
        };
        Ok(PrintPiece::Text(t))
    }

    /// `RVM.print`: the printed forms of all arguments, in order.
    pub fn print(&self, arguments: &Vec<Value>, vm: &VM) -> (r: Result<Vec<PrintPiece>, VmError>)
        ensures
            (forall|i: int| 0 <= i < arguments@.len() ==> printable(#[trigger] arguments@[i], vm.heap@)) ==> (r matches Ok(
                ps,
            ) && ps@.len() == arguments@.len() && forall|i: int|
                0 <= i < arguments@.len() ==> printed_as(arguments@[i], vm.heap@, #[trigger] ps@[i])),
            !(forall|i: int| 0 <= i < arguments@.len() ==> printable(#[trigger] arguments@[i], vm.heap@)) ==> r is Err,
    {
        let mut ps: Vec<PrintPiece> = Vec::new();
        let mut i: usize = 0;
        while i < arguments.len()
            invariant
                i <= arguments@.len(),
                ps@.len() == i,
                forall|j: int| 0 <= j < i ==> printable(#[trigger] arguments@[j], vm.heap@),
                forall|j: int| 0 <= j < i ==> printed_as(arguments@[j], vm.heap@, #[trigger] ps@[j]),
            decreases arguments@.len() - i,
        {
            let p = self.print_piece(vm, &arguments[i])?;
            ps.push(p);
            i = i + 1;
        }
        Ok(ps)
    }

    /// `RVM.println`: a line break.
    pub fn println(&self) -> (r: HostRequest)
        ensures
            r matches HostRequest::Print(ps) && ps@.len() == 1 && ps@[0] is Text && ps@[0]->Text_0@ == "\n"@,
    {
        HostRequest::Print(vec![PrintPiece::Text("\n".to_string())])
    }

    /// The natives of `io/github/rvm/RVM`; `None` when the method is not one of them.
    pub fn invoke(&self, vm: &VM, class_name: &String, name: &String, arguments: &Vec<Value>) -> (r: Result<
        Option<NativeResult>,
        VmError,
    >)
        ensures
            class_name@ != RVM_CLASS_NAME@ ==> r == Ok::<Option<NativeResult>, VmError>(None),
            class_name@ == RVM_CLASS_NAME@ && name@ == "tick"@ ==> r == Ok::<Option<NativeResult>, VmError>(
                Some(NativeResult::Host(HostRequest::Tick)),
            ),
            class_name@ == RVM_CLASS_NAME@ && name@ == "logState"@ ==> r == Ok::<Option<NativeResult>, VmError>(
                Some(NativeResult::Host(HostRequest::LogState)),
            ),
            class_name@ == RVM_CLASS_NAME@ && name@ == "heapSize"@ && vm.heap@.len() <= i32::MAX ==> r == Ok::<
                Option<NativeResult>,
                VmError,
            >(Some(NativeResult::Value(Value::Int(vm.heap@.len() as i32)))),
            class_name@ == RVM_CLASS_NAME@ && name@ == "println"@ ==> (r matches Ok(Some(NativeResult::Host(HostRequest::Print(ps))))
                && ps@.len() == 1 && ps@[0] is Text && ps@[0]->Text_0@ == "\n"@),
            class_name@ == RVM_CLASS_NAME@ && name@ == "print"@ && (forall|i: int|
                0 <= i < arguments@.len() ==> printable(#[trigger] arguments@[i], vm.heap@)) ==> (r matches Ok(
                Some(NativeResult::Host(HostRequest::Print(ps))),
            ) && ps@.len() == arguments@.len()),
            class_name@ == RVM_CLASS_NAME@ && name@ != "print"@ && name@ != "println"@ && name@ != "logState"@ && name@
                != "heapSize"@ && name@ != "tick"@ ==> r == Ok::<Option<NativeResult>, VmError>(None),
            class_name@ == RVM_CLASS_NAME@ && name@ == "print"@ ==> (r matches Ok(Some(NativeResult::Host(HostRequest::Print(ps))))
                ==> ps@.len() == arguments@.len() && forall|i: int|
                0 <= i < arguments@.len() ==> printed_as(arguments@[i], vm.heap@, #[trigger] ps@[i])),
    {
        proof {
            reveal_strlit("print");
            reveal_strlit("println");
            reveal_strlit("logState");
            reveal_strlit("tick");
            reveal_strlit("heapSize");
            assert("logState"@[0] != "heapSize"@[0]);
            assert("tick"@.len() != "print"@.len() && "tick"@.len() != "println"@.len() && "tick"@.len()
                != "logState"@.len() && "tick"@.len() != "heapSize"@.len());
            assert("print"@.len() != "println"@.len() && "print"@.len() != "logState"@.len() && "print"@.len()
                != "heapSize"@.len() && "println"@.len() != "logState"@.len() && "println"@.len() != "heapSize"@.len());
        }
        if !is_name(class_name, RVM_CLASS_NAME) {
            return Ok(None);
        }
        if is_name(name, "print") {
            let ps = self.print(arguments, vm)?;
            Ok(Some(NativeResult::Host(HostRequest::Print(ps))))
        } else if is_name(name, "println") {
            Ok(Some(NativeResult::Host(self.println())))
        } else if is_name(name, "logState") {
            Ok(Some(NativeResult::Host(HostRequest::LogState)))
        } else if is_name(name, "heapSize") {
            let n = vm.heap.len();
            if n > i32::MAX as usize {
                return Err(VmError::BadHandle);
            }
            Ok(Some(NativeResult::Value(Value::Int(n as i32))))
        } else if is_name(name, "tick") {
            Ok(Some(NativeResult::Host(HostRequest::Tick)))
        } else {
            Ok(None)
        }
    }
}

} // verus!
