//! The tagged value domain shared by operand stacks, locals, the heap and constants.
use vstd::prelude::*;

verus! {

/// Index of a slot in the heap; `0` is the null handle.
pub type HeapPtr = usize;

/// Index of a class in the program's class table.
pub type ClassIdx = usize;

/// Index of a method inside its class.
pub type MethodInClassIdx = usize;

/// Index of a field inside its class (inherited fields first).
pub type FieldIdx = usize;

/// Offset into the program's code buffer.
pub type CodePtr = usize;

/// Index into the program's global constant pool.
pub type ConstantPoolIdx = usize;

/// Primitive kinds plus `Reference` and `Void`.
#[derive(Clone, Copy, Debug, PartialEq, Eq, Structural)]
pub enum Type {
    Byte,
    Short,
    Int,
    Long,
    Char,
    Float,
    Double,
    Boolean,
    Reference,
    Void,
}

/// A tagged value. Floating-point values are kept as their IEEE-754 bit patterns.
#[derive(Clone, Debug, PartialEq)]
pub enum Value {
    Byte(i8),
    Short(i16),
    Int(i32),
    Long(i64),
    Char(u16),
    Float(u32),
    Double(u64),
    Boolean(i32),
    ReturnType,
    /// A heap handle; `Reference(0)` is null.
    Reference(HeapPtr),
    /// Object header: class index and number of field slots that follow.
    ClassIndex(ClassIdx, u16),
    /// Array header: element type and element class index.
    ArrayOf(Type, ClassIdx),
    String(String),
    Void,
}

/// The zero value of a type; `Void` has none.
pub open spec fn zero_value(t: Type) -> Value
    recommends
        t != Type::Void,
{
    match t {
        Type::Byte => Value::Byte(0),
        Type::Short => Value::Short(0),
        Type::Int => Value::Int(0),
        Type::Long => Value::Long(0),
        Type::Char => Value::Char(0),
        Type::Float => Value::Float(0),
        Type::Double => Value::Double(0),
        Type::Boolean => Value::Boolean(0),
        Type::Reference => Value::Reference(0),
        Type::Void => Value::Void,
    }
}

/// The 32-bit integer a value holds as an operand: `Int` and `Boolean` both do.
pub open spec fn int_value(v: Value) -> Option<i32> {
    match v {
        Value::Int(i) => Some(i),
        Value::Boolean(i) => Some(i),
        _ => None,
    }
}

/// Component-wise equality of values, with strings compared by their characters.
pub open spec fn same_value(a: Value, b: Value) -> bool {
    match (a, b) {
        (Value::String(x), Value::String(y)) => x@ == y@,
        (Value::String(_), _) => false,
        (_, Value::String(_)) => false,
        _ => a == b,
    }
}

impl Type {
    /// The zero value of this type.
    pub fn default_value(&self) -> (r: Value)
        requires
            *self != Type::Void,
        ensures
            r == zero_value(*self),
    {
        match self {
            Type::Byte => Value::Byte(0),
            Type::Short => Value::Short(0),
            Type::Int => Value::Int(0),
            Type::Long => Value::Long(0),
            Type::Char => Value::Char(0),
            Type::Float => Value::Float(0),
            Type::Double => Value::Double(0),
            Type::Boolean => Value::Boolean(0),
            Type::Reference => Value::Reference(0),
            Type::Void => Value::Void,
        }
    }
}

impl Value {
    /// A copy of this value.
    pub fn clone_value(&self) -> (r: Value)
        ensures
            r == *self,
    {
        match self {
            Value::Byte(v) => Value::Byte(*v),
            Value::Short(v) => Value::Short(*v),
            Value::Int(v) => Value::Int(*v),
            Value::Long(v) => Value::Long(*v),
            Value::Char(v) => Value::Char(*v),
            Value::Float(v) => Value::Float(*v),
            Value::Double(v) => Value::Double(*v),
            Value::Boolean(v) => Value::Boolean(*v),
            Value::ReturnType => Value::ReturnType,
            Value::Reference(v) => Value::Reference(*v),
            Value::ClassIndex(c, n) => Value::ClassIndex(*c, *n),
            Value::ArrayOf(t, c) => Value::ArrayOf(*t, *c),
            Value::String(s) => Value::String(s.clone()),
            Value::Void => Value::Void,
        }
    }

    /// Component-wise equality.
    pub fn same(&self, other: &Value) -> (r: bool)
        ensures
            r == same_value(*self, *other),
    {
        match (self, other) {
            (Value::Byte(a), Value::Byte(b)) => *a == *b,
            (Value::Short(a), Value::Short(b)) => *a == *b,
            (Value::Int(a), Value::Int(b)) => *a == *b,
            (Value::Long(a), Value::Long(b)) => *a == *b,
            (Value::Char(a), Value::Char(b)) => *a == *b,
            (Value::Float(a), Value::Float(b)) => *a == *b,
            (Value::Double(a), Value::Double(b)) => *a == *b,
            (Value::Boolean(a), Value::Boolean(b)) => *a == *b,
            (Value::ReturnType, Value::ReturnType) => true,
            (Value::Reference(a), Value::Reference(b)) => *a == *b,
            (Value::ClassIndex(a, n), Value::ClassIndex(b, m)) => *a == *b && *n == *m,
            (Value::ArrayOf(s, a), Value::ArrayOf(t, b)) => *s == *t && *a == *b,
            (Value::String(a), Value::String(b)) => *a == *b,
            (Value::Void, Value::Void) => true,
            _ => false,
        }
    }

    /// Whether this is the `Void` marker.
    pub fn is_void(&self) -> (r: bool)
        ensures
            r == (*self is Void),
    {
        match self {
            Value::Void => true,
            _ => false,
        }
    }
}

/// A copy of a sequence of values.
pub fn copy_values(v: &Vec<Value>) -> (r: Vec<Value>)
    ensures
        r@ == v@,
{
    let mut r: Vec<Value> = Vec::new();
    let mut i: usize = 0;
    while i < v.len()
        invariant
            i <= v@.len(),
            r@ == v@.subrange(0, i as int),
        decreases v@.len() - i,
    {
        r.push(v[i].clone_value());
        i = i + 1;
        assert(r@ =~= v@.subrange(0, i as int));
    }
    assert(r@ =~= v@);
    r
}

} // verus!
