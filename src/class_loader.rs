//! Linking of classes into the program image.
//!
//! A class arrives as a `ClassImage`: the structural view of a class file
//! (constant pool with 1-based indices, super-class reference, fields, methods
//! with their code and annotations). Linking turns its constants into entries of the
//! global pool, inherits the super class's fields and virtual-method table,
//! appends the code of its methods and registers everything.
use vstd::prelude::*;
use crate::classes::{vmt_get, vmt_keys_unique, Class, ConstantPoolValue, Field, Method, VirtualMethodsTable};
use crate::descriptor::{parse_signature, parse_type, signature_of, type_of_descriptor};
use crate::error::VmError;
use crate::flags::{AccessFlags, AUTO_FREE, MEM, TAIL_RECURSION};
use crate::heap::HeapMemory;
use crate::program::{
    class_names_unique, first_class_named, is_name, method_keys_below, method_keys_unique, no_class_named, Program,
};
use crate::value::{ClassIdx, MethodInClassIdx, Type, Value};

verus! {

pub const TAIL_RECURSION_ANNOTATION: &'static str = "Lio/github/rvm/RVM$TailRecursion;";
pub const AUTO_FREE_ANNOTATION: &'static str = "Lio/github/rvm/RVM$AutoFree;";
pub const MEM_ANNOTATION: &'static str = "Lio/github/rvm/RVM$Mem;";

/// A constant-pool entry of a class file, with indices into the same pool.
#[derive(Clone, Debug, PartialEq)]
pub enum RawConstant {
    Class { name_index: u16 },
    FieldRef { class_index: u16, name_and_type_index: u16 },
    MethodRef { class_index: u16, name_and_type_index: u16 },
    InterfaceMethodRef { class_index: u16, name_and_type_index: u16 },
    String { string_index: u16 },
    Integer(u32),
    Float(u32),
    Long,
    Double,
    NameAndType { name_index: u16, descriptor_index: u16 },
    Utf8(String),
    Other,
}

/// A field of a class file.
#[derive(Clone, Debug, PartialEq)]
pub struct RawField {
    pub name_index: u16,
    pub descriptor_index: u16,
}

/// The `Code` attribute of a method.
#[derive(Clone, Debug, PartialEq)]
pub struct RawCode {
    pub code: Vec<u8>,
    pub max_stack: u16,
    pub max_locals: u16,
}

/// A method of a class file.
#[derive(Clone, Debug, PartialEq)]
pub struct RawMethod {
    pub access_flags: u16,
    pub name_index: u16,
    pub descriptor_index: u16,
    pub code: Option<RawCode>,
    /// Type indices of the runtime-visible annotations.
    pub annotation_type_indices: Vec<u16>,
}

/// The structural view of a class file.
#[derive(Clone, Debug, PartialEq)]
pub struct ClassImage {
    /// Entry `i` has index `i + 1`.
    pub constant_pool: Vec<RawConstant>,
    pub super_class: u16,
    pub fields: Vec<RawField>,
    pub methods: Vec<RawMethod>,
}

/// Where class files are looked up.
pub struct ClassLoader {
    pub base_path: String,
}

/// The text of UTF-8 entry `i` (1-based).
pub open spec fn utf8_of(pool: Seq<RawConstant>, i: int) -> Option<Seq<char>> {
    if 1 <= i <= pool.len() {
        match pool[i - 1] {
            RawConstant::Utf8(s) => Some(s@),
            _ => None,
        }
    } else {
        None
    }
}

/// The name of class entry `i`.
pub open spec fn class_name_of(pool: Seq<RawConstant>, i: int) -> Option<Seq<char>> {
    if 1 <= i <= pool.len() {
        match pool[i - 1] {
            RawConstant::Class { name_index } => utf8_of(pool, name_index as int),
            _ => None,
        }
    } else {
        None
    }
}

/// The name and descriptor of name-and-type entry `i`.
pub open spec fn name_and_type_of(pool: Seq<RawConstant>, i: int) -> Option<(Seq<char>, Seq<char>)> {
    if 1 <= i <= pool.len() {
        match pool[i - 1] {
            RawConstant::NameAndType { name_index, descriptor_index } => match (
                utf8_of(pool, name_index as int),
                utf8_of(pool, descriptor_index as int),
            ) {
                (Some(n), Some(d)) => Some((n, d)),
                _ => None,
            },
            _ => None,
        }
    } else {
        None
    }
}

/// Whether a member reference names a class and a name-and-type entry.
pub open spec fn member_ok(pool: Seq<RawConstant>, class_index: u16, nat_index: u16) -> bool {
    class_name_of(pool, class_index as int) is Some && name_and_type_of(pool, nat_index as int) is Some
}

/// Whether a raw entry can be linked (its indices lead to the right kinds).
pub open spec fn constant_linkable(pool: Seq<RawConstant>, raw: RawConstant) -> bool {
    match raw {
        RawConstant::Class { name_index } => utf8_of(pool, name_index as int) is Some,
        RawConstant::FieldRef { class_index, name_and_type_index } => member_ok(pool, class_index, name_and_type_index),
        RawConstant::MethodRef { class_index, name_and_type_index } => member_ok(pool, class_index, name_and_type_index),
        RawConstant::InterfaceMethodRef { class_index, name_and_type_index } => member_ok(
            pool,
            class_index,
            name_and_type_index,
        ),
        RawConstant::String { string_index } => utf8_of(pool, string_index as int) is Some,
        _ => true,
    }
}

/// Whether `cpv` is the linked form of a method reference.
pub open spec fn method_ref_ok(pool: Seq<RawConstant>, class_index: u16, nat_index: u16, cpv: ConstantPoolValue) -> bool {
    match cpv {
        ConstantPoolValue::UnresolvedMethodRef { class_name, method_name, signature } => class_name_of(
            pool,
            class_index as int,
        ) == Some(class_name@) && name_and_type_of(pool, nat_index as int) == Some((method_name@, signature@)),
        _ => false,
    }
}

/// Whether `cpv` is the linked form of `raw`. A string constant becomes a handle
/// to a string object (see `linked_string`).
pub open spec fn constant_linked_as(pool: Seq<RawConstant>, raw: RawConstant, cpv: ConstantPoolValue) -> bool {
    match raw {
        RawConstant::Class { name_index } => match cpv {
            ConstantPoolValue::UnresolvedClassRef { class_name } => utf8_of(pool, name_index as int) == Some(
                class_name@,
            ),
            _ => false,
        },
        RawConstant::FieldRef { class_index, name_and_type_index } => match cpv {
            ConstantPoolValue::UnresolvedFieldRef { class_name, field_name } => class_name_of(
                pool,
                class_index as int,
            ) == Some(class_name@) && (name_and_type_of(pool, name_and_type_index as int) matches Some((n, _))
                && n == field_name@),
            _ => false,
        },
        RawConstant::MethodRef { class_index, name_and_type_index } => method_ref_ok(
            pool,
            class_index,
            name_and_type_index,
            cpv,
        ),
        RawConstant::InterfaceMethodRef { class_index, name_and_type_index } => method_ref_ok(
            pool,
            class_index,
            name_and_type_index,
            cpv,
        ),
        RawConstant::String { string_index } => cpv matches ConstantPoolValue::String(Value::Reference(_)),
        RawConstant::Integer(b) => cpv == ConstantPoolValue::Const(Value::Int(b as i32)),
        RawConstant::Float(b) => cpv == ConstantPoolValue::Const(Value::Float(b)),
        RawConstant::Long => cpv is Unsupported,
        RawConstant::Double => cpv is Unsupported,
        _ => cpv is Skip,
    }
}

/// A string constant's handle leads to a string object holding its text.
pub open spec fn linked_string(pool: Seq<RawConstant>, raw: RawConstant, cpv: ConstantPoolValue, heap: Seq<Value>) -> bool {
    match (raw, cpv) {
        (RawConstant::String { string_index }, ConstantPoolValue::String(Value::Reference(h))) => h + 1 < heap.len()
            && heap[h as int] == Value::ClassIndex(crate::program::STRING_CLASS_IDX, 1)
            && (heap[h + 1] matches Value::String(s) && utf8_of(pool, string_index as int) == Some(s@)),
        _ => true,
    }
}

/// A linked constant, with string texts not yet placed on the heap.
enum Pending {
    Ready(ConstantPoolValue),
    Text(String),
}

fn utf8_at(pool: &Vec<RawConstant>, index: u16) -> (r: Result<String, VmError>)
    ensures
        match utf8_of(pool@, index as int) {
            Some(s) => r matches Ok(t) && t@ == s,
            None => r == Err::<String, VmError>(VmError::MalformedClass),
        },
{
    if index >= 1 && (index as usize) <= pool.len() {
        match &pool[(index - 1) as usize] {
            RawConstant::Utf8(s) => Ok(s.clone()),
            _ => Err(VmError::MalformedClass),
        }
    } else {
        Err(VmError::MalformedClass)
    }
}

fn class_name_at(pool: &Vec<RawConstant>, index: u16) -> (r: Result<String, VmError>)
    ensures
        match class_name_of(pool@, index as int) {
            Some(s) => r matches Ok(t) && t@ == s,
            None => r == Err::<String, VmError>(VmError::MalformedClass),
        },
{
    if index >= 1 && (index as usize) <= pool.len() {
        match &pool[(index - 1) as usize] {
            RawConstant::Class { name_index } => utf8_at(pool, *name_index),
            _ => Err(VmError::MalformedClass),
        }
    } else {
        Err(VmError::MalformedClass)
    }
}

fn name_and_type_at(pool: &Vec<RawConstant>, index: u16) -> (r: Result<(String, String), VmError>)
    ensures
        match name_and_type_of(pool@, index as int) {
            Some((n, d)) => r matches Ok((a, b)) && a@ == n && b@ == d,
            None => r == Err::<(String, String), VmError>(VmError::MalformedClass),
        },
{
    if index >= 1 && (index as usize) <= pool.len() {
        match &pool[(index - 1) as usize] {
            RawConstant::NameAndType { name_index, descriptor_index } => {
                let n = utf8_at(pool, *name_index);
                let d = utf8_at(pool, *descriptor_index);
                match (n, d) {
                    (Ok(a), Ok(b)) => Ok((a, b)),
                    _ => Err(VmError::MalformedClass),
                }
            },
            _ => Err(VmError::MalformedClass),
        }
    } else {
        Err(VmError::MalformedClass)
    }
}

fn method_ref_at(pool: &Vec<RawConstant>, class_index: u16, nat_index: u16) -> (r: Result<ConstantPoolValue, VmError>)
    ensures
        member_ok(pool@, class_index, nat_index) ==> (r matches Ok(cpv) && method_ref_ok(pool@, class_index, nat_index, cpv)),
        !member_ok(pool@, class_index, nat_index) ==> r == Err::<ConstantPoolValue, VmError>(VmError::MalformedClass),
{
    let class_name = class_name_at(pool, class_index);
    let member = name_and_type_at(pool, nat_index);
    match (class_name, member) {
        (Ok(class_name), Ok((method_name, signature))) => Ok(
            ConstantPoolValue::UnresolvedMethodRef { class_name, method_name, signature },
        ),
        _ => Err(VmError::MalformedClass),
    }
}

fn link_constant(pool: &Vec<RawConstant>, raw: &RawConstant) -> (r: Result<Pending, VmError>)
    ensures
        constant_linkable(pool@, *raw) ==> match r {
            Ok(Pending::Ready(cpv)) => constant_linked_as(pool@, *raw, cpv) && !(*raw is String),
            Ok(Pending::Text(t)) => *raw matches RawConstant::String { string_index } && utf8_of(
                pool@,
                string_index as int,
            ) == Some(t@),
            Err(_) => false,
        },
        !constant_linkable(pool@, *raw) ==> r == Err::<Pending, VmError>(VmError::MalformedClass),
{
    match raw {
        RawConstant::Class { name_index } => {
            let class_name = utf8_at(pool, *name_index)?;
            Ok(Pending::Ready(ConstantPoolValue::UnresolvedClassRef { class_name }))
        },
        RawConstant::FieldRef { class_index, name_and_type_index } => {
            let class_name = class_name_at(pool, *class_index);
            let member = name_and_type_at(pool, *name_and_type_index);
            match (class_name, member) {
                (Ok(class_name), Ok((field_name, _))) => Ok(
                    Pending::Ready(ConstantPoolValue::UnresolvedFieldRef { class_name, field_name }),
                ),
                _ => Err(VmError::MalformedClass),
            }
        },
        RawConstant::MethodRef { class_index, name_and_type_index } => {
            let cpv = method_ref_at(pool, *class_index, *name_and_type_index)?;
            Ok(Pending::Ready(cpv))
        },
        RawConstant::InterfaceMethodRef { class_index, name_and_type_index } => {
            let cpv = method_ref_at(pool, *class_index, *name_and_type_index)?;
            Ok(Pending::Ready(cpv))
        },
        RawConstant::String { string_index } => {
            let text = utf8_at(pool, *string_index)?;
            Ok(Pending::Text(text))
        },
        RawConstant::Integer(b) => Ok(Pending::Ready(ConstantPoolValue::Const(Value::Int(*b as i32)))),
        RawConstant::Float(b) => Ok(Pending::Ready(ConstantPoolValue::Const(Value::Float(*b)))),
        RawConstant::Long => Ok(Pending::Ready(ConstantPoolValue::Unsupported)),
        RawConstant::Double => Ok(Pending::Ready(ConstantPoolValue::Unsupported)),
        _ => Ok(Pending::Ready(ConstantPoolValue::Skip)),
    }
}


/// Whether `a` lies on the super-class chain that starts at `s` (`s` included).
/// The chain ends at class 0 or at a class whose super index is not smaller.
pub open spec fn in_chain(classes: Seq<Class>, s: int, a: int) -> bool
    decreases s,
{
    if s < 0 || s >= classes.len() {
        false
    } else if s == a {
        true
    } else if s == 0 || classes[s].super_class_idx >= s {
        false
    } else {
        in_chain(classes, classes[s].super_class_idx as int, a)
    }
}

/// Whether method `k.1` of class `k.0` has the name and signature of `m`.
pub open spec fn same_method(classes: Seq<Class>, k: (ClassIdx, MethodInClassIdx), m: Method) -> bool {
    0 <= k.0 < classes.len() && 0 <= k.1 < classes[k.0 as int].methods@.len() && {
        let a = classes[k.0 as int].methods@[k.1 as int];
        &&& a.name@ == m.name@
        &&& a.signature.return_type == m.signature.return_type
        &&& a.signature.arguments@ == m.signature.arguments@
    }
}

/// Whether `m` overrides method `k` of the chain that starts at `start`.
pub open spec fn overrides(classes: Seq<Class>, start: int, k: (ClassIdx, MethodInClassIdx), m: Method) -> bool {
    in_chain(classes, start, k.0 as int) && same_method(classes, k, m)
}

/// The index of the last of `methods` that overrides `k`.
pub open spec fn last_override(classes: Seq<Class>, start: int, methods: Seq<Method>, k: (ClassIdx, MethodInClassIdx)) -> Option<int>
    decreases methods.len(),
{
    if methods.len() == 0 {
        None
    } else if overrides(classes, start, k, methods.last()) {
        Some(methods.len() - 1)
    } else {
        last_override(classes, start, methods.drop_last(), k)
    }
}

proof fn lemma_chain_below(classes: Seq<Class>, x: int, a: int)
    ensures
        in_chain(classes, x, a) ==> 0 <= a <= x,
    decreases x,
{
    if 0 <= x < classes.len() && x != a && x != 0 && classes[x].super_class_idx < x {
        lemma_chain_below(classes, classes[x].super_class_idx as int, a);
    }
}

proof fn lemma_chain_order(classes: Seq<Class>, x: int, a: int, s: int)
    requires
        in_chain(classes, x, a),
        in_chain(classes, x, s),
        a <= s,
    ensures
        in_chain(classes, s, a),
    decreases x,
{
    if x != s {
        let y = classes[x].super_class_idx as int;
        lemma_chain_below(classes, y, s);
        if x == a {
            assert(false);
        } else {
            lemma_chain_order(classes, y, a, s);
        }
    }
}

proof fn lemma_chain_step(classes: Seq<Class>, x: int, s: int)
    requires
        in_chain(classes, x, s),
        0 < s < classes.len(),
        (classes[s].super_class_idx as int) < s,
    ensures
        in_chain(classes, x, classes[s].super_class_idx as int),
    decreases x,
{
    let y = classes[s].super_class_idx as int;
    assert(in_chain(classes, y, y));
    if x != s {
        lemma_chain_step(classes, classes[x].super_class_idx as int, s);
    }
}

/// Registers `target` as the override of every method with the name and
/// signature of `m` along the chain that starts at `start`.
fn compose_vmt(classes: &Vec<Class>, start: ClassIdx, vmt: &mut VirtualMethodsTable, target: (ClassIdx, MethodInClassIdx), m: &Method)
    requires
        start < classes@.len(),
    ensures
        vmt_keys_unique(old(vmt).mapping@) ==> vmt_keys_unique(final(vmt).mapping@),
        forall|k: (ClassIdx, MethodInClassIdx)| #[trigger] vmt_get(final(vmt).mapping@, k) == if overrides(
            classes@,
            start as int,
            k,
            *m,
        ) {
            Some(target)
        } else {
            vmt_get(old(vmt).mapping@, k)
        },
{
    let ghost cs = classes@;
    let mut s = start;
    proof {
        assert forall|k: (ClassIdx, MethodInClassIdx)| overrides(cs, start as int, k, *m) implies k.0 <= s by {
            lemma_chain_below(cs, start as int, k.0 as int);
        }
    }
    loop
        invariant
            cs == classes@,
            vmt_keys_unique(old(vmt).mapping@) ==> vmt_keys_unique(vmt.mapping@),
            s < classes@.len(),
            in_chain(cs, start as int, s as int),
            forall|k: (ClassIdx, MethodInClassIdx)| #[trigger] vmt_get(vmt.mapping@, k) == if overrides(
                cs,
                start as int,
                k,
                *m,
            ) && k.0 > s {
                Some(target)
            } else {
                vmt_get(old(vmt).mapping@, k)
            },
        decreases s,
    {
        let methods = &classes[s].methods;
        let mut j: usize = 0;
        while j < methods.len()
            invariant
                cs == classes@,
                vmt_keys_unique(old(vmt).mapping@) ==> vmt_keys_unique(vmt.mapping@),
                s < classes@.len(),
                methods@ == cs[s as int].methods@,
                j <= methods@.len(),
                in_chain(cs, start as int, s as int),
                forall|k: (ClassIdx, MethodInClassIdx)| #[trigger] vmt_get(vmt.mapping@, k) == if overrides(
                    cs,
                    start as int,
                    k,
                    *m,
                ) && (k.0 > s || (k.0 == s && k.1 < j)) {
                    Some(target)
                } else {
                    vmt_get(old(vmt).mapping@, k)
                },
            decreases methods@.len() - j,
        {
            let a = &methods[j];
            let ghost before = vmt.mapping@;
            if a.name == m.name && a.signature.same(&m.signature) {
                assert(overrides(cs, start as int, (s, j), *m));
                vmt.insert((s, j), target);
            } else {
                assert(!overrides(cs, start as int, (s, j), *m));
            }
            assert forall|k: (ClassIdx, MethodInClassIdx)| #[trigger] vmt_get(vmt.mapping@, k) == if overrides(
                cs,
                start as int,
                k,
                *m,
            ) && (k.0 > s || (k.0 == s && k.1 < j + 1)) {
                Some(target)
            } else {
                vmt_get(old(vmt).mapping@, k)
            } by {
                if k != (s, j) {
                    assert(vmt_get(vmt.mapping@, k) == vmt_get(before, k));
                }
            }
            j = j + 1;
        }
        let sup = classes[s].super_class_idx;
        if s == 0 || sup >= s {
            proof {
                assert forall|k: (ClassIdx, MethodInClassIdx)| overrides(cs, start as int, k, *m) implies k.0 >= s by {
                    if (k.0 as int) < s {
                        lemma_chain_order(cs, start as int, k.0 as int, s as int);
                    }
                }
            }
            return;
        }
        proof {
            lemma_chain_step(cs, start as int, s as int);
            assert forall|k: (ClassIdx, MethodInClassIdx)| overrides(cs, start as int, k, *m) && sup < k.0 implies k.0 >= s by {
                if (k.0 as int) < s {
                    lemma_chain_order(cs, start as int, k.0 as int, s as int);
                    lemma_chain_below(cs, sup as int, k.0 as int);
                }
            }
        }
        s = sup;
    }
}

/// The virtual-method table of a class whose super class is `super_idx` and whose
/// methods are `methods`: the super class's table, where every method of the
/// super-class chain (the super class included) with the name and signature of
/// one of `methods` is redirected to the last such method of the new class.
pub fn build_vmt(classes: &Vec<Class>, super_idx: ClassIdx, class_idx: ClassIdx, methods: &Vec<Method>) -> (r: VirtualMethodsTable)
    requires
        super_idx < classes@.len(),
    ensures
        vmt_keys_unique(classes@[super_idx as int].vmt.mapping@) ==> vmt_keys_unique(r.mapping@),
        forall|k: (ClassIdx, MethodInClassIdx)| #[trigger] vmt_get(r.mapping@, k) == match last_override(
            classes@,
            super_idx as int,
            methods@,
            k,
        ) {
            Some(i) => Some((class_idx, i as usize)),
            None => vmt_get(classes@[super_idx as int].vmt.mapping@, k),
        },
{
    let mut vmt = classes[super_idx].vmt.copy();
    let mut i: usize = 0;
    while i < methods.len()
        invariant
            i <= methods@.len(),
            super_idx < classes@.len(),
            vmt_keys_unique(classes@[super_idx as int].vmt.mapping@) ==> vmt_keys_unique(vmt.mapping@),
            forall|k: (ClassIdx, MethodInClassIdx)| #[trigger] vmt_get(vmt.mapping@, k) == match last_override(
                classes@,
                super_idx as int,
                methods@.subrange(0, i as int),
                k,
            ) {
                Some(x) => Some((class_idx, x as usize)),
                None => vmt_get(classes@[super_idx as int].vmt.mapping@, k),
            },
        decreases methods@.len() - i,
    {
        compose_vmt(classes, super_idx, &mut vmt, (class_idx, i), &methods[i]);
        assert(methods@.subrange(0, i + 1).drop_last() =~= methods@.subrange(0, i as int));
        i = i + 1;
    }
    assert(methods@.subrange(0, i as int) =~= methods@);
    vmt
}


/// Whether `p` is the pending linked form of `raw`.
spec fn pending_ok(pool: Seq<RawConstant>, raw: RawConstant, p: Pending) -> bool {
    match p {
        Pending::Ready(cpv) => constant_linked_as(pool, raw, cpv) && !(raw is String),
        Pending::Text(t) => raw matches RawConstant::String { string_index } && utf8_of(pool, string_index as int)
            == Some(t@),
    }
}

/// Whether every constant of `pool` can be linked.
pub open spec fn pool_linkable(pool: Seq<RawConstant>) -> bool {
    forall|i: int| 0 <= i < pool.len() ==> constant_linkable(pool, #[trigger] pool[i])
}

fn link_pool(pool: &Vec<RawConstant>) -> (r: Result<Vec<Pending>, VmError>)
    ensures
        r matches Ok(v) ==> v@.len() == pool@.len() && forall|i: int|
            0 <= i < pool@.len() ==> pending_ok(pool@, pool@[i], #[trigger] v@[i]),
        r is Err ==> r == Err::<Vec<Pending>, VmError>(VmError::MalformedClass),
        r is Ok <==> pool_linkable(pool@),
{
    let mut v: Vec<Pending> = Vec::new();
    let mut i: usize = 0;
    while i < pool.len()
        invariant
            i <= pool@.len(),
            v@.len() == i,
            forall|j: int| 0 <= j < i ==> pending_ok(pool@, pool@[j], #[trigger] v@[j]),
            forall|j: int| 0 <= j < i ==> constant_linkable(pool@, #[trigger] pool@[j]),
        decreases pool@.len() - i,
    {
        let p = link_constant(pool, &pool[i]);
        match p {
            Ok(p) => {
                v.push(p);
            },
            Err(_) => {
                return Err(VmError::MalformedClass);
            },
        }
        i = i + 1;
    }
    Ok(v)
}

/// The type of a field descriptor, when it names a storable type.
pub open spec fn field_type_of(pool: Seq<RawConstant>, f: RawField) -> Option<Type> {
    match utf8_of(pool, f.descriptor_index as int) {
        Some(d) => match type_of_descriptor(d) {
            Some(t) => if t == Type::Void {
                None
            } else {
                Some(t)
            },
            None => None,
        },
        None => None,
    }
}

/// Whether `field` is the linked form of `f`.
pub open spec fn field_ok(pool: Seq<RawConstant>, f: RawField, field: Field) -> bool {
    &&& utf8_of(pool, f.name_index as int) == Some(field.name@)
    &&& field_type_of(pool, f) == Some(field.value_type)
    &&& field.flags.bits == 0
}

/// Whether a field has a name and a storable type.
pub open spec fn field_good(pool: Seq<RawConstant>, f: RawField) -> bool {
    utf8_of(pool, f.name_index as int) is Some && field_type_of(pool, f) is Some
}

fn own_fields(pool: &Vec<RawConstant>, raw: &Vec<RawField>) -> (r: Result<Vec<Field>, VmError>)
    ensures
        r matches Ok(v) ==> v@.len() == raw@.len() && forall|i: int|
            0 <= i < raw@.len() ==> field_ok(pool@, raw@[i], #[trigger] v@[i]),
        (forall|i: int| 0 <= i < raw@.len() ==> field_good(pool@, #[trigger] raw@[i])) ==> r is Ok,
{
    let mut v: Vec<Field> = Vec::new();
    let mut i: usize = 0;
    while i < raw.len()
        invariant
            i <= raw@.len(),
            v@.len() == i,
            forall|j: int| 0 <= j < i ==> field_ok(pool@, raw@[j], #[trigger] v@[j]),
        decreases raw@.len() - i,
    {
        let f = &raw[i];
        let name = utf8_at(pool, f.name_index)?;
        let descriptor = utf8_at(pool, f.descriptor_index)?;
        let t = parse_type(descriptor.as_str())?;
        if t == Type::Void {
            return Err(VmError::DescriptorParse);
        }
        v.push(Field { name, flags: AccessFlags::empty(), value_type: t });
        i = i + 1;
    }
    Ok(v)
}

/// The flag that an annotation type name stands for, `0` when none.
pub open spec fn annotation_flag(name: Seq<char>) -> u16 {
    if name == TAIL_RECURSION_ANNOTATION@ {
        TAIL_RECURSION
    } else if name == AUTO_FREE_ANNOTATION@ {
        AUTO_FREE
    } else if name == MEM_ANNOTATION@ {
        MEM
    } else {
        0
    }
}

/// The flags set by a sequence of annotations.
pub open spec fn annotation_bits(pool: Seq<RawConstant>, indices: Seq<u16>) -> u16
    decreases indices.len(),
{
    if indices.len() == 0 {
        0
    } else {
        annotation_bits(pool, indices.drop_last()) | match utf8_of(pool, indices.last() as int) {
            Some(n) => annotation_flag(n),
            None => 0u16,
        }
    }
}

/// Whether `m` is the linked form of `raw`, its code placed at `code_ptr` when it has any.
pub open spec fn method_ok(pool: Seq<RawConstant>, raw: RawMethod, m: Method) -> bool {
    &&& utf8_of(pool, raw.name_index as int) == Some(m.name@)
    &&& utf8_of(pool, raw.descriptor_index as int) matches Some(d) && signature_of(d) == Some(
        (m.signature.arguments@, m.signature.return_type),
    )
    &&& m.flags.bits == raw.access_flags | annotation_bits(pool, raw.annotation_type_indices@)
    &&& m.mem_entry_ptr == 0
    &&& match raw.code {
        Some(c) => m.max_stack == c.max_stack && m.max_locals == c.max_locals,
        None => m.code_ptr == 0 && m.max_stack == 0 && m.max_locals == 0,
    }
}

/// The code of `raw`, empty when it has none.
pub open spec fn code_of(raw: RawMethod) -> Seq<u8> {
    match raw.code {
        Some(c) => c.code@,
        None => Seq::empty(),
    }
}

/// Whether every annotation names a UTF-8 entry.
pub open spec fn annotations_good(pool: Seq<RawConstant>, indices: Seq<u16>) -> bool {
    forall|k: int| 0 <= k < indices.len() ==> utf8_of(pool, #[trigger] indices[k] as int) is Some
}

fn annotations(pool: &Vec<RawConstant>, indices: &Vec<u16>) -> (r: Result<(u16, Vec<String>), VmError>)
    ensures
        r matches Ok((bits, _)) ==> bits == annotation_bits(pool@, indices@),
        annotations_good(pool@, indices@) ==> r is Ok,
{
    let mut bits: u16 = 0;
    let mut names: Vec<String> = Vec::new();
    let mut i: usize = 0;
    while i < indices.len()
        invariant
            i <= indices@.len(),
            bits == annotation_bits(pool@, indices@.subrange(0, i as int)),
        decreases indices@.len() - i,
    {
        let name = utf8_at(pool, indices[i])?;
        let flag: u16 = if is_name(&name, TAIL_RECURSION_ANNOTATION) {
            TAIL_RECURSION
        } else if is_name(&name, AUTO_FREE_ANNOTATION) {
            AUTO_FREE
        } else if is_name(&name, MEM_ANNOTATION) {
            MEM
        } else {
            0
        };
        bits = bits | flag;
        names.push(name);
        assert(indices@.subrange(0, i + 1).drop_last() =~= indices@.subrange(0, i as int));
        i = i + 1;
    }
    assert(indices@.subrange(0, i as int) =~= indices@);
    Ok((bits, names))
}

/// Whether a method has a name, a parsable descriptor and named annotations.
pub open spec fn method_good(pool: Seq<RawConstant>, m: RawMethod) -> bool {
    &&& utf8_of(pool, m.name_index as int) is Some
    &&& utf8_of(pool, m.descriptor_index as int) is Some
    &&& signature_of(utf8_of(pool, m.descriptor_index as int).unwrap()) is Some
    &&& annotations_good(pool, m.annotation_type_indices@)
}

proof fn lemma_code_offset_mono(raw: Seq<RawMethod>, i: int, j: int)
    requires
        0 <= i <= j,
    ensures
        code_offset(raw, i) <= code_offset(raw, j),
    decreases j - i,
{
    if i < j {
        lemma_code_offset_mono(raw, i, j - 1);
    }
}

/// Links the methods of a class; their code will be placed from `code_base` on,
/// in order. Also returns each method's descriptor text.
fn own_methods(pool: &Vec<RawConstant>, raw: &Vec<RawMethod>, code_base: usize) -> (r: Result<
    (Vec<Method>, Vec<String>),
    VmError,
>)
    ensures
        r matches Ok((ms, ds)) ==> ms@.len() == raw@.len() && ds@.len() == raw@.len() && forall|i: int|
            0 <= i < raw@.len() ==> method_ok(pool@, raw@[i], #[trigger] ms@[i]) && utf8_of(
                pool@,
                raw@[i].descriptor_index as int,
            ) == Some(ds@[i]@) && (raw@[i].code is Some ==> ms@[i].code_ptr == code_base + code_offset(
                raw@,
                i,
            )),
        r matches Ok(_) ==> code_base + code_offset(raw@, raw@.len() as int) <= usize::MAX,
        (forall|i: int| 0 <= i < raw@.len() ==> method_good(pool@, #[trigger] raw@[i])) && code_base + code_offset(
            raw@,
            raw@.len() as int,
        ) <= usize::MAX ==> r is Ok,
{
    let mut ms: Vec<Method> = Vec::new();
    let mut ds: Vec<String> = Vec::new();
    let mut next: usize = code_base;
    let mut i: usize = 0;
    while i < raw.len()
        invariant
            i <= raw@.len(),
            ms@.len() == i,
            ds@.len() == i,
            next == code_base + code_offset(raw@, i as int),
            forall|j: int| 0 <= j < i ==> method_ok(pool@, raw@[j], #[trigger] ms@[j]) && utf8_of(
                pool@,
                raw@[j].descriptor_index as int,
            ) == Some(ds@[j]@) && (raw@[j].code is Some ==> ms@[j].code_ptr == code_base + code_offset(
                raw@,
                j,
            )),
        decreases raw@.len() - i,
    {
        let rm = &raw[i];
        let name = utf8_at(pool, rm.name_index)?;
        let descriptor = utf8_at(pool, rm.descriptor_index)?;
        let signature = parse_signature(&descriptor)?;
        let (bits, annotation_names) = annotations(pool, &rm.annotation_type_indices)?;
        let (code_ptr, max_stack, max_locals, len) = match &rm.code {
            Some(c) => (next, c.max_stack, c.max_locals, c.code.len()),
            None => (0, 0, 0, 0),
        };
        proof {
            lemma_code_offset_step(raw@, i as int);
            lemma_code_offset_mono(raw@, i + 1, raw@.len() as int);
        }
        if next > usize::MAX - len {
            return Err(VmError::MalformedClass);
        }
        next = next + len;
        ms.push(
            Method {
                name,
                signature,
                flags: AccessFlags::from_bits(rm.access_flags | bits),
                code_ptr,
                max_locals,
                max_stack,
                annotation_names,
                mem_entry_ptr: 0,
            },
        );
        ds.push(descriptor);
        i = i + 1;
    }
    Ok((ms, ds))
}

/// Total length of the code of the first `n` methods.
pub open spec fn code_offset(raw: Seq<RawMethod>, n: int) -> int
    decreases n,
{
    if n <= 0 {
        0
    } else {
        code_offset(raw, n - 1) + code_of(raw[n - 1]).len()
    }
}

proof fn lemma_code_offset_step(raw: Seq<RawMethod>, i: int)
    requires
        0 <= i,
    ensures
        code_offset(raw, i + 1) == code_offset(raw, i) + code_of(raw[i]).len(),
{
}

/// What linking `image` as class `class_idx` adds to the program: the class
/// itself, checked against the image and the classes already loaded.
pub open spec fn linked_class(
    classes: Seq<Class>,
    name: Seq<char>,
    image: ClassImage,
    class_idx: int,
    cp_base: int,
    code_base: int,
    c: Class,
) -> bool {
    let pool = image.constant_pool@;
    let sup = c.super_class_idx as int;
    let inherited = classes[sup].fields@.len();
    &&& c.name@ == name
    &&& 0 <= sup < classes.len()
    &&& class_name_of(pool, image.super_class as int) == Some(classes[sup].name@)
    &&& c.constant_pool_idx == cp_base - 1
    &&& c.fields@.len() == inherited + image.fields@.len()
    &&& c.fields@.subrange(0, inherited as int) == classes[sup].fields@
    &&& forall|j: int| 0 <= j < image.fields@.len() ==> field_ok(pool, image.fields@[j], #[trigger] c.fields@[inherited + j])
    &&& c.methods@.len() == image.methods@.len()
    &&& forall|j: int| 0 <= j < image.methods@.len() ==> method_ok(pool, image.methods@[j], #[trigger] c.methods@[j])
    &&& forall|j: int| 0 <= j < image.methods@.len() && (#[trigger] image.methods@[j]).code is Some
        ==> c.methods@[j].code_ptr == code_base + code_offset(image.methods@, j)
    &&& forall|k: (ClassIdx, MethodInClassIdx)| #[trigger] vmt_get(c.vmt.mapping@, k) == match last_override(
        classes,
        sup,
        c.methods@,
        k,
    ) {
        Some(i) => Some((class_idx as usize, i as usize)),
        None => vmt_get(classes[sup].vmt.mapping@, k),
    }
}

/// Whether a class image can be linked with its code placed from `code_base` on:
/// every constant, field and method is well formed and the code fits.
pub open spec fn image_well_formed(image: ClassImage, code_base: int) -> bool {
    let pool = image.constant_pool@;
    &&& pool_linkable(pool)
    &&& forall|i: int| 0 <= i < image.fields@.len() ==> field_good(pool, #[trigger] image.fields@[i])
    &&& forall|i: int| 0 <= i < image.methods@.len() ==> method_good(pool, #[trigger] image.methods@[i])
    &&& code_base + code_offset(image.methods@, image.methods@.len() as int) <= usize::MAX
    &&& methods_distinct(pool, image.methods@)
}

/// Whether no two of `ms` share both name and descriptor text.
fn distinct_methods(ms: &Vec<Method>, ds: &Vec<String>) -> (r: bool)
    requires
        ms@.len() == ds@.len(),
    ensures
        r == forall|x: int, y: int| 0 <= x < y < ms@.len() ==> !((#[trigger] ms@[x]).name@ == (#[trigger] ms@[y]).name@
            && ds@[x]@ == ds@[y]@),
{
    let mut a: usize = 0;
    while a < ms.len()
        invariant
            ms@.len() == ds@.len(),
            a <= ms@.len(),
            forall|x: int, y: int| 0 <= x < a && x < y < ms@.len() ==> !((#[trigger] ms@[x]).name@ == (#[trigger] ms@[y]).name@
                && ds@[x]@ == ds@[y]@),
        decreases ms@.len() - a,
    {
        let mut b: usize = a + 1;
        while b < ms.len()
            invariant
                ms@.len() == ds@.len(),
                a < b <= ms@.len(),
                forall|x: int, y: int| 0 <= x < a && x < y < ms@.len() ==> !((#[trigger] ms@[x]).name@
                    == (#[trigger] ms@[y]).name@ && ds@[x]@ == ds@[y]@),
                forall|y: int| a < y < b ==> !(ms@[a as int].name@ == (#[trigger] ms@[y]).name@ && ds@[a as int]@ == ds@[y]@),
            decreases ms@.len() - b,
        {
            if ms[a].name == ms[b].name && ds[a] == ds[b] {
                return false;
            }
            b = b + 1;
        }
        a = a + 1;
    }
    true
}

/// Whether no two methods share both name and descriptor.
pub open spec fn methods_distinct(pool: Seq<RawConstant>, ms: Seq<RawMethod>) -> bool {
    forall|i: int, j: int| 0 <= i < j < ms.len() ==> !(utf8_of(pool, (#[trigger] ms[i]).name_index as int) == utf8_of(
        pool,
        (#[trigger] ms[j]).name_index as int,
    ) && utf8_of(pool, ms[i].descriptor_index as int) == utf8_of(pool, ms[j].descriptor_index as int))
}

/// The code of the first `n` methods, concatenated.
pub open spec fn code_concat(raw: Seq<RawMethod>, n: int) -> Seq<u8>
    decreases n,
{
    if n <= 0 {
        Seq::empty()
    } else {
        code_concat(raw, n - 1) + code_of(raw[n - 1])
    }
}

impl Default for ClassLoader {
    /// A loader rooted at the working directory.
    fn default() -> (r: ClassLoader)
        ensures
            r.base_path@ == "."@,
    {
        ClassLoader::new(".")
    }
}

impl ClassLoader {
    /// The name of the super class of the class in `image`.
    pub fn super_class_name(image: &ClassImage) -> (r: Result<String, VmError>)
        ensures
            match class_name_of(image.constant_pool@, image.super_class as int) {
                Some(n) => r matches Ok(t) && t@ == n,
                None => r == Err::<String, VmError>(VmError::MalformedClass),
            },
    {
        class_name_at(&image.constant_pool, image.super_class)
    }

    /// Links the class `name` from `image`, unless a class of that name is
    /// already loaded, in which case its index is returned and nothing changes.
    /// The super class must be loaded already. On error nothing changes.
    pub fn load_class_into(&self, name: &String, image: &ClassImage, heap: &mut HeapMemory, program: &mut Program) -> (r: Result<
        ClassIdx,
        VmError,
    >)
        ensures
            !no_class_named(old(program).classes@, name@) ==> (r matches Ok(i) && first_class_named(
                old(program).classes@,
                name@,
                i as int,
            ) && *final(program) == *old(program) && *final(heap) == *old(heap)),
            no_class_named(old(program).classes@, name@) ==> {
                let pool = image.constant_pool@;
                let sup = class_name_of(pool, image.super_class as int);
                &&& (old(program).constant_pool@.len() == 0 || sup is None) ==> r == Err::<ClassIdx, VmError>(
                    VmError::MalformedClass,
                )
                &&& old(program).constant_pool@.len() > 0 && sup is Some && no_class_named(
                    old(program).classes@,
                    sup.unwrap(),
                ) ==> (r matches Err(VmError::ClassNotFound(n)) && n@ == sup.unwrap())
                &&& old(program).constant_pool@.len() > 0 && sup is Some && !no_class_named(
                    old(program).classes@,
                    sup.unwrap(),
                ) && image_well_formed(*image, old(program).code@.len() as int) ==> r == Ok::<ClassIdx, VmError>(
                    old(program).classes@.len() as usize,
                )
                &&& r is Ok ==> r == Ok::<ClassIdx, VmError>(old(program).classes@.len() as usize)
            },
            r is Err ==> *final(program) == *old(program) && *final(heap) == *old(heap),
            class_names_unique(old(program).classes@) ==> class_names_unique(final(program).classes@),
            method_keys_unique(old(program).method_keys@) && method_keys_below(
                old(program).method_keys@,
                old(program).classes@.len() as int,
            ) ==> method_keys_unique(final(program).method_keys@) && method_keys_below(
                final(program).method_keys@,
                final(program).classes@.len() as int,
            ),
            (r is Ok && r.unwrap() == old(program).classes@.len()) ==> {
                let idx = old(program).classes@.len();
                let pool = image.constant_pool@;
                let base = old(program).constant_pool@.len();
                &&& final(program).classes@.len() == idx + 1
                &&& final(program).classes@.drop_last() == old(program).classes@
                &&& linked_class(
                    old(program).classes@,
                    name@,
                    *image,
                    idx as int,
                    base as int,
                    old(program).code@.len() as int,
                    final(program).classes@.last(),
                )
                &&& final(program).constant_pool@.len() == base + pool.len()
                &&& final(program).constant_pool@.subrange(0, base as int) == old(program).constant_pool@
                &&& forall|j: int| 0 <= j < pool.len() ==> constant_linked_as(
                    pool,
                    pool[j],
                    #[trigger] final(program).constant_pool@[base + j],
                ) && linked_string(pool, pool[j], final(program).constant_pool@[base + j], final(heap)@)
                &&& final(program).code@ == old(program).code@ + code_concat(image.methods@, image.methods@.len() as int)
                &&& final(heap)@.subrange(0, old(heap)@.len() as int) == old(heap)@
                &&& final(program).method_keys@.len() == old(program).method_keys@.len() + image.methods@.len()
                &&& final(program).method_keys@.subrange(0, old(program).method_keys@.len() as int)
                    == old(program).method_keys@
                &&& forall|k: int| 0 <= k < image.methods@.len() ==> {
                    let key = #[trigger] final(program).method_keys@[old(program).method_keys@.len() + k];
                    &&& key.class_idx == idx
                    &&& key.method_idx == k
                    &&& Some(key.name@) == utf8_of(pool, image.methods@[k].name_index as int)
                    &&& Some(key.descriptor@) == utf8_of(pool, image.methods@[k].descriptor_index as int)
                }
            },
            r matches Ok(idx) ==> idx < final(program).classes@.len() && final(program).classes@[idx as int].name@ == name@,
    {
        if let Some(idx) = program.class_idx_of(name) {
            assert(idx != old(program).classes@.len());
            return Ok(idx);
        }
        if program.constant_pool.len() == 0 {
            return Err(VmError::MalformedClass);
        }
        let pool = &image.constant_pool;
        let super_name = class_name_at(pool, image.super_class)?;
        let super_idx = match program.class_idx_of(&super_name) {
            Some(i) => i,
            None => {
                return Err(VmError::ClassNotFound(super_name));
            },
        };
        let class_idx = program.classes.len();
        let cp_base = program.constant_pool.len();
        let pending = link_pool(pool)?;
        let own = own_fields(pool, &image.fields)?;
        let (methods, descriptors) = own_methods(pool, &image.methods, program.code.len())?;
        if !distinct_methods(&methods, &descriptors) {
            return Err(VmError::MalformedClass);
        }
        assert(methods_distinct(pool@, image.methods@)) by {
            assert forall|x: int, y: int| 0 <= x < y < image.methods@.len() implies !(utf8_of(
                pool@,
                (#[trigger] image.methods@[x]).name_index as int,
            ) == utf8_of(pool@, (#[trigger] image.methods@[y]).name_index as int) && utf8_of(
                pool@,
                image.methods@[x].descriptor_index as int,
            ) == utf8_of(pool@, image.methods@[y].descriptor_index as int)) by {
                assert(method_ok(pool@, image.methods@[x], methods@[x]));
                assert(method_ok(pool@, image.methods@[y], methods@[y]));
            }
        }

        // Everything is checked: from here on the image is committed.
        let mut fields: Vec<Field> = Vec::new();
        let inherited = &program.classes[super_idx].fields;
        let mut i: usize = 0;
        while i < inherited.len()
            invariant
                inherited@ == old(program).classes@[super_idx as int].fields@,
                i <= inherited@.len(),
                fields@ == inherited@.subrange(0, i as int),
            decreases inherited@.len() - i,
        {
            fields.push(inherited[i].copy());
            i = i + 1;
            assert(fields@ =~= inherited@.subrange(0, i as int));
        }
        assert(fields@ =~= inherited@);
        let mut i: usize = 0;
        while i < own.len()
            invariant
                i <= own@.len(),
                fields@ == inherited@ + own@.subrange(0, i as int),
            decreases own@.len() - i,
        {
            fields.push(own[i].copy());
            i = i + 1;
            assert(fields@ =~= inherited@ + own@.subrange(0, i as int));
        }
        assert(own@.subrange(0, i as int) =~= own@);
        let vmt = build_vmt(&program.classes, super_idx, class_idx, &methods);

        let ghost heap0 = heap@;
        let ghost cp0 = program.constant_pool@;
        let mut j: usize = 0;
        while j < pending.len()
            invariant
                pending@.len() == pool@.len(),
                forall|k: int| 0 <= k < pool@.len() ==> pending_ok(pool@, pool@[k], #[trigger] pending@[k]),
                j <= pending@.len(),
                cp0 == old(program).constant_pool@,
                program.classes == old(program).classes,
                program.code == old(program).code,
                program.method_keys == old(program).method_keys,
                program.constant_pool@.len() == cp0.len() + j,
                program.constant_pool@.subrange(0, cp0.len() as int) == cp0,
                heap@.len() >= heap0.len(),
                heap@.subrange(0, heap0.len() as int) == heap0,
                heap0 == old(heap)@,
                forall|k: int| 0 <= k < j ==> constant_linked_as(
                    pool@,
                    pool@[k],
                    #[trigger] program.constant_pool@[cp0.len() + k],
                ) && linked_string(pool@, pool@[k], program.constant_pool@[cp0.len() + k], heap@),
            decreases pending@.len() - j,
        {
            let ghost heap_before = heap@;
            let entry = match &pending[j] {
                Pending::Ready(cpv) => cpv.copy(),
                Pending::Text(t) => {
                    let h = heap.new_object(crate::program::STRING_CLASS_IDX, 1);
                    heap.append(t);
                    ConstantPoolValue::String(Value::Reference(h))
                },
            };
            program.constant_pool.push(entry);
            proof {
                assert(heap@.subrange(0, heap_before.len() as int) == heap_before);
                assert forall|k: int| 0 <= k < j + 1 implies constant_linked_as(
                    pool@,
                    pool@[k],
                    #[trigger] program.constant_pool@[cp0.len() + k],
                ) && linked_string(pool@, pool@[k], program.constant_pool@[cp0.len() + k], heap@) by {
                    if k < j {
                        match (pool@[k], program.constant_pool@[cp0.len() + k]) {
                            (RawConstant::String { string_index }, ConstantPoolValue::String(Value::Reference(h))) => {
                                assert(heap@[h as int] == heap_before[h as int]);
                                assert(heap@[h + 1] == heap_before[h + 1]);
                            },
                            _ => {},
                        }
                    }
                }
                assert(program.constant_pool@.subrange(0, cp0.len() as int) =~= cp0);
                assert(heap@.subrange(0, heap0.len() as int) =~= heap0);
            }
            j = j + 1;
        }

        let ghost code0 = program.code@;
        let ghost cp1 = program.constant_pool@;
        let mut m: usize = 0;
        while m < image.methods.len()
            invariant
                m <= image.methods@.len(),
                code0 == old(program).code@,
                program.code@ == code0 + code_concat(image.methods@, m as int),
                program.constant_pool@ == cp1,
                program.classes == old(program).classes,
                program.method_keys == old(program).method_keys,
            decreases image.methods@.len() - m,
        {
            if let Some(c) = &image.methods[m].code {
                let mut b: usize = 0;
                while b < c.code.len()
                    invariant
                        b <= c.code@.len(),
                        program.code@ == code0 + code_concat(image.methods@, m as int) + c.code@.subrange(0, b as int),
                        program.constant_pool@ == cp1,
                        program.classes == old(program).classes,
                        program.method_keys == old(program).method_keys,
                    decreases c.code@.len() - b,
                {
                    program.code.push(c.code[b]);
                    b = b + 1;
                    assert(program.code@ =~= code0 + code_concat(image.methods@, m as int) + c.code@.subrange(0, b as int));
                }
                assert(c.code@.subrange(0, b as int) =~= c.code@);
            }
            assert(program.code@ =~= code0 + code_concat(image.methods@, m + 1));
            m = m + 1;
        }

        let ghost keys0 = program.method_keys@;
        let mut m: usize = 0;
        while m < methods.len()
            invariant
                m <= methods@.len(),
                descriptors@.len() == methods@.len(),
                methods@.len() == image.methods@.len(),
                keys0 == old(program).method_keys@,
                class_idx == old(program).classes@.len(),
                methods_distinct(pool@, image.methods@),
                method_keys_unique(keys0) && method_keys_below(keys0, class_idx as int) ==> method_keys_unique(
                    program.method_keys@,
                ) && method_keys_below(program.method_keys@, class_idx + 1),
                program.method_keys@.len() == keys0.len() + m,
                program.method_keys@.subrange(0, keys0.len() as int) == keys0,
                forall|j: int| 0 <= j < image.methods@.len() ==> method_ok(pool@, image.methods@[j], #[trigger] methods@[j])
                    && utf8_of(pool@, image.methods@[j].descriptor_index as int) == Some(descriptors@[j]@),
                forall|k: int| 0 <= k < m ==> {
                    let key = #[trigger] program.method_keys@[keys0.len() + k];
                    &&& key.class_idx == class_idx
                    &&& key.method_idx == k
                    &&& Some(key.name@) == utf8_of(pool@, image.methods@[k].name_index as int)
                    &&& Some(key.descriptor@) == utf8_of(pool@, image.methods@[k].descriptor_index as int)
                },
                program.classes == old(program).classes,
                program.constant_pool@ == cp1,
                program.code@ == code0 + code_concat(image.methods@, image.methods@.len() as int),
            decreases methods@.len() - m,
        {
            let ghost before = program.method_keys@;
            program.register_method(class_idx, methods[m].name.as_str(), descriptors[m].as_str(), m);
            assert(program.method_keys@.subrange(0, keys0.len() as int) =~= keys0) by {
                assert(program.method_keys@.drop_last() == before);
            }
            proof {
                let ks = program.method_keys@;
                assert(ks.drop_last() == before);
                if method_keys_unique(keys0) && method_keys_below(keys0, class_idx as int) {
                    assert forall|x: int, y: int| 0 <= x < y < ks.len() implies !((#[trigger] ks[x]).class_idx == (
                    #[trigger] ks[y]).class_idx && ks[x].name@ == ks[y].name@ && ks[x].descriptor@ == ks[y].descriptor@) by {
                        assert(ks[x] == before[x]);
                        if y < ks.len() - 1 {
                            assert(ks[y] == before[y]);
                        } else if x < keys0.len() {
                            assert(before[x] == keys0[x]);
                        } else {
                            let k = x - keys0.len();
                            assert(before[keys0.len() + k] == ks[x]);
                            assert(Some(ks[x].name@) == utf8_of(pool@, image.methods@[k].name_index as int));
                            assert(Some(ks[x].descriptor@) == utf8_of(pool@, image.methods@[k].descriptor_index as int));
                            assert(method_ok(pool@, image.methods@[m as int], methods@[m as int]));
                            assert(Some(ks[y].name@) == utf8_of(pool@, image.methods@[m as int].name_index as int));
                            assert(Some(ks[y].descriptor@) == utf8_of(pool@, image.methods@[m as int].descriptor_index as int));
                            assert(methods_distinct(pool@, image.methods@));
                            assert(!(utf8_of(pool@, image.methods@[k].name_index as int) == utf8_of(
                                pool@,
                                image.methods@[m as int].name_index as int,
                            ) && utf8_of(pool@, image.methods@[k].descriptor_index as int) == utf8_of(
                                pool@,
                                image.methods@[m as int].descriptor_index as int,
                            )));
                        }
                    }
                    assert forall|x: int| 0 <= x < ks.len() implies (#[trigger] ks[x]).class_idx < class_idx + 1 by {
                        if x < ks.len() - 1 {
                            assert(ks[x] == before[x]);
                        }
                    }
                }
            }
            assert forall|k: int| 0 <= k < m + 1 implies {
                let key = #[trigger] program.method_keys@[keys0.len() + k];
                &&& key.class_idx == class_idx
                &&& key.method_idx == k
                &&& Some(key.name@) == utf8_of(pool@, image.methods@[k].name_index as int)
                &&& Some(key.descriptor@) == utf8_of(pool@, image.methods@[k].descriptor_index as int)
            } by {
                if k < m {
                    assert(program.method_keys@[keys0.len() + k] == before[keys0.len() + k]);
                }
            }
            m = m + 1;
        }

        let class = Class {
            name: name.clone(),
            super_class_idx: super_idx,
            vmt,
            constant_pool_idx: cp_base - 1,
            fields,
            methods,
        };
        program.classes.push(class);
        proof {
            assert(program.classes@.drop_last() =~= old(program).classes@);
            let c = program.classes@.last();
            assert(c.fields@.subrange(0, inherited@.len() as int) =~= inherited@);
            assert forall|k: int| 0 <= k < image.fields@.len() implies field_ok(
                pool@,
                image.fields@[k],
                #[trigger] c.fields@[inherited@.len() + k],
            ) by {
                assert(c.fields@[inherited@.len() + k] == own@[k]);
            }
        }
        Ok(class_idx)
    }

    /// A loader rooted at `path`.
    pub fn new(path: &str) -> (r: ClassLoader)
        ensures
            r.base_path@ == path@,
    {
        ClassLoader { base_path: path.to_string() }
    }
}

} // verus!
