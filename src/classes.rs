//! Classes, methods, fields, virtual-method tables and constant-pool entries.
use vstd::prelude::*;
use crate::descriptor::Signature;
use crate::flags::AccessFlags;
use crate::value::{ClassIdx, CodePtr, ConstantPoolIdx, FieldIdx, HeapPtr, MethodInClassIdx, Type, Value};

verus! {

/// A field slot of a class (inherited fields included).
#[derive(Clone, Debug)]
pub struct Field {
    pub name: String,
    pub flags: AccessFlags,
    pub value_type: Type,
}

/// A method of a class.
#[derive(Clone, Debug)]
pub struct Method {
    pub name: String,
    pub signature: Signature,
    pub flags: AccessFlags,
    /// Offset of the bytecode in the program's code buffer; `0` for abstract or native.
    pub code_ptr: CodePtr,
    pub max_locals: u16,
    pub max_stack: u16,
    pub annotation_names: Vec<String>,
    /// Head of the memo list (a `MemEntry` handle), `0` when empty.
    pub mem_entry_ptr: HeapPtr,
}

/// One override: calls of `declared` on instances of the owning class go to `target`.
#[derive(Clone, Copy, Debug, PartialEq, Eq, Structural)]
pub struct VmtEntry {
    pub declared_class: ClassIdx,
    pub declared_method: MethodInClassIdx,
    pub target_class: ClassIdx,
    pub target_method: MethodInClassIdx,
}

/// Maps a declared method to the override that instances of a class run.
/// Later entries take precedence over earlier ones with the same key.
#[derive(Clone, Debug)]
pub struct VirtualMethodsTable {
    pub mapping: Vec<VmtEntry>,
}

/// A loaded class.
#[derive(Clone, Debug)]
pub struct Class {
    pub name: String,
    /// `0` for classes whose super class is `java/lang/Object` (and for it).
    pub super_class_idx: ClassIdx,
    pub vmt: VirtualMethodsTable,
    /// In-class constant index `i` lives at global index `constant_pool_idx + i`.
    pub constant_pool_idx: ConstantPoolIdx,
    pub fields: Vec<Field>,
    pub methods: Vec<Method>,
}

/// An entry of the global constant pool, resolved in place on first use.
#[derive(Clone, Debug)]
pub enum ConstantPoolValue {
    Class(ClassIdx),
    FieldRef(ClassIdx, FieldIdx),
    MethodRef(ClassIdx, MethodInClassIdx),
    String(Value),
    Const(Value),
    UnresolvedClassRef { class_name: String },
    UnresolvedFieldRef { class_name: String, field_name: String },
    UnresolvedMethodRef { class_name: String, method_name: String, signature: String },
    Unsupported,
    Skip,
}

/// The override registered last for `key`, if any.
pub open spec fn vmt_get(s: Seq<VmtEntry>, key: (ClassIdx, MethodInClassIdx)) -> Option<
    (ClassIdx, MethodInClassIdx),
>
    decreases s.len(),
{
    if s.len() == 0 {
        None
    } else if (s.last().declared_class, s.last().declared_method) == key {
        Some((s.last().target_class, s.last().target_method))
    } else {
        vmt_get(s.drop_last(), key)
    }
}

/// The method an entry redirects.
pub open spec fn entry_key(e: VmtEntry) -> (ClassIdx, MethodInClassIdx) {
    (e.declared_class, e.declared_method)
}

/// Whether no two entries redirect the same method.
pub open spec fn vmt_keys_unique(s: Seq<VmtEntry>) -> bool {
    forall|i: int, j: int| 0 <= i < j < s.len() ==> entry_key(#[trigger] s[i]) != entry_key(#[trigger] s[j])
}

proof fn lemma_vmt_update_other(s: Seq<VmtEntry>, i: int, e: VmtEntry, k: (ClassIdx, MethodInClassIdx))
    requires
        0 <= i < s.len(),
        entry_key(s[i]) != k,
        entry_key(e) != k,
    ensures
        vmt_get(s.update(i, e), k) == vmt_get(s, k),
    decreases s.len(),
{
    let t = s.update(i, e);
    if i < s.len() - 1 {
        assert(t.drop_last() =~= s.drop_last().update(i, e));
        lemma_vmt_update_other(s.drop_last(), i, e, k);
    } else {
        assert(t.drop_last() =~= s.drop_last());
    }
}

proof fn lemma_vmt_update_last(s: Seq<VmtEntry>, i: int, e: VmtEntry)
    requires
        0 <= i < s.len(),
        forall|j: int| i < j < s.len() ==> entry_key(#[trigger] s[j]) != entry_key(e),
    ensures
        vmt_get(s.update(i, e), entry_key(e)) == Some((e.target_class, e.target_method)),
    decreases s.len(),
{
    let t = s.update(i, e);
    if i < s.len() - 1 {
        assert(t.drop_last() =~= s.drop_last().update(i, e));
        lemma_vmt_update_last(s.drop_last(), i, e);
    }
}

proof fn lemma_vmt_absent(s: Seq<VmtEntry>, k: (ClassIdx, MethodInClassIdx))
    requires
        forall|j: int| 0 <= j < s.len() ==> entry_key(#[trigger] s[j]) != k,
    ensures
        vmt_get(s, k) is None,
    decreases s.len(),
{
    if s.len() > 0 {
        lemma_vmt_absent(s.drop_last(), k);
    }
}

/// A copy of a sequence of plain items.
pub fn copy_vec<T: Copy>(v: &Vec<T>) -> (r: Vec<T>)
    ensures
        r@ == v@,
{
    let mut r: Vec<T> = Vec::new();
    let mut i: usize = 0;
    while i < v.len()
        invariant
            i <= v@.len(),
            r@ == v@.subrange(0, i as int),
        decreases v@.len() - i,
    {
        r.push(v[i]);
        i = i + 1;
        assert(r@ =~= v@.subrange(0, i as int));
    }
    assert(r@ =~= v@);
    r
}

impl ConstantPoolValue {
    /// A copy of the entry.
    pub fn copy(&self) -> (r: ConstantPoolValue)
        ensures
            r == *self,
    {
        match self {
            ConstantPoolValue::Class(c) => ConstantPoolValue::Class(*c),
            ConstantPoolValue::FieldRef(c, f) => ConstantPoolValue::FieldRef(*c, *f),
            ConstantPoolValue::MethodRef(c, m) => ConstantPoolValue::MethodRef(*c, *m),
            ConstantPoolValue::String(v) => ConstantPoolValue::String(v.clone_value()),
            ConstantPoolValue::Const(v) => ConstantPoolValue::Const(v.clone_value()),
            ConstantPoolValue::UnresolvedClassRef { class_name } => ConstantPoolValue::UnresolvedClassRef {
                class_name: class_name.clone(),
            },
            ConstantPoolValue::UnresolvedFieldRef { class_name, field_name } => ConstantPoolValue::UnresolvedFieldRef {
                class_name: class_name.clone(),
                field_name: field_name.clone(),
            },
            ConstantPoolValue::UnresolvedMethodRef { class_name, method_name, signature } => {
                ConstantPoolValue::UnresolvedMethodRef {
                    class_name: class_name.clone(),
                    method_name: method_name.clone(),
                    signature: signature.clone(),
                }
            },
            ConstantPoolValue::Unsupported => ConstantPoolValue::Unsupported,
            ConstantPoolValue::Skip => ConstantPoolValue::Skip,
        }
    }
}

impl VirtualMethodsTable {
    /// No override.
    pub fn new() -> (r: VirtualMethodsTable)
        ensures
            r.mapping@.len() == 0,
    {
        VirtualMethodsTable { mapping: Vec::new() }
    }

    /// The override of `key`, if any.
    pub fn get(&self, key: (ClassIdx, MethodInClassIdx)) -> (r: Option<(ClassIdx, MethodInClassIdx)>)
        ensures
            r == vmt_get(self.mapping@, key),
    {
        let mut i = self.mapping.len();
        assert(self.mapping@.subrange(0, i as int) =~= self.mapping@);
        while i > 0
            invariant
                i <= self.mapping@.len(),
                vmt_get(self.mapping@, key) == vmt_get(self.mapping@.subrange(0, i as int), key),
            decreases i,
        {
            let e = self.mapping[i - 1];
            if e.declared_class == key.0 && e.declared_method == key.1 {
                return Some((e.target_class, e.target_method));
            }
            assert(self.mapping@.subrange(0, i as int).drop_last() =~= self.mapping@.subrange(0, i - 1));
            i = i - 1;
        }
        None
    }

    /// Registers `declared -> target`, replacing the entry of `declared` if there is one.
    pub fn insert(&mut self, declared: (ClassIdx, MethodInClassIdx), target: (ClassIdx, MethodInClassIdx))
        ensures
            vmt_get(final(self).mapping@, declared) == Some(target),
            forall|k: (ClassIdx, MethodInClassIdx)| k != declared ==> vmt_get(final(self).mapping@, k) == vmt_get(old(self).mapping@, k),
            vmt_keys_unique(old(self).mapping@) ==> vmt_keys_unique(final(self).mapping@),
    {
        let e = VmtEntry {
            declared_class: declared.0,
            declared_method: declared.1,
            target_class: target.0,
            target_method: target.1,
        };
        assert(entry_key(e) == declared);
        let mut i = self.mapping.len();
        while i > 0
            invariant
                i <= self.mapping@.len(),
                self.mapping@ == old(self).mapping@,
                entry_key(e) == declared,
                e.target_class == target.0 && e.target_method == target.1,
                forall|j: int| i <= j < self.mapping@.len() ==> entry_key(#[trigger] self.mapping@[j]) != declared,
            decreases i,
        {
            let x = self.mapping[i - 1];
            if x.declared_class == declared.0 && x.declared_method == declared.1 {
                self.mapping.set(i - 1, e);
                proof {
                    lemma_vmt_update_last(old(self).mapping@, i - 1, e);
                    assert forall|k: (ClassIdx, MethodInClassIdx)| k != declared implies vmt_get(self.mapping@, k)
                        == vmt_get(old(self).mapping@, k) by {
                        lemma_vmt_update_other(old(self).mapping@, i - 1, e, k);
                    }
                    assert forall|a: int, b: int| vmt_keys_unique(old(self).mapping@) && 0 <= a < b < self.mapping@.len()
                        implies entry_key(#[trigger] self.mapping@[a]) != entry_key(#[trigger] self.mapping@[b]) by {
                        assert(entry_key(self.mapping@[a]) == entry_key(old(self).mapping@[a]));
                        assert(entry_key(self.mapping@[b]) == entry_key(old(self).mapping@[b]));
                    }
                }
                return;
            }
            i = i - 1;
        }
        proof {
            lemma_vmt_absent(old(self).mapping@, declared);
        }
        self.mapping.push(e);
        assert(self.mapping@.drop_last() =~= old(self).mapping@);
    }

    /// A copy of the table.
    pub fn copy(&self) -> (r: VirtualMethodsTable)
        ensures
            r.mapping@ == self.mapping@,
    {
        VirtualMethodsTable { mapping: copy_vec(&self.mapping) }
    }
}

impl Field {
    /// A copy of the field.
    pub fn copy(&self) -> (r: Field)
        ensures
            r == *self,
    {
        Field { name: self.name.clone(), flags: self.flags, value_type: self.value_type }
    }
}

impl Signature {
    /// A copy of the signature.
    pub fn copy(&self) -> (r: Signature)
        ensures
            r.return_type == self.return_type,
            r.arguments@ == self.arguments@,
    {
        Signature { return_type: self.return_type, arguments: copy_vec(&self.arguments) }
    }

    /// Same return type and same argument types.
    pub fn same(&self, other: &Signature) -> (r: bool)
        ensures
            r == (self.return_type == other.return_type && self.arguments@ == other.arguments@),
    {
        if self.return_type != other.return_type || self.arguments.len() != other.arguments.len() {
            return false;
        }
        let mut i: usize = 0;
        while i < self.arguments.len()
            invariant
                self.arguments@.len() == other.arguments@.len(),
                i <= self.arguments@.len(),
                forall|j: int| 0 <= j < i ==> self.arguments@[j] == other.arguments@[j],
            decreases self.arguments@.len() - i,
        {
            if self.arguments[i] != other.arguments[i] {
                return false;
            }
            i = i + 1;
        }
        assert(self.arguments@ =~= other.arguments@);
        true
    }

    /// Whether every argument and the result are references.
    pub fn all_references(&self) -> (r: bool)
        ensures
            r == (self.return_type == Type::Reference
                && forall|j: int| 0 <= j < self.arguments@.len() ==> self.arguments@[j] == Type::Reference),
    {
        if self.return_type != Type::Reference {
            return false;
        }
        let mut i: usize = 0;
        while i < self.arguments.len()
            invariant
                i <= self.arguments@.len(),
                forall|j: int| 0 <= j < i ==> self.arguments@[j] == Type::Reference,
            decreases self.arguments@.len() - i,
        {
            if self.arguments[i] != Type::Reference {
                return false;
            }
            i = i + 1;
        }
        true
    }
}

} // verus!
