//! The program image: class table, global constant pool, code buffer and the
//! method index, with the built-in `java/lang` classes.
use vstd::prelude::*;
use crate::classes::{Class, ConstantPoolValue, Field, Method, VirtualMethodsTable};
use crate::descriptor::Signature;
use crate::flags::{AccessFlags, NATIVE, STATIC};
use crate::value::{ClassIdx, FieldIdx, MethodInClassIdx, Type};

verus! {

pub const OBJECT_CLASS: &'static str = "java/lang/Object";
pub const STRING_CLASS: &'static str = "java/lang/String";
pub const STRING_BUILDER_CLASS: &'static str = "java/lang/StringBuilder";
pub const INTEGER_CLASS: &'static str = "java/lang/Integer";

pub const OBJECT_CLASS_IDX: ClassIdx = 0;
pub const STRING_CLASS_IDX: ClassIdx = 1;
pub const STRING_BUILDER_CLASS_IDX: ClassIdx = 2;
pub const INTEGER_CLASS_IDX: ClassIdx = 3;

pub const INIT_METHOD: &'static str = "<init>";
pub const EQUALS: &'static str = "equals";
pub const APPEND_METHOD: &'static str = "append";
pub const TO_STRING: &'static str = "toString";
pub const VALUE_OF: &'static str = "valueOf";
pub const INT_VALUE: &'static str = "intValue";

/// `(class, method name, descriptor) -> method index`, as registered.
#[derive(Clone, Debug)]
pub struct MethodKey {
    pub class_idx: ClassIdx,
    pub name: String,
    pub descriptor: String,
    pub method_idx: MethodInClassIdx,
}

/// The per-process program image.
pub struct Program {
    pub classes: Vec<Class>,
    pub constant_pool: Vec<ConstantPoolValue>,
    pub code: Vec<u8>,
    /// Method index; a later key takes precedence over an earlier equal one.
    pub method_keys: Vec<MethodKey>,
}

/// The method index registered last for `(c, name, desc)`.
pub open spec fn key_lookup(keys: Seq<MethodKey>, c: ClassIdx, name: Seq<char>, desc: Seq<char>) -> Option<
    MethodInClassIdx,
>
    decreases keys.len(),
{
    if keys.len() == 0 {
        None
    } else if keys.last().class_idx == c && keys.last().name@ == name && keys.last().descriptor@ == desc {
        Some(keys.last().method_idx)
    } else {
        key_lookup(keys.drop_last(), c, name, desc)
    }
}

/// Whether class `i` is the first one named `name`.
pub open spec fn first_class_named(classes: Seq<Class>, name: Seq<char>, i: int) -> bool {
    &&& 0 <= i < classes.len()
    &&& classes[i].name@ == name
    &&& forall|j: int| 0 <= j < i ==> (#[trigger] classes[j]).name@ != name
}

/// Whether no two classes share a name.
pub open spec fn class_names_unique(classes: Seq<Class>) -> bool {
    forall|i: int, j: int| 0 <= i < j < classes.len() ==> (#[trigger] classes[i]).name@ != (#[trigger] classes[j]).name@
}

/// Whether no class is named `name`.
pub open spec fn no_class_named(classes: Seq<Class>, name: Seq<char>) -> bool {
    forall|j: int| 0 <= j < classes.len() ==> (#[trigger] classes[j]).name@ != name
}

/// Whether field `f` is the last one named `name` (an own field hides an
/// inherited one of the same name).
pub open spec fn last_field_named(fields: Seq<Field>, name: Seq<char>, f: int) -> bool {
    &&& 0 <= f < fields.len()
    &&& fields[f].name@ == name
    &&& forall|g: int| f < g < fields.len() ==> (#[trigger] fields[g]).name@ != name
}

/// Whether no field is named `name`.
pub open spec fn no_field_named(fields: Seq<Field>, name: Seq<char>) -> bool {
    forall|g: int| 0 <= g < fields.len() ==> (#[trigger] fields[g]).name@ != name
}

/// Whether no two index entries have the same class, name and descriptor.
pub open spec fn method_keys_unique(keys: Seq<MethodKey>) -> bool {
    forall|i: int, j: int| 0 <= i < j < keys.len() ==> !((#[trigger] keys[i]).class_idx == (#[trigger] keys[j]).class_idx
        && keys[i].name@ == keys[j].name@ && keys[i].descriptor@ == keys[j].descriptor@)
}

/// Whether every index entry names a class below `n`.
pub open spec fn method_keys_below(keys: Seq<MethodKey>, n: int) -> bool {
    forall|i: int| 0 <= i < keys.len() ==> (#[trigger] keys[i]).class_idx < n
}

/// The method-index entries of the built-in classes, in registration order:
/// class, method name, descriptor, method index.
pub open spec fn builtin_key(j: int) -> (ClassIdx, Seq<char>, Seq<char>, MethodInClassIdx) {
    if j == 0 {
        (OBJECT_CLASS_IDX, INIT_METHOD@, "()V"@, 0)
    } else if j == 1 {
        (OBJECT_CLASS_IDX, EQUALS@, "(Ljava/lang/Object;)Z"@, 1)
    } else if j == 2 {
        (STRING_BUILDER_CLASS_IDX, INIT_METHOD@, "()V"@, 0)
    } else if j == 3 {
        (STRING_BUILDER_CLASS_IDX, APPEND_METHOD@, "(Ljava/lang/String;)Ljava/lang/StringBuilder;"@, 1)
    } else if j == 4 {
        (STRING_BUILDER_CLASS_IDX, TO_STRING@, "()Ljava/lang/String;"@, 2)
    } else if j == 5 {
        (STRING_BUILDER_CLASS_IDX, APPEND_METHOD@, "(I)Ljava/lang/StringBuilder;"@, 1)
    } else if j == 6 {
        (INTEGER_CLASS_IDX, VALUE_OF@, "(I)Ljava/lang/Integer;"@, 0)
    } else {
        (INTEGER_CLASS_IDX, INT_VALUE@, "()I"@, 1)
    }
}

/// Whether `k` is the entry `t`.
pub open spec fn key_is(k: MethodKey, t: (ClassIdx, Seq<char>, Seq<char>, MethodInClassIdx)) -> bool {
    k.class_idx == t.0 && k.name@ == t.1 && k.descriptor@ == t.2 && k.method_idx == t.3
}

/// Whether `s` is the text of `lit`.
pub fn is_name(s: &String, lit: &str) -> (r: bool)
    ensures
        r == (s@ == lit@),
{
    let t = lit.to_string();
    *s == t
}

fn builtin_method(name: &str, return_type: Type, arguments: Vec<Type>, flags: u16, code_ptr: usize) -> (r: Method)
    ensures
        r.name@ == name@,
        r.signature.return_type == return_type,
        r.signature.arguments@ == arguments@,
        r.flags.bits == flags,
        r.code_ptr == code_ptr,
        r.max_locals == 0,
        r.max_stack == 0,
        r.mem_entry_ptr == 0,
{
    Method {
        name: name.to_string(),
        signature: Signature { return_type, arguments },
        flags: AccessFlags::from_bits(flags),
        code_ptr,
        max_locals: 0,
        max_stack: 0,
        annotation_names: Vec::new(),
        mem_entry_ptr: 0,
    }
}

fn builtin_class(name: &str, fields: Vec<Field>, methods: Vec<Method>) -> (r: Class)
    ensures
        r.name@ == name@,
        r.super_class_idx == 0,
        r.vmt.mapping@.len() == 0,
        r.constant_pool_idx == 0,
        r.fields@ == fields@,
        r.methods@ == methods@,
{
    Class {
        name: name.to_string(),
        super_class_idx: 0,
        vmt: VirtualMethodsTable::new(),
        constant_pool_idx: 0,
        fields,
        methods,
    }
}

impl Program {
    /// An empty image.
    pub fn empty() -> (r: Program)
        ensures
            r.classes@.len() == 0,
            r.constant_pool@.len() == 0,
            r.code@.len() == 0,
            r.method_keys@.len() == 0,
    {
        Program { classes: Vec::new(), constant_pool: Vec::new(), code: Vec::new(), method_keys: Vec::new() }
    }

    /// Registers `(class_idx, name, descriptor) -> method_idx`.
    pub fn register_method(&mut self, class_idx: ClassIdx, name: &str, descriptor: &str, method_idx: MethodInClassIdx)
        ensures
            final(self).classes == old(self).classes,
            final(self).constant_pool == old(self).constant_pool,
            final(self).code == old(self).code,
            final(self).method_keys@.len() == old(self).method_keys@.len() + 1,
            final(self).method_keys@.drop_last() == old(self).method_keys@,
            final(self).method_keys@.last().class_idx == class_idx,
            final(self).method_keys@.last().name@ == name@,
            final(self).method_keys@.last().descriptor@ == descriptor@,
            final(self).method_keys@.last().method_idx == method_idx,
    {
        self.method_keys.push(
            MethodKey {
                class_idx,
                name: name.to_string(),
                descriptor: descriptor.to_string(),
                method_idx,
            },
        );
        assert(self.method_keys@.drop_last() =~= old(self).method_keys@);
    }

    /// Adds the built-in classes `Object`, `String`, `StringBuilder` and `Integer`
    /// at indices 0 to 3, with their method index entries.
    pub fn init_java_lang(&mut self)
        requires
            old(self).classes@.len() == 0,
            old(self).method_keys@.len() == 0,
        ensures
            final(self).classes@.len() == 4,
            final(self).classes@[0].name@ == OBJECT_CLASS@,
            final(self).classes@[1].name@ == STRING_CLASS@,
            final(self).classes@[2].name@ == STRING_BUILDER_CLASS@,
            final(self).classes@[3].name@ == INTEGER_CLASS@,
            forall|c: int| 0 <= c < 4 ==> (#[trigger] final(self).classes@[c]).super_class_idx == 0,
            final(self).classes@[0].fields@.len() == 0,
            final(self).classes@[1].fields@.len() == 0,
            final(self).classes@[2].fields@.len() == 1,
            final(self).classes@[2].fields@[0].value_type == Type::Reference,
            final(self).classes@[3].fields@.len() == 1,
            final(self).classes@[3].fields@[0].value_type == Type::Int,
            final(self).classes@[0].methods@.len() == 2,
            final(self).classes@[0].methods@[0].code_ptr == 1,
            final(self).constant_pool == old(self).constant_pool,
            final(self).code == old(self).code,
            final(self).method_keys@.len() == 8,
            forall|j: int| 0 <= j < 8 ==> key_is(#[trigger] final(self).method_keys@[j], builtin_key(j)),
    {
        let object = builtin_class(
            OBJECT_CLASS,
            Vec::new(),
            vec![
                builtin_method(INIT_METHOD, Type::Void, Vec::new(), 0, 1),
                builtin_method(EQUALS, Type::Boolean, vec![Type::Reference], NATIVE, 0),
            ],
        );
        self.classes.push(object);
        self.register_method(OBJECT_CLASS_IDX, INIT_METHOD, "()V", 0);
        self.register_method(OBJECT_CLASS_IDX, EQUALS, "(Ljava/lang/Object;)Z", 1);

        self.classes.push(builtin_class(STRING_CLASS, Vec::new(), Vec::new()));

        let buffer = Field { name: "buffer".to_string(), flags: AccessFlags::empty(), value_type: Type::Reference };
        let builder = builtin_class(
            STRING_BUILDER_CLASS,
            vec![buffer],
            vec![
                builtin_method(INIT_METHOD, Type::Void, Vec::new(), NATIVE, 0),
                builtin_method(APPEND_METHOD, Type::Reference, vec![Type::Reference], NATIVE, 0),
                builtin_method(TO_STRING, Type::Reference, Vec::new(), NATIVE, 0),
            ],
        );
        self.classes.push(builder);
        self.register_method(STRING_BUILDER_CLASS_IDX, INIT_METHOD, "()V", 0);
        self.register_method(
            STRING_BUILDER_CLASS_IDX,
            APPEND_METHOD,
            "(Ljava/lang/String;)Ljava/lang/StringBuilder;",
            1,
        );
        self.register_method(STRING_BUILDER_CLASS_IDX, TO_STRING, "()Ljava/lang/String;", 2);
        // Both overloads of `append` share one native method.
        self.register_method(STRING_BUILDER_CLASS_IDX, APPEND_METHOD, "(I)Ljava/lang/StringBuilder;", 1);

        let boxed = Field { name: "_".to_string(), flags: AccessFlags::empty(), value_type: Type::Int };
        let integer = builtin_class(
            INTEGER_CLASS,
            vec![boxed],
            vec![
                builtin_method(VALUE_OF, Type::Reference, vec![Type::Int], NATIVE | STATIC, 0),
                builtin_method(INT_VALUE, Type::Int, Vec::new(), NATIVE, 0),
            ],
        );
        self.classes.push(integer);
        self.register_method(INTEGER_CLASS_IDX, VALUE_OF, "(I)Ljava/lang/Integer;", 0);
        self.register_method(INTEGER_CLASS_IDX, INT_VALUE, "()I", 1);
    }

    /// The image every run starts from: a code buffer whose offset 1 holds a bare
    /// `return` (run by `Object.<init>`), the built-in classes, and a constant
    /// pool whose entry 0 is a pad.
    pub fn init() -> (r: Program)
        ensures
            r.code@ == seq![0u8, 177u8],
            r.constant_pool@.len() == 1,
            r.constant_pool@[0] is Skip,
            r.classes@.len() == 4,
            r.classes@[0].name@ == OBJECT_CLASS@,
            r.classes@[1].name@ == STRING_CLASS@,
            r.classes@[2].name@ == STRING_BUILDER_CLASS@,
            r.classes@[3].name@ == INTEGER_CLASS@,
            forall|c: int| 0 <= c < 4 ==> (#[trigger] r.classes@[c]).super_class_idx == 0,
            r.classes@[0].fields@.len() == 0,
            r.classes@[1].fields@.len() == 0,
            r.classes@[2].fields@.len() == 1,
            r.classes@[2].fields@[0].value_type == Type::Reference,
            r.classes@[3].fields@.len() == 1,
            r.classes@[3].fields@[0].value_type == Type::Int,
            class_names_unique(r.classes@),
            r.method_keys@.len() == 8,
            forall|j: int| 0 <= j < 8 ==> key_is(#[trigger] r.method_keys@[j], builtin_key(j)),
            method_keys_unique(r.method_keys@),
            method_keys_below(r.method_keys@, r.classes@.len() as int),
    {
        let mut p = Program::empty();
        p.code.push(0x00);
        p.code.push(177);
        p.init_java_lang();
        p.constant_pool.push(ConstantPoolValue::Skip);
        assert(p.code@ =~= seq![0u8, 177u8]);
        proof {
            reveal_strlit("java/lang/Object");
            reveal_strlit("java/lang/String");
            reveal_strlit("java/lang/StringBuilder");
            reveal_strlit("java/lang/Integer");
            assert(OBJECT_CLASS@ == "java/lang/Object"@);
            assert(STRING_CLASS@ == "java/lang/String"@);
            assert(STRING_BUILDER_CLASS@ == "java/lang/StringBuilder"@);
            assert(INTEGER_CLASS@ == "java/lang/Integer"@);
            assert("java/lang/Object"@[10] != "java/lang/String"@[10]);
            assert("java/lang/Object"@.len() != "java/lang/StringBuilder"@.len());
            assert("java/lang/Object"@.len() != "java/lang/Integer"@.len());
            assert("java/lang/String"@.len() != "java/lang/StringBuilder"@.len());
            assert("java/lang/String"@.len() != "java/lang/Integer"@.len());
            assert("java/lang/StringBuilder"@.len() != "java/lang/Integer"@.len());
            reveal_strlit("<init>");
            reveal_strlit("equals");
            reveal_strlit("append");
            reveal_strlit("toString");
            reveal_strlit("valueOf");
            reveal_strlit("intValue");
            reveal_strlit("(Ljava/lang/String;)Ljava/lang/StringBuilder;");
            reveal_strlit("(I)Ljava/lang/StringBuilder;");
            assert(INIT_METHOD@ == "<init>"@ && EQUALS@ == "equals"@ && APPEND_METHOD@ == "append"@);
            assert(TO_STRING@ == "toString"@ && VALUE_OF@ == "valueOf"@ && INT_VALUE@ == "intValue"@);
            assert("<init>"@[0] != "equals"@[0] && "<init>"@[0] != "append"@[0]);
            assert("<init>"@.len() != "toString"@.len() && "append"@.len() != "toString"@.len());
            assert("valueOf"@.len() != "intValue"@.len());
            assert("(Ljava/lang/String;)Ljava/lang/StringBuilder;"@.len() != "(I)Ljava/lang/StringBuilder;"@.len());
            let ks = p.method_keys@;
            assert forall|a: int, b: int| 0 <= a < b < ks.len() implies !((#[trigger] ks[a]).class_idx == (
            #[trigger] ks[b]).class_idx && ks[a].name@ == ks[b].name@ && ks[a].descriptor@ == ks[b].descriptor@) by {
                assert(key_is(ks[a], builtin_key(a)));
                assert(key_is(ks[b], builtin_key(b)));
            }
            assert forall|a: int| 0 <= a < ks.len() implies (#[trigger] ks[a]).class_idx < 4 by {
                assert(key_is(ks[a], builtin_key(a)));
            }
            assert forall|i: int, j: int| 0 <= i < j < p.classes@.len() implies (#[trigger] p.classes@[i]).name@
                != (#[trigger] p.classes@[j]).name@ by {
                assert(p.classes@[0].name@ == OBJECT_CLASS@);
            }
        }
        p
    }

    /// The index of the class named `name`, if it is loaded.
    pub fn class_idx_of(&self, name: &String) -> (r: Option<ClassIdx>)
        ensures
            r matches Some(i) ==> first_class_named(self.classes@, name@, i as int),
            r is None ==> no_class_named(self.classes@, name@),
    {
        let mut i: usize = 0;
        while i < self.classes.len()
            invariant
                i <= self.classes@.len(),
                forall|j: int| 0 <= j < i ==> (#[trigger] self.classes@[j]).name@ != name@,
            decreases self.classes@.len() - i,
        {
            if self.classes[i].name == *name {
                return Some(i);
            }
            i = i + 1;
        }
        None
    }

    /// The index of the last field of class `class_idx` named `field_name`
    /// (an own field hides an inherited one of the same name).
    pub fn field_idx_of(&self, class_idx: ClassIdx, field_name: &String) -> (r: Option<FieldIdx>)
        ensures
            class_idx >= self.classes@.len() ==> r is None,
            class_idx < self.classes@.len() ==> {
                let fs = self.classes@[class_idx as int].fields@;
                &&& r matches Some(f) ==> f < fs.len() && fs[f as int].name@ == field_name@
                    && forall|g: int| f < g < fs.len() ==> (#[trigger] fs[g]).name@ != field_name@
                &&& r is None ==> forall|g: int| 0 <= g < fs.len() ==> (#[trigger] fs[g]).name@ != field_name@
            },
    {
        if class_idx >= self.classes.len() {
            return None;
        }
        let fields = &self.classes[class_idx].fields;
        let mut i = fields.len();
        while i > 0
            invariant
                i <= fields@.len(),
                class_idx < self.classes@.len(),
                fields@ == self.classes@[class_idx as int].fields@,
                forall|g: int| i <= g < fields@.len() ==> (#[trigger] fields@[g]).name@ != field_name@,
            decreases i,
        {
            if fields[i - 1].name == *field_name {
                return Some(i - 1);
            }
            i = i - 1;
        }
        None
    }

    /// The method registered last for `(class_idx, name, descriptor)`.
    pub fn method_idx_of(&self, class_idx: ClassIdx, name: &String, descriptor: &String) -> (r: Option<
        MethodInClassIdx,
    >)
        ensures
            r == key_lookup(self.method_keys@, class_idx, name@, descriptor@),
    {
        let mut i = self.method_keys.len();
        assert(self.method_keys@.subrange(0, i as int) =~= self.method_keys@);
        while i > 0
            invariant
                i <= self.method_keys@.len(),
                key_lookup(self.method_keys@, class_idx, name@, descriptor@) == key_lookup(
                    self.method_keys@.subrange(0, i as int),
                    class_idx,
                    name@,
                    descriptor@,
                ),
            decreases i,
        {
            let k = &self.method_keys[i - 1];
            if k.class_idx == class_idx && k.name == *name && k.descriptor == *descriptor {
                return Some(k.method_idx);
            }
            assert(self.method_keys@.subrange(0, i as int).drop_last() =~= self.method_keys@.subrange(0, i - 1));
            i = i - 1;
        }
        None
    }
}

} // verus!
