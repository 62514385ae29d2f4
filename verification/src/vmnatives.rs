//! Native methods that work on the machine's own state: the `java/lang/Class` objects,
//! the class table, the static fields, the interned strings and the call stack.
use crate::classes::{class_index, find_class, lemma_class_index_bounds, table_wf};
use crate::constants::{intern_post, interned};
use crate::error::{ExecError, VMError};
use crate::heap::{ArrayTypeValue, Array, ArrayType, FieldSlot, Heap, HeapObject, ObjectValue};
use crate::machine::{instance_fields_of, slot_named_from, static_named, static_written, Vm};
use crate::natives::NativeResult;
use crate::numeric::ArrayPrimitive;
use crate::value::RuntimeValue;
use vstd::prelude::*;
use vstd::string::*;

verus! {

/// The descriptor letter of an array element type.
pub open spec fn primitive_letter(p: ArrayPrimitive) -> char {
    match p {
        ArrayPrimitive::Bool => 'Z',
        ArrayPrimitive::Char => 'C',
        ArrayPrimitive::Float => 'F',
        ArrayPrimitive::Double => 'D',
        ArrayPrimitive::Byte => 'B',
        ArrayPrimitive::Short => 'S',
        ArrayPrimitive::Int => 'I',
        ArrayPrimitive::Long => 'J',
    }
}

/// The name of the class of an array: `[` and the descriptor of its element type.
pub open spec fn array_class_name(ty: ArrayTypeValue) -> Seq<char> {
    match ty {
        ArrayTypeValue::Primitive(p) => seq!['[', primitive_letter(p)],
        ArrayTypeValue::Object(n) => if n.len() > 0 && n[0] == '[' {
            seq!['['] + n
        } else {
            seq!['[', 'L'] + n + seq![';']
        },
    }
}

/// The name of the class of the object `r` names: an instance's class, an array's
/// descriptor, `java/lang/String` for a string constant and `java/lang/Class` for a
/// class object.
pub open spec fn class_name_of(h: Seq<ObjectValue>, r: usize) -> Option<Seq<char>> {
    if r >= h.len() {
        None
    } else {
        match h[r as int] {
            ObjectValue::Instance { class_name, .. } => Some(class_name),
            ObjectValue::Array { ty, .. } => Some(array_class_name(ty)),
            ObjectValue::Str(_) => Some("java/lang/String"@),
            ObjectValue::Mirror(_) => Some("java/lang/Class"@),
        }
    }
}

/// The class name of a primitive type (its descriptor letter) by the name Java gives it;
/// `short` and `void` have none.
pub open spec fn primitive_class(name: Seq<char>) -> Option<Seq<char>> {
    if name == "byte"@ {
        Some("B"@)
    } else if name == "float"@ {
        Some("F"@)
    } else if name == "double"@ {
        Some("D"@)
    } else if name == "int"@ {
        Some("I"@)
    } else if name == "char"@ {
        Some("C"@)
    } else if name == "long"@ {
        Some("J"@)
    } else if name == "boolean"@ {
        Some("Z"@)
    } else {
        None
    }
}

/// Whether a class name is that of a primitive type.
pub open spec fn is_primitive_name(n: Seq<char>) -> bool {
    n == "B"@ || n == "F"@ || n == "D"@ || n == "I"@ || n == "C"@ || n == "J"@ || n == "Z"@
}

/// The number `Signal.findSignal0` gives a signal's name; -1 for one it does not know.
pub open spec fn signal_number(name: Seq<char>) -> i32 {
    if name == "ABRT"@ {
        0
    } else if name == "FPE"@ {
        1
    } else if name == "ILL"@ {
        2
    } else if name == "INT"@ {
        3
    } else if name == "SEGV"@ {
        4
    } else if name == "TERM"@ {
        5
    } else if name == "HUP"@ {
        6
    } else {
        -1i32
    }
}

/// The name of a class object's class.
pub open spec fn mirror_name(h: Seq<ObjectValue>, v: RuntimeValue) -> Option<Seq<char>> {
    match v {
        RuntimeValue::Object(Some(r)) => if r < h.len() {
            match h[r as int] {
                ObjectValue::Mirror(n) => Some(n),
                _ => None,
            }
        } else {
            None
        },
        _ => None,
    }
}

/// The text of a string constant object.
pub open spec fn string_text(h: Seq<ObjectValue>, v: RuntimeValue) -> Option<Seq<char>> {
    match v {
        RuntimeValue::Object(Some(r)) => if r < h.len() {
            match h[r as int] {
                ObjectValue::Str(t) => Some(t),
                _ => None,
            }
        } else {
            None
        },
        _ => None,
    }
}

/// The keys and values `SystemProps$Raw.vmProperties` gives, in turn.
pub open spec fn vm_property_texts() -> Seq<Seq<char>> {
    seq![
        "java.home"@, "nil"@, "native.encoding"@, "UTF-8"@, "user.home"@, "nil"@, "user.dir"@, "nil"@,
        "user.name"@, "amy b)"@, "java.io.tmpdir"@, "nil"@, "sun.stdout.encoding"@, "UTF-8"@,
        "sun.stderr.encoding"@, "UTF-8"@,
    ]
}

fn is(s: &String, lit: &str) -> (r: bool)
    ensures
        r == (s@ == lit@),
{
    let t = String::from_str(lit);
    *s == t
}

fn array_name(ty: &ArrayType) -> (r: String)
    ensures
        r@ == array_class_name(ty@),
{
    let mut out = String::from_str("[");
    match ty {
        ArrayType::Primitive(p) => {
            let c = match p {
                ArrayPrimitive::Bool => "Z",
                ArrayPrimitive::Char => "C",
                ArrayPrimitive::Float => "F",
                ArrayPrimitive::Double => "D",
                ArrayPrimitive::Byte => "B",
                ArrayPrimitive::Short => "S",
                ArrayPrimitive::Int => "I",
                ArrayPrimitive::Long => "J",
            };
            proof {
                reveal_strlit("[");
                reveal_strlit("Z");
                reveal_strlit("C");
                reveal_strlit("F");
                reveal_strlit("D");
                reveal_strlit("B");
                reveal_strlit("S");
                reveal_strlit("I");
                reveal_strlit("J");
            }
            out.append(c);
            assert(out@ =~= array_class_name(ty@));
        },
        ArrayType::Object(n) => {
            proof {
                reveal_strlit("[");
                reveal_strlit("L");
                reveal_strlit(";");
            }
            let nested = n.as_str().unicode_len() > 0 && n.as_str().get_char(0) == '[';
            if !nested {
                out.append("L");
            }
            out.append(n.as_str());
            if !nested {
                out.append(";");
            }
            assert(out@ =~= array_class_name(ty@));
        },
    }
    out
}

/// The machine has a class object for the class named `name`, in its table of class
/// objects.
pub open spec fn has_mirror(vm: Vm, name: Seq<char>) -> bool {
    exists|k: int|
        0 <= k < vm.mirrors@.len() && (#[trigger] vm.mirrors@[k]).0@ == name && vm.mirrors@[k].1 < vm.heap@.len()
            && vm.heap@[vm.mirrors@[k].1 as int] == ObjectValue::Mirror(name)
}

/// From machine `before` to machine `after`, the table of class objects and the heap
/// only grew: what they held stays where it was.
pub open spec fn mirrors_kept(before: Vm, after: Vm) -> bool {
    &&& before.mirrors@.len() <= after.mirrors@.len()
    &&& forall|k: int| 0 <= k < before.mirrors@.len() ==> #[trigger] after.mirrors@[k] == before.mirrors@[k]
    &&& before.heap@.len() <= after.heap@.len()
    &&& forall|x: int| 0 <= x < before.heap@.len() ==> #[trigger] after.heap@[x] == before.heap@[x]
}

/// A class object a machine has stays while its tables only grow.
pub proof fn lemma_mirror_kept(a: Vm, b: Vm, name: Seq<char>)
    requires
        mirrors_kept(a, b),
        has_mirror(a, name),
    ensures
        has_mirror(b, name),
{
    let k = choose|k: int|
        0 <= k < a.mirrors@.len() && (#[trigger] a.mirrors@[k]).0@ == name && a.mirrors@[k].1 < a.heap@.len()
            && a.heap@[a.mirrors@[k].1 as int] == ObjectValue::Mirror(name);
    assert(b.mirrors@[k] == a.mirrors@[k]);
    assert(b.heap@[a.mirrors@[k].1 as int] == a.heap@[a.mirrors@[k].1 as int]);
}

impl Vm {
    /// The name of the class of the object `r` names (`class_name_of`).
    pub fn class_name_of_object(&self, r: usize) -> (n: Option<String>)
        ensures
            match class_name_of(self.heap@, r) {
                Some(x) => n matches Some(s) && s@ == x,
                None => n is None,
            },
    {
        if r >= self.heap.objects.len() {
            return None;
        }
        match &self.heap.objects[r] {
            HeapObject::Instance(i) => Some(i.class_name.clone()),
            HeapObject::Array(a) => Some(array_name(&a.ty)),
            HeapObject::Str(_) => Some(String::from_str("java/lang/String")),
            HeapObject::Mirror(_) => Some(String::from_str("java/lang/Class")),
        }
    }

    /// The `java/lang/Class` object for the class named `name`: the one made before when
    /// it is still one, else a new one. Only the heap and the table of class objects
    /// change, and the heap at most grows by the new object.
    pub fn mirror_of(&mut self, name: String) -> (r: usize)
        requires
            old(self).wf(),
        ensures
            final(self).wf(),
            final(self).classes@ == old(self).classes@,
            final(self).frames@ == old(self).frames@,
            r < final(self).heap@.len(),
            final(self).heap@[r as int] == ObjectValue::Mirror(name@),
            final(self).heap@ == old(self).heap@ || final(self).heap@ == old(self).heap@.push(ObjectValue::Mirror(name@)),
            mirrors_kept(*old(self), *final(self)),
            has_mirror(*final(self), name@),
    {
        let mut i: usize = 0;
        while i < self.mirrors.len()
            invariant
                *self == *old(self),
                self.wf(),
            decreases self.mirrors@.len() - i,
        {
            if self.mirrors[i].0 == name {
                let r = self.mirrors[i].1;
                if r < self.heap.objects.len() {
                    let holds = match &self.heap.objects[r] {
                        HeapObject::Mirror(n) => *n == name,
                        _ => false,
                    };
                    if holds {
                        assert(self.mirrors@[i as int].0@ == name@);
                        return r;
                    }
                }
            }
            i = i + 1;
        }
        let r = self.heap.allocate(HeapObject::Mirror(name.clone()));
        let ghost n = name@;
        self.mirrors.push((name, r));
        assert(self.mirrors@[old(self).mirrors@.len() as int].0@ == n);
        r
    }

    /// `Object.getClass`: the class object of the receiver's class.
    pub fn get_class(&mut self, object: RuntimeValue) -> (r: NativeResult)
        requires
            old(self).wf(),
        ensures
            final(self).wf(),
            get_class_post(*old(self), *final(self), object, r),
    {
        match object {
            RuntimeValue::Object(Some(o)) => match self.class_name_of_object(o) {
                Some(n) => {
                    let m = self.mirror_of(n);
                    NativeResult::Returned(Some(RuntimeValue::Object(Some(m))))
                },
                None => NativeResult::Fault(ExecError::NotObject),
            },
            RuntimeValue::Object(None) => NativeResult::Thrown(
                VMError::NullPointerException { ctx: String::from_str("getClass") },
            ),
            _ => NativeResult::Fault(ExecError::NotObject),
        }
    }
}


/// What `Class.isArray`, `Class.isPrimitive` and `Class.isInterface` ask of a class.
#[derive(Debug, Clone, Copy, PartialEq, Eq, Structural)]
pub enum ClassTest {
    Array,
    Primitive,
    Interface,
}

/// Whether the class named `n` passes the test: an array class's name starts with `[`,
/// a primitive class's name is a descriptor letter, an interface is a loaded class with
/// the interface flag.
pub open spec fn class_test_holds(classes: Seq<crate::classes::LoadedClass>, test: ClassTest, n: Seq<char>) -> bool {
    match test {
        ClassTest::Array => n.len() > 0 && n[0] == '[',
        ClassTest::Primitive => is_primitive_name(n),
        ClassTest::Interface => class_index(classes, n) matches Some(c) && classes[c].file.access_flags.flags & 0x0200 != 0,
    }
}

/// The first invocation from `i` on whose class is not named `current`.
pub open spec fn first_other_frame(names: Seq<Seq<char>>, current: Seq<char>, i: int) -> Option<int>
    decreases names.len() - i,
{
    if i < 0 || i >= names.len() {
        None
    } else if names[i] != current {
        Some(i)
    } else {
        first_other_frame(names, current, i + 1)
    }
}

/// The names of the classes of the invocations on the call stack, bottom first.
pub open spec fn frame_class_names(vm: Vm) -> Seq<Seq<char>> {
    vm.frames@.map_values(|a: crate::machine::Activation| vm.classes@[a.class as int].name@)
}

fn primitive_class_name(t: &String) -> (r: Option<&'static str>)
    ensures
        match primitive_class(t@) {
            Some(c) => r matches Some(s) && s@ == c,
            None => r is None,
        },
{
    if is(t, "byte") {
        Some("B")
    } else if is(t, "float") {
        Some("F")
    } else if is(t, "double") {
        Some("D")
    } else if is(t, "int") {
        Some("I")
    } else if is(t, "char") {
        Some("C")
    } else if is(t, "long") {
        Some("J")
    } else if is(t, "boolean") {
        Some("Z")
    } else {
        None
    }
}

fn is_primitive_class_name(n: &String) -> (r: bool)
    ensures
        r == is_primitive_name(n@),
{
    is(n, "B") || is(n, "F") || is(n, "D") || is(n, "I") || is(n, "C") || is(n, "J") || is(n, "Z")
}

fn signal_code(t: &String) -> (r: i32)
    ensures
        r == signal_number(t@),
{
    if is(t, "ABRT") {
        0
    } else if is(t, "FPE") {
        1
    } else if is(t, "ILL") {
        2
    } else if is(t, "INT") {
        3
    } else if is(t, "SEGV") {
        4
    } else if is(t, "TERM") {
        5
    } else if is(t, "HUP") {
        6
    } else {
        -1
    }
}

impl Vm {
    /// The text of a string constant object (`string_text`).
    fn text_of(&self, v: RuntimeValue) -> (t: Option<String>)
        ensures
            match string_text(self.heap@, v) {
                Some(x) => t matches Some(s) && s@ == x,
                None => t is None,
            },
    {
        match v {
            RuntimeValue::Object(Some(r)) => {
                if r < self.heap.objects.len() {
                    match &self.heap.objects[r] {
                        HeapObject::Str(s) => Some(s.clone()),
                        _ => None,
                    }
                } else {
                    None
                }
            },
            _ => None,
        }
    }

    /// The name of a class object's class (`mirror_name`).
    fn mirror_name_of(&self, v: RuntimeValue) -> (t: Option<String>)
        ensures
            match mirror_name(self.heap@, v) {
                Some(x) => t matches Some(s) && s@ == x,
                None => t is None,
            },
    {
        match v {
            RuntimeValue::Object(Some(r)) => {
                if r < self.heap.objects.len() {
                    match &self.heap.objects[r] {
                        HeapObject::Mirror(s) => Some(s.clone()),
                        _ => None,
                    }
                } else {
                    None
                }
            },
            _ => None,
        }
    }

    /// `Class.getPrimitiveClass`: the class object of the primitive type that the string
    /// constant names (`primitive_class`); a name of no primitive type is a fault. A
    /// string that is not a constant goes to the host.
    pub fn get_primitive_class(&mut self, name: RuntimeValue) -> (r: NativeResult)
        requires
            old(self).wf(),
        ensures
            final(self).wf(),
            get_primitive_class_post(*old(self), *final(self), name, r),
    {
        let t = match self.text_of(name) {
            Some(t) => t,
            None => return NativeResult::Host,
        };
        match primitive_class_name(&t) {
            Some(c) => {
                let m = self.mirror_of(String::from_str(c));
                NativeResult::Returned(Some(RuntimeValue::Object(Some(m))))
            },
            None => NativeResult::Fault(ExecError::BadClass),
        }
    }

    /// `Class.isArray`, `Class.isPrimitive` and `Class.isInterface` (`class_test_holds`):
    /// 1 when the receiver's class passes, else 0.
    pub fn class_is(&self, this: RuntimeValue, test: ClassTest) -> (r: NativeResult)
        ensures
            class_is_post(*self, *self, this, test, r),
    {
        let n = match self.mirror_name_of(this) {
            Some(n) => n,
            None => return NativeResult::Fault(ExecError::NotObject),
        };
        let holds = match test {
            ClassTest::Array => n.as_str().unicode_len() > 0 && n.as_str().get_char(0) == '[',
            ClassTest::Primitive => is_primitive_class_name(&n),
            ClassTest::Interface => match find_class(&self.classes, &n) {
                Some(c) => {
                    proof {
                        lemma_class_index_bounds(self.classes@, n@, 0);
                    }
                    self.classes[c].file.access_flags.flags & 0x0200 != 0
                },
                None => false,
            },
        };
        NativeResult::Returned(Some(RuntimeValue::from_int(if holds { 1 } else { 0 })))
    }

    /// `Class.initClassName`: the interned string of the receiver's class name.
    pub fn init_class_name(&mut self, this: RuntimeValue) -> (r: NativeResult)
        requires
            old(self).wf(),
        ensures
            final(self).wf(),
            init_class_name_post(*old(self), *final(self), this, r),
    {
        let n = match self.mirror_name_of(this) {
            Some(n) => n,
            None => return NativeResult::Fault(ExecError::NotObject),
        };
        let s = self.strings.intern(&mut self.heap, n);
        NativeResult::Returned(Some(RuntimeValue::Object(Some(s))))
    }

    /// `String.intern` on a string constant: the interned object of its text. A string
    /// that is not a constant goes to the host.
    pub fn string_intern(&mut self, this: RuntimeValue) -> (r: NativeResult)
        requires
            old(self).wf(),
        ensures
            final(self).wf(),
            string_intern_post(*old(self), *final(self), this, r),
    {
        let t = match self.text_of(this) {
            Some(t) => t,
            None => return NativeResult::Host,
        };
        let s = self.strings.intern(&mut self.heap, t);
        NativeResult::Returned(Some(RuntimeValue::Object(Some(s))))
    }

    /// `System.setIn0`, `setOut0` and `setErr0`: sets the static field `field` of
    /// `java/lang/System`; a fault when the class or field is missing.
    pub fn set_stream(&mut self, field: &str, value: RuntimeValue) -> (r: NativeResult)
        requires
            old(self).wf(),
        ensures
            final(self).wf(),
            set_stream_post(*old(self), *final(self), field@, value, r),
    {
        let class = String::from_str("java/lang/System");
        let field = String::from_str(field);
        if self.set_static(&class, &field, value) {
            NativeResult::Returned(None)
        } else {
            NativeResult::Fault(ExecError::NoSuchField)
        }
    }

    /// `Signal.findSignal0`: the number of the signal the string constant names
    /// (`signal_number`). A string that is not a constant goes to the host.
    pub fn find_signal(&self, name: RuntimeValue) -> (r: NativeResult)
        ensures
            find_signal_post(*self, *self, name, r),
    {
        match self.text_of(name) {
            Some(t) => NativeResult::Returned(Some(RuntimeValue::from_int(signal_code(&t)))),
            None => NativeResult::Host,
        }
    }

    /// `Reflection.getCallerClass`: the class object of the first invocation, from the
    /// bottom of the call stack, whose class is not that of invocation `current`'s class;
    /// `null` when there is none.
    pub fn caller_class(&mut self, current: usize) -> (r: NativeResult)
        requires
            old(self).wf(),
            current < old(self).classes@.len(),
        ensures
            final(self).wf(),
            caller_class_post(*old(self), *final(self), current, r),
    {
        let ghost names = frame_class_names(*self);
        let current_name = self.classes[current].name.clone();
        let mut i: usize = 0;
        while i < self.frames.len()
            invariant
                self.wf(),
                names == frame_class_names(*self),
                *self == *old(self),
                current_name@ == self.classes@[current as int].name@,
                current < self.classes@.len(),
                i <= self.frames@.len(),
                first_other_frame(names, current_name@, 0) == first_other_frame(names, current_name@, i as int),
            decreases self.frames@.len() - i,
        {
            let c = self.frames[i].class;
            assert(names[i as int] == self.classes@[c as int].name@);
            if self.classes[c].name != current_name {
                let n = self.classes[c].name.clone();
                let m = self.mirror_of(n);
                return NativeResult::Returned(Some(RuntimeValue::Object(Some(m))));
            }
            i = i + 1;
        }
        NativeResult::Returned(Some(RuntimeValue::Object(None)))
    }
}


impl Vm {
    /// `SystemProps$Raw.vmProperties`: a new array of strings holding the keys and values
    /// of `vm_property_texts`, each interned, and a `null` after them.
    pub fn vm_properties(&mut self) -> (r: NativeResult)
        requires
            old(self).wf(),
        ensures
            final(self).wf(),
            vm_properties_post(*old(self), *final(self), r),
    {
        let texts: Vec<&'static str> = vec![
            "java.home", "nil", "native.encoding", "UTF-8", "user.home", "nil", "user.dir", "nil", "user.name",
            "amy b)", "java.io.tmpdir", "nil", "sun.stdout.encoding", "UTF-8", "sun.stderr.encoding", "UTF-8",
        ];
        assert(texts@.map_values(|t: &'static str| t@) =~= vm_property_texts());
        let mut values: Vec<RuntimeValue> = Vec::new();
        let mut k: usize = 0;
        while k < 16
            invariant
                texts@.len() == 16,
                texts@.map_values(|t: &'static str| t@) == vm_property_texts(),
                k <= 16,
                values@.len() == k,
                self.wf(),
                self.classes@ == old(self).classes@,
                self.frames@ == old(self).frames@,
                forall|j: int| 0 <= j < k ==> (#[trigger] values@[j] matches RuntimeValue::Object(Some(x)) && x
                    < self.heap@.len() && self.heap@[x as int] == ObjectValue::Str(vm_property_texts()[j])),
            decreases 16 - k,
        {
            let ghost before = self.heap@;
            assert(vm_property_texts()[k as int] == texts@[k as int]@);
            let s = self.strings.intern(&mut self.heap, String::from_str(texts[k]));
            assert forall|j: int| 0 <= j < k implies (#[trigger] values@[j] matches RuntimeValue::Object(Some(x)) && x
                < self.heap@.len() && self.heap@[x as int] == ObjectValue::Str(vm_property_texts()[j])) by {
                match values@[j] {
                    RuntimeValue::Object(Some(x)) => {
                        assert(before[x as int] == self.heap@[x as int]);
                    },
                    _ => {},
                }
            }
            values.push(RuntimeValue::Object(Some(s)));
            k = k + 1;
        }
        values.push(RuntimeValue::Object(None));
        let ghost before = self.heap@;
        let a = self.heap.allocate(
            HeapObject::Array(Array { ty: ArrayType::Object(String::from_str("java/lang/String")), values }),
        );
        assert forall|j: int| 0 <= j < 16 implies (#[trigger] values@[j] matches RuntimeValue::Object(Some(x)) && x
            < self.heap@.len() && self.heap@[x as int] == ObjectValue::Str(vm_property_texts()[j])) by {
            match values@[j] {
                RuntimeValue::Object(Some(x)) => {
                    assert(before[x as int] == self.heap@[x as int]);
                },
                _ => {},
            }
        }
        NativeResult::Returned(Some(RuntimeValue::Object(Some(a))))
    }

    /// `SystemProps$Raw.platformProperties`: a new array of 100 `null` strings.
    pub fn platform_properties(&mut self) -> (r: NativeResult)
        requires
            old(self).wf(),
        ensures
            final(self).wf(),
            platform_properties_post(*old(self), *final(self), r),
    {
        let mut values: Vec<RuntimeValue> = Vec::new();
        let mut k: usize = 0;
        while k < 100
            invariant
                k <= 100,
                values@ == Seq::new(k as nat, |i: int| RuntimeValue::Object(None)),
            decreases 100 - k,
        {
            values.push(RuntimeValue::Object(None));
            k = k + 1;
            assert(values@ =~= Seq::new(k as nat, |i: int| RuntimeValue::Object(None)));
        }
        let a = self.heap.allocate(
            HeapObject::Array(Array { ty: ArrayType::Object(String::from_str("java/lang/String")), values }),
        );
        NativeResult::Returned(Some(RuntimeValue::Object(Some(a))))
    }

    /// `Unsafe.objectFieldOffset1`: the offset of the instance field named by the string
    /// constant in instances of the receiver's class: the number of the first field slot
    /// of that name among the instance's slots (`instance_fields_of`). A class that is
    /// not loaded, or a field it does not have, is a fault.
    pub fn object_field_offset(&self, class: RuntimeValue, field: RuntimeValue) -> (r: NativeResult)
        requires
            self.wf(),
        ensures
            object_field_offset_post(*self, *self, class, field, r),
    {
        let n = match self.mirror_name_of(class) {
            Some(n) => n,
            None => return NativeResult::Fault(ExecError::NotObject),
        };
        let f = match self.text_of(field) {
            Some(f) => f,
            None => return NativeResult::Host,
        };
        let c = match find_class(&self.classes, &n) {
            Some(c) => c,
            None => return NativeResult::Fault(ExecError::BadClass),
        };
        proof {
            lemma_class_index_bounds(self.classes@, n@, 0);
        }
        let slots = match self.instance_slots(c) {
            Some(s) => s,
            None => return NativeResult::Fault(ExecError::NoSuchField),
        };
        let ghost sv = slots@.map_values(|x: FieldSlot| x@);
        let mut k: usize = 0;
        while k < slots.len()
            invariant
                k <= slots@.len(),
                sv == slots@.map_values(|x: FieldSlot| x@),
                mirror_name(self.heap@, class) == Some(n@),
                string_text(self.heap@, field) == Some(f@),
                class_index(self.classes@, n@) == Some(c as int),
                instance_fields_of(self.classes@, c as int) == Some(sv),
                slot_named_from(sv, f@, 0) == slot_named_from(sv, f@, k as int),
            decreases slots@.len() - k,
        {
            if slots[k].name == f {
                if (k as u64) <= 0x7fff_ffff_ffff_ffffu64 {
                    return NativeResult::Returned(Some(RuntimeValue::from_long(k as i64)));
                }
                return NativeResult::Fault(ExecError::BadOffset);
            }
            k = k + 1;
        }
        NativeResult::Fault(ExecError::NoSuchField)
    }
}


/// What `Vm::get_class` does, from `before` to `after` with the result `r`.
pub open spec fn get_class_post(before: Vm, after: Vm, object: RuntimeValue, r: NativeResult) -> bool {
    &&& after.classes@ == before.classes@
    &&& after.frames@ == before.frames@
    &&& match object {
            RuntimeValue::Object(Some(o)) => match class_name_of(before.heap@, o) {
                Some(n) => r matches NativeResult::Returned(Some(RuntimeValue::Object(Some(m)))) && m
                    < after.heap@.len() && after.heap@[m as int] == ObjectValue::Mirror(n),
                None => r == NativeResult::Fault(ExecError::NotObject),
            },
            RuntimeValue::Object(None) => r matches NativeResult::Thrown(VMError::NullPointerException { .. }),
            _ => r == NativeResult::Fault(ExecError::NotObject)
    }
}

/// What `Vm::get_primitive_class` does, from `before` to `after` with the result `r`.
pub open spec fn get_primitive_class_post(before: Vm, after: Vm, name: RuntimeValue, r: NativeResult) -> bool {
    &&& after.classes@ == before.classes@
    &&& after.frames@ == before.frames@
    &&& match string_text(before.heap@, name) {
            Some(t) => match primitive_class(t) {
                Some(c) => r matches NativeResult::Returned(Some(RuntimeValue::Object(Some(m)))) && m
                    < after.heap@.len() && after.heap@[m as int] == ObjectValue::Mirror(c),
                None => r == NativeResult::Fault(ExecError::BadClass) && after.heap@ == before.heap@,
            },
            None => r is Host && after.heap@ == before.heap@
    }
}

/// What `Vm::class_is` does, from `before` to `after` with the result `r`.
pub open spec fn class_is_post(before: Vm, after: Vm, this: RuntimeValue, test: ClassTest, r: NativeResult) -> bool {
    &&& match mirror_name(before.heap@, this) {
            Some(n) => r == NativeResult::Returned(
                Some(crate::arith::int_value(if class_test_holds(before.classes@, test, n) { 1i32 } else { 0i32 })),
            ),
            None => r == NativeResult::Fault(ExecError::NotObject)
    }
    &&& after == before
}

/// What `Vm::init_class_name` does, from `before` to `after` with the result `r`.
pub open spec fn init_class_name_post(before: Vm, after: Vm, this: RuntimeValue, r: NativeResult) -> bool {
    &&& after.classes@ == before.classes@
    &&& after.frames@ == before.frames@
    &&& match mirror_name(before.heap@, this) {
            Some(n) => r matches NativeResult::Returned(Some(RuntimeValue::Object(Some(s)))) && intern_post(
                interned(before.strings.entries@),
                before.heap@,
                n,
                s,
                interned(after.strings.entries@),
                after.heap@,
            ),
            None => r == NativeResult::Fault(ExecError::NotObject) && after.heap@ == before.heap@
    }
}

/// What `Vm::string_intern` does, from `before` to `after` with the result `r`.
pub open spec fn string_intern_post(before: Vm, after: Vm, this: RuntimeValue, r: NativeResult) -> bool {
    &&& after.classes@ == before.classes@
    &&& after.frames@ == before.frames@
    &&& match string_text(before.heap@, this) {
            Some(t) => r matches NativeResult::Returned(Some(RuntimeValue::Object(Some(s)))) && intern_post(
                interned(before.strings.entries@),
                before.heap@,
                t,
                s,
                interned(after.strings.entries@),
                after.heap@,
            ),
            None => r is Host && after.heap@ == before.heap@
    }
}

/// What `Vm::set_stream` does, from `before` to `after` with the result `r`.
pub open spec fn set_stream_post(before: Vm, after: Vm, field: Seq<char>, value: RuntimeValue, r: NativeResult) -> bool {
    &&& after.classes@.len() == before.classes@.len()
    &&& after.frames@ == before.frames@
    &&& after.heap@ == before.heap@
    &&& match static_named(before.classes@, "java/lang/System"@, field) {
            Some((c, i)) => r == NativeResult::Returned(None) && static_written(
                before.classes@,
                after.classes@,
                c,
                i,
                value,
            ),
            None => r == NativeResult::Fault(ExecError::NoSuchField) && after.classes@ == before.classes@
    }
}

/// What `Vm::find_signal` does, from `before` to `after` with the result `r`.
pub open spec fn find_signal_post(before: Vm, after: Vm, name: RuntimeValue, r: NativeResult) -> bool {
    &&& match string_text(before.heap@, name) {
            Some(t) => r == NativeResult::Returned(Some(crate::arith::int_value(signal_number(t)))),
            None => r is Host
    }
    &&& after == before
}

/// What `Vm::caller_class` does, from `before` to `after` with the result `r`.
pub open spec fn caller_class_post(before: Vm, after: Vm, current: usize, r: NativeResult) -> bool {
    &&& after.classes@ == before.classes@
    &&& after.frames@ == before.frames@
    &&& match first_other_frame(frame_class_names(before), before.classes@[current as int].name@, 0) {
            Some(k) => r matches NativeResult::Returned(Some(RuntimeValue::Object(Some(m)))) && m
                < after.heap@.len() && after.heap@[m as int] == ObjectValue::Mirror(
                frame_class_names(before)[k],
            ),
            None => r == NativeResult::Returned(Some(RuntimeValue::Object(None))) && after.heap@ == before.heap@
    }
}

/// What `Vm::vm_properties` does, from `before` to `after` with the result `r`.
pub open spec fn vm_properties_post(before: Vm, after: Vm, r: NativeResult) -> bool {
    &&& after.classes@ == before.classes@
    &&& after.frames@ == before.frames@
    &&& r matches NativeResult::Returned(Some(RuntimeValue::Object(Some(a)))) && a < after.heap@.len() && (
    after.heap@[a as int] matches ObjectValue::Array { ty, values } && ty == ArrayTypeValue::Object("java/lang/String"@)
        && values.len() == 17 && values[16] == RuntimeValue::Object(None) && forall|k: int|
        0 <= k < 16 ==> (#[trigger] values[k] matches RuntimeValue::Object(Some(x)) && x < after.heap@.len()
            && after.heap@[x as int] == ObjectValue::Str(vm_property_texts()[k])))
}

/// What `Vm::platform_properties` does, from `before` to `after` with the result `r`.
pub open spec fn platform_properties_post(before: Vm, after: Vm, r: NativeResult) -> bool {
    &&& after.classes@ == before.classes@
    &&& after.frames@ == before.frames@
    &&& r == NativeResult::Returned(Some(RuntimeValue::Object(Some(before.heap@.len() as usize))))
    &&& after.heap@ == before.heap@.push(
        ObjectValue::Array {
            ty: ArrayTypeValue::Object("java/lang/String"@),
            values: Seq::new(100, |i: int| RuntimeValue::Object(None)),
        },
    )
}

/// What `Vm::object_field_offset` does, from `before` to `after` with the result `r`.
pub open spec fn object_field_offset_post(before: Vm, after: Vm, class: RuntimeValue, field: RuntimeValue, r: NativeResult) -> bool {
    &&& after == before
    &&& match mirror_name(before.heap@, class) {
        None => r == NativeResult::Fault(ExecError::NotObject),
        Some(n) => match string_text(before.heap@, field) {
            None => r is Host,
            Some(f) => match class_index(before.classes@, n) {
                None => r == NativeResult::Fault(ExecError::BadClass),
                Some(c) => match instance_fields_of(before.classes@, c) {
                    None => r == NativeResult::Fault(ExecError::NoSuchField),
                    Some(slots) => match slot_named_from(slots, f, 0) {
                        None => r == NativeResult::Fault(ExecError::NoSuchField),
                        Some(k) => if k <= i64::MAX {
                            r == NativeResult::Returned(
                                Some(RuntimeValue::Integral(crate::numeric::Integral { value: k as i64, ty: crate::numeric::IntegralType::Long })),
                            )
                        } else {
                            r == NativeResult::Fault(ExecError::BadOffset)
                        },
                    },
                },
            },
        },
    }
}

/// The natives that work on the machine's state.
pub enum MachineNative {
    GetClass,
    GetPrimitiveClass,
    IsArray,
    IsPrimitive,
    IsInterface,
    InitClassName,
    SetIn,
    SetOut,
    SetErr,
    Intern,
    FieldOffset,
    CallerClass,
    VmProperties,
    PlatformProperties,
    FindSignal,
}

/// Which native of the machine a method is, by its class, name and descriptor and the
/// number of its arguments (`None` for one that goes to the host).
pub open spec fn machine_native_of(class: Seq<char>, name: Seq<char>, descriptor: Seq<char>, n: nat) -> Option<MachineNative> {
    if class == "java/lang/Object"@ && name == "getClass"@ && descriptor == "()Ljava/lang/Class;"@ && n >= 1 {
        Some(MachineNative::GetClass)
    } else if class == "java/lang/Class"@ && name == "getPrimitiveClass"@ && descriptor == "(Ljava/lang/String;)Ljava/lang/Class;"@ && n >= 1 {
        Some(MachineNative::GetPrimitiveClass)
    } else if class == "java/lang/Class"@ && name == "isArray"@ && descriptor == "()Z"@ && n >= 1 {
        Some(MachineNative::IsArray)
    } else if class == "java/lang/Class"@ && name == "isPrimitive"@ && descriptor == "()Z"@ && n >= 1 {
        Some(MachineNative::IsPrimitive)
    } else if class == "java/lang/Class"@ && name == "isInterface"@ && descriptor == "()Z"@ && n >= 1 {
        Some(MachineNative::IsInterface)
    } else if class == "java/lang/Class"@ && name == "initClassName"@ && descriptor == "()Ljava/lang/String;"@ && n >= 1 {
        Some(MachineNative::InitClassName)
    } else if class == "java/lang/System"@ && name == "setIn0"@ && descriptor == "(Ljava/io/InputStream;)V"@ && n >= 1 {
        Some(MachineNative::SetIn)
    } else if class == "java/lang/System"@ && name == "setOut0"@ && descriptor == "(Ljava/io/PrintStream;)V"@ && n >= 1 {
        Some(MachineNative::SetOut)
    } else if class == "java/lang/System"@ && name == "setErr0"@ && descriptor == "(Ljava/io/PrintStream;)V"@ && n >= 1 {
        Some(MachineNative::SetErr)
    } else if class == "java/lang/String"@ && name == "intern"@ && descriptor == "()Ljava/lang/String;"@ && n >= 1 {
        Some(MachineNative::Intern)
    } else if class == "jdk/internal/misc/Unsafe"@ && name == "objectFieldOffset1"@ && descriptor == "(Ljava/lang/Class;Ljava/lang/String;)J"@ && n >= 3 {
        Some(MachineNative::FieldOffset)
    } else if class == "jdk/internal/reflect/Reflection"@ && name == "getCallerClass"@ && descriptor == "()Ljava/lang/Class;"@ {
        Some(MachineNative::CallerClass)
    } else if class == "jdk/internal/util/SystemProps$Raw"@ && name == "vmProperties"@ && descriptor == "()[Ljava/lang/String;"@ {
        Some(MachineNative::VmProperties)
    } else if class == "jdk/internal/util/SystemProps$Raw"@ && name == "platformProperties"@ && descriptor == "()[Ljava/lang/String;"@ {
        Some(MachineNative::PlatformProperties)
    } else if class == "jdk/internal/misc/Signal"@ && name == "findSignal0"@ && descriptor == "(Ljava/lang/String;)I"@ && n >= 1 {
        Some(MachineNative::FindSignal)
    } else {
        None
    }
}

impl Vm {
    /// Runs a native that works on the machine's state: `Object.getClass`, the
    /// `java/lang/Class` natives, `System.setIn0`/`setOut0`/`setErr0`, `String.intern`,
    /// `Unsafe.objectFieldOffset1`, `Reflection.getCallerClass`, the `SystemProps$Raw`
    /// properties and `Signal.findSignal0`. `current` is the class of the invocation that
    /// calls it. Any other native goes to the host, with nothing changed.
    pub fn machine_native(
        &mut self,
        current: usize,
        class: &String,
        name: &String,
        descriptor: &String,
        args: &Vec<RuntimeValue>,
    ) -> (r: NativeResult)
        requires
            old(self).wf(),
            current < old(self).classes@.len(),
        ensures
            final(self).wf(),
            final(self).classes@.len() == old(self).classes@.len(),
            final(self).frames@ == old(self).frames@,
            r is Host ==> final(self).heap@ == old(self).heap@,
            match machine_native_of(class@, name@, descriptor@, args@.len()) {
                Some(MachineNative::GetClass) => get_class_post(*old(self), *final(self), args@[0], r),
                Some(MachineNative::GetPrimitiveClass) => get_primitive_class_post(*old(self), *final(self), args@[0], r),
                Some(MachineNative::IsArray) => class_is_post(*old(self), *final(self), args@[0], ClassTest::Array, r),
                Some(MachineNative::IsPrimitive) => class_is_post(*old(self), *final(self), args@[0], ClassTest::Primitive, r),
                Some(MachineNative::IsInterface) => class_is_post(*old(self), *final(self), args@[0], ClassTest::Interface, r),
                Some(MachineNative::InitClassName) => init_class_name_post(*old(self), *final(self), args@[0], r),
                Some(MachineNative::SetIn) => set_stream_post(*old(self), *final(self), "in"@, args@[0], r),
                Some(MachineNative::SetOut) => set_stream_post(*old(self), *final(self), "out"@, args@[0], r),
                Some(MachineNative::SetErr) => set_stream_post(*old(self), *final(self), "err"@, args@[0], r),
                Some(MachineNative::Intern) => string_intern_post(*old(self), *final(self), args@[0], r),
                Some(MachineNative::FieldOffset) => object_field_offset_post(*old(self), *final(self), args@[1], args@[2], r),
                Some(MachineNative::CallerClass) => caller_class_post(*old(self), *final(self), current, r),
                Some(MachineNative::VmProperties) => vm_properties_post(*old(self), *final(self), r),
                Some(MachineNative::PlatformProperties) => platform_properties_post(*old(self), *final(self), r),
                Some(MachineNative::FindSignal) => find_signal_post(*old(self), *final(self), args@[0], r),
                None => r is Host && *final(self) == *old(self),
            },
    {
        let n = args.len();
        if is(class, "java/lang/Object") && is(name, "getClass") && is(descriptor, "()Ljava/lang/Class;") && n >= 1 {
            self.get_class(args[0])
        } else if is(class, "java/lang/Class") && is(name, "getPrimitiveClass") && is(
            descriptor,
            "(Ljava/lang/String;)Ljava/lang/Class;",
        ) && n >= 1 {
            self.get_primitive_class(args[0])
        } else if is(class, "java/lang/Class") && is(name, "isArray") && is(descriptor, "()Z") && n >= 1 {
            self.class_is(args[0], ClassTest::Array)
        } else if is(class, "java/lang/Class") && is(name, "isPrimitive") && is(descriptor, "()Z") && n >= 1 {
            self.class_is(args[0], ClassTest::Primitive)
        } else if is(class, "java/lang/Class") && is(name, "isInterface") && is(descriptor, "()Z") && n >= 1 {
            self.class_is(args[0], ClassTest::Interface)
        } else if is(class, "java/lang/Class") && is(name, "initClassName") && is(descriptor, "()Ljava/lang/String;") && n >= 1 {
            self.init_class_name(args[0])
        } else if is(class, "java/lang/System") && is(name, "setIn0") && is(descriptor, "(Ljava/io/InputStream;)V") && n >= 1 {
            self.set_stream("in", args[0])
        } else if is(class, "java/lang/System") && is(name, "setOut0") && is(descriptor, "(Ljava/io/PrintStream;)V") && n >= 1 {
            self.set_stream("out", args[0])
        } else if is(class, "java/lang/System") && is(name, "setErr0") && is(descriptor, "(Ljava/io/PrintStream;)V") && n >= 1 {
            self.set_stream("err", args[0])
        } else if is(class, "java/lang/String") && is(name, "intern") && is(descriptor, "()Ljava/lang/String;") && n >= 1 {
            self.string_intern(args[0])
        } else if is(class, "jdk/internal/misc/Unsafe") && is(name, "objectFieldOffset1") && is(
            descriptor,
            "(Ljava/lang/Class;Ljava/lang/String;)J",
        ) && n >= 3 {
            self.object_field_offset(args[1], args[2])
        } else if is(class, "jdk/internal/reflect/Reflection") && is(name, "getCallerClass") && is(
            descriptor,
            "()Ljava/lang/Class;",
        ) {
            self.caller_class(current)
        } else if is(class, "jdk/internal/util/SystemProps$Raw") && is(name, "vmProperties") && is(
            descriptor,
            "()[Ljava/lang/String;",
        ) {
            self.vm_properties()
        } else if is(class, "jdk/internal/util/SystemProps$Raw") && is(name, "platformProperties") && is(
            descriptor,
            "()[Ljava/lang/String;",
        ) {
            self.platform_properties()
        } else if is(class, "jdk/internal/misc/Signal") && is(name, "findSignal0") && is(descriptor, "(Ljava/lang/String;)I")
            && n >= 1 {
            self.find_signal(args[0])
        } else {
            NativeResult::Host
        }
    }
}

} // verus!
