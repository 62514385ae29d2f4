//! Booting the machine: the classes every program needs, their static settings and the
//! main thread, in a fixed order. The host performs the actions that need class files
//! or running code and asks for the next action.
use crate::arith::int_value;
use crate::classes::{class_index, find_class, lemma_class_index_bounds};
use crate::heap::FieldSlot;
use crate::machine::{lemma_slot_named_found, slot_named_from, static_named, static_written, uninitialised_top, Vm};
use crate::heap::ObjectValue;
use crate::value::RuntimeValue;
use crate::vmnatives::{has_mirror, lemma_mirror_kept, mirrors_kept};
use vstd::prelude::*;
use vstd::string::*;

verus! {

/// What the host does next while the machine boots.
#[derive(Debug)]
pub enum BootAction {
    /// Initialise the class of this name (`Vm::initialise`), loading classes and running
    /// initialisers as it asks, then ask again.
    Initialise(String),
    /// Load the class of this name, then ask again.
    Load(String),
    /// The machine is booted.
    Done,
    /// The machine cannot be booted: this is what is missing.
    Failed(String),
}

/// The value of the first static field named `field` of the class named `class`.
pub open spec fn static_value(classes: Seq<crate::classes::LoadedClass>, class: Seq<char>, field: Seq<char>) -> Option<RuntimeValue> {
    match static_named(classes, class, field) {
        Some((c, i)) => Some(classes[c].statics@[i].value),
        None => None,
    }
}

/// The class named `name` is loaded and needs no initialisation.
pub open spec fn class_ready(vm: Vm, name: Seq<char>) -> bool {
    class_index(vm.classes@, name) matches Some(c) && uninitialised_top(vm.classes@, c) is None
}

/// The machine is booted: `java/lang/String` and `java/lang/Thread` are ready,
/// `java/lang/ThreadGroup` is loaded, `String.COMPACT_STRINGS` holds 0,
/// `System.allowSecurityManager` holds 1, and the main thread exists.
pub open spec fn booted(vm: Vm) -> bool {
    &&& class_ready(vm, "java/lang/String"@)
    &&& class_ready(vm, "java/lang/Thread"@)
    &&& class_index(vm.classes@, "java/lang/ThreadGroup"@) is Some
    &&& static_value(vm.classes@, "java/lang/String"@, "COMPACT_STRINGS"@) == Some(int_value(0))
    &&& static_value(vm.classes@, "java/lang/System"@, "allowSecurityManager"@) == Some(int_value(1))
    &&& vm.main_thread is Some
}

/// The classes the class loader starts from: `java/lang/Class`, `java/lang/Object` and
/// `java/lang/String` by their indices, and the class object of `byte[]`.
#[derive(Debug)]
pub struct BootstrappedClasses {
    pub java_lang_class: usize,
    pub java_lang_object: usize,
    pub java_lang_string: usize,
    pub byte_array_ty: usize,
}

/// What making the class loader's first classes answers.
#[derive(Debug)]
pub enum LoaderStep {
    /// The classes are made.
    Ready(BootstrappedClasses),
    /// The host must load the class of this name first.
    Load(String),
}

/// The descriptor letters of the primitive types, in the order the class loader makes
/// their classes.
pub open spec fn primitive_letters() -> Seq<char> {
    seq!['B', 'Z', 'S', 'C', 'I', 'J', 'F', 'D']
}

/// The class objects of every primitive type and of the array of it exist.
pub open spec fn has_primitive_classes(vm: Vm) -> bool {
    forall|i: int|
        0 <= i < 8 ==> has_mirror(vm, seq![#[trigger] primitive_letters()[i]]) && has_mirror(
            vm,
            seq!['[', primitive_letters()[i]],
        )
}

impl Vm {
    /// The value of the first static field named `field` of the class named `class`.
    pub fn static_value_of(&self, class: &String, field: &String) -> (r: Option<RuntimeValue>)
        ensures
            r == static_value(self.classes@, class@, field@),
    {
        let c = match find_class(&self.classes, class) {
            Some(c) => c,
            None => return None,
        };
        proof {
            lemma_class_index_bounds(self.classes@, class@, 0);
        }
        let mut i: usize = 0;
        while i < self.classes[c].statics.len()
            invariant
                c < self.classes@.len(),
                class_index(self.classes@, class@) == Some(c as int),
                i <= self.classes@[c as int].statics@.len(),
                slot_named_from(self.classes@[c as int].statics@.map_values(|f: FieldSlot| f@), field@, 0) == slot_named_from(
                    self.classes@[c as int].statics@.map_values(|f: FieldSlot| f@),
                    field@,
                    i as int,
                ),
            decreases self.classes@[c as int].statics@.len() - i,
        {
            if self.classes[c].statics[i].name == *field {
                return Some(self.classes[c].statics[i].value);
            }
            i = i + 1;
        }
        None
    }

    /// Whether the class named `name` is loaded and needs no initialisation.
    pub fn is_class_ready(&self, name: &String) -> (r: bool)
        ensures
            r == class_ready(*self, name@),
    {
        match find_class(&self.classes, name) {
            Some(c) => {
                proof {
                    lemma_class_index_bounds(self.classes@, name@, 0);
                }
                self.classes[c].initialised
            },
            None => false,
        }
    }

    /// The next step of booting, after the host has performed `done` actions: initialise
    /// `java/lang/String`, load `java/lang/System`, then (with the machine itself
    /// setting `String.COMPACT_STRINGS` to 0 and `System.allowSecurityManager` to 1)
    /// initialise `java/lang/Thread`, load `java/lang/ThreadGroup` and ask for
    /// `java/lang/Thread` once more (the second request finds it initialised); after that
    /// the machine makes the main thread, if there is none, and the boot is done when the
    /// machine is booted (`booted`).
    pub fn boot_step(&mut self, done: usize) -> (r: BootAction)
        requires
            old(self).wf(),
        ensures
            final(self).wf(),
            final(self).frames@ == old(self).frames@,
            done == 0 ==> (r matches BootAction::Initialise(n) && n@ == "java/lang/String"@) && *final(self) == *old(self),
            done == 1 ==> (r matches BootAction::Load(n) && n@ == "java/lang/System"@) && *final(self) == *old(self),
            done == 2 ==> match (
                static_named(old(self).classes@, "java/lang/String"@, "COMPACT_STRINGS"@),
                static_named(old(self).classes@, "java/lang/System"@, "allowSecurityManager"@),
            ) {
                (Some(_), Some(_)) => (r matches BootAction::Initialise(n) && n@ == "java/lang/Thread"@) && static_value(
                    final(self).classes@,
                    "java/lang/String"@,
                    "COMPACT_STRINGS"@,
                ) == Some(int_value(0)) && static_value(final(self).classes@, "java/lang/System"@, "allowSecurityManager"@)
                    == Some(int_value(1)),
                _ => r is Failed,
            },
            done == 3 ==> (r matches BootAction::Load(n) && n@ == "java/lang/ThreadGroup"@) && *final(self) == *old(self),
            done == 4 ==> (r matches BootAction::Initialise(n) && n@ == "java/lang/Thread"@) && *final(self) == *old(self),
            done >= 5 ==> (r is Done <==> booted(*final(self))) && (r is Done || r is Failed),
            done >= 5 && old(self).main_thread is Some ==> *final(self) == *old(self),
    {
        if done == 0 {
            return BootAction::Initialise(String::from_str("java/lang/String"));
        }
        if done == 1 {
            return BootAction::Load(String::from_str("java/lang/System"));
        }
        let string = String::from_str("java/lang/String");
        let system = String::from_str("java/lang/System");
        let compact = String::from_str("COMPACT_STRINGS");
        let security = String::from_str("allowSecurityManager");
        if done == 2 {
            let ghost before = self.classes@;
            if !self.set_static(&string, &compact, RuntimeValue::from_int(0)) {
                return BootAction::Failed(String::from_str("java/lang/String.COMPACT_STRINGS"));
            }
            let ghost middle = self.classes@;
            let ghost (c, i) = static_named(before, string@, compact@)->0;
            proof {
                lemma_same_statics_named(before, middle, c, i, int_value(0), system@, security@);
                lemma_same_statics_named(before, middle, c, i, int_value(0), string@, compact@);
            }
            if !self.set_static(&system, &security, RuntimeValue::from_int(1)) {
                return BootAction::Failed(String::from_str("java/lang/System.allowSecurityManager"));
            }
            proof {
                let (d, j) = static_named(middle, system@, security@)->0;
                lemma_same_statics_named(middle, self.classes@, d, j, int_value(1), string@, compact@);
                reveal_strlit("COMPACT_STRINGS");
                reveal_strlit("allowSecurityManager");
                assert(compact@.len() == 15 && security@.len() == 20);
                lemma_slot_named_found(middle[c].statics@.map_values(|f: FieldSlot| f@), compact@, 0);
                lemma_slot_named_found(middle[d].statics@.map_values(|f: FieldSlot| f@), security@, 0);
                lemma_same_statics_named(middle, self.classes@, d, j, int_value(1), system@, security@);
                lemma_class_index_bounds(middle, string@, 0);
                assert(static_named(middle, string@, compact@) == Some((c, i)));
                assert(static_named(self.classes@, string@, compact@) == Some((c, i)));
                assert(static_named(self.classes@, system@, security@) == Some((d, j)));
                assert(c != d || i != j);
                assert(middle[c].statics@[i].value == int_value(0));
                assert(self.classes@[c].statics@[i] == middle[c].statics@[i]);
                assert(self.classes@[d].statics@[j].value == int_value(1));
            }
            return BootAction::Initialise(String::from_str("java/lang/Thread"));
        }
        if done == 3 {
            return BootAction::Load(String::from_str("java/lang/ThreadGroup"));
        }
        if done == 4 {
            return BootAction::Initialise(String::from_str("java/lang/Thread"));
        }
        if self.main_thread.is_none() {
            self.make_main_thread();
        }
        let thread = String::from_str("java/lang/Thread");
        let group = String::from_str("java/lang/ThreadGroup");
        if !self.is_class_ready(&string) || !self.is_class_ready(&thread) || find_class(&self.classes, &group).is_none() {
            return BootAction::Failed(String::from_str("a boot class is not initialised"));
        }
        match self.static_value_of(&string, &compact) {
            Some(v) => if v != RuntimeValue::from_int(0) {
                return BootAction::Failed(String::from_str("java/lang/String.COMPACT_STRINGS"));
            },
            None => return BootAction::Failed(String::from_str("java/lang/String.COMPACT_STRINGS")),
        }
        match self.static_value_of(&system, &security) {
            Some(v) => if v != RuntimeValue::from_int(1) {
                return BootAction::Failed(String::from_str("java/lang/System.allowSecurityManager"));
            },
            None => return BootAction::Failed(String::from_str("java/lang/System.allowSecurityManager")),
        }
        if self.main_thread.is_none() {
            return BootAction::Failed(String::from_str("the main thread"));
        }
        BootAction::Done
    }
}

impl Vm {
    /// The class objects of the primitive type named by `letter` and of the array of
    /// it; the second one's reference.
    fn primitive_pair(&mut self, letter: &str, array: &str) -> (r: usize)
        requires
            old(self).wf(),
        ensures
            final(self).wf(),
            final(self).classes@ == old(self).classes@,
            final(self).frames@ == old(self).frames@,
            mirrors_kept(*old(self), *final(self)),
            has_mirror(*final(self), letter@),
            has_mirror(*final(self), array@),
            r < final(self).heap@.len() && final(self).heap@[r as int] == ObjectValue::Mirror(array@),
    {
        let ghost v0 = *self;
        self.mirror_of(String::from_str(letter));
        let ghost v1 = *self;
        let r = self.mirror_of(String::from_str(array));
        proof {
            lemma_mirror_kept(v1, *self, letter@);
        }
        r
    }

    /// Makes the first classes of the class loader: with `java/lang/Class`,
    /// `java/lang/Object` and `java/lang/String` loaded (else the first of them that is
    /// missing is asked for, and nothing changes), a class object for each primitive type
    /// and for the array of it (`has_primitive_classes`).
    pub fn bootstrap_classes(&mut self) -> (r: LoaderStep)
        requires
            old(self).wf(),
        ensures
            final(self).wf(),
            final(self).classes@ == old(self).classes@,
            final(self).frames@ == old(self).frames@,
            match (
                class_index(old(self).classes@, "java/lang/Class"@),
                class_index(old(self).classes@, "java/lang/Object"@),
                class_index(old(self).classes@, "java/lang/String"@),
            ) {
                (None, _, _) => (r matches LoaderStep::Load(n) && n@ == "java/lang/Class"@) && *final(self) == *old(self),
                (Some(_), None, _) => (r matches LoaderStep::Load(n) && n@ == "java/lang/Object"@) && *final(self) == *old(self),
                (Some(_), Some(_), None) => (r matches LoaderStep::Load(n) && n@ == "java/lang/String"@) && *final(self)
                    == *old(self),
                (Some(c), Some(o), Some(t)) => {
                    &&& r matches LoaderStep::Ready(b) && b.java_lang_class == c && b.java_lang_object == o
                        && b.java_lang_string == t && b.byte_array_ty < final(self).heap@.len()
                        && final(self).heap@[b.byte_array_ty as int] == ObjectValue::Mirror("[B"@)
                    &&& has_primitive_classes(*final(self))
                    &&& mirrors_kept(*old(self), *final(self))
                },
            },
    {
        let class_name = String::from_str("java/lang/Class");
        let object_name = String::from_str("java/lang/Object");
        let string_name = String::from_str("java/lang/String");
        let jlc = match find_class(&self.classes, &class_name) {
            Some(c) => c,
            None => return LoaderStep::Load(class_name),
        };
        let jlo = match find_class(&self.classes, &object_name) {
            Some(c) => c,
            None => return LoaderStep::Load(object_name),
        };
        let jls = match find_class(&self.classes, &string_name) {
            Some(c) => c,
            None => return LoaderStep::Load(string_name),
        };
        let ghost v0 = *self;
        let byte_array = self.primitive_pair("B", "[B");
        let ghost v1 = *self;
        self.primitive_pair("Z", "[Z");
        let ghost v2 = *self;
        self.primitive_pair("S", "[S");
        let ghost v3 = *self;
        self.primitive_pair("C", "[C");
        let ghost v4 = *self;
        self.primitive_pair("I", "[I");
        let ghost v5 = *self;
        self.primitive_pair("J", "[J");
        let ghost v6 = *self;
        self.primitive_pair("F", "[F");
        let ghost v7 = *self;
        self.primitive_pair("D", "[D");
        let ghost v8 = *self;
        proof {
            reveal_strlit("B");
            reveal_strlit("[B");
            reveal_strlit("Z");
            reveal_strlit("[Z");
            reveal_strlit("S");
            reveal_strlit("[S");
            reveal_strlit("C");
            reveal_strlit("[C");
            reveal_strlit("I");
            reveal_strlit("[I");
            reveal_strlit("J");
            reveal_strlit("[J");
            reveal_strlit("F");
            reveal_strlit("[F");
            reveal_strlit("D");
            reveal_strlit("[D");
            let vs = seq![v1, v2, v3, v4, v5, v6, v7, v8];
            let names = seq!["B"@, "Z"@, "S"@, "C"@, "I"@, "J"@, "F"@, "D"@];
            let arrays = seq!["[B"@, "[Z"@, "[S"@, "[C"@, "[I"@, "[J"@, "[F"@, "[D"@];
            assert forall|i: int| 0 <= i < 8 implies has_mirror(v8, names[i]) && has_mirror(v8, arrays[i]) by {
                lemma_kept_chain(vs, i);
                lemma_mirror_kept(vs[i], v8, names[i]);
                lemma_mirror_kept(vs[i], v8, arrays[i]);
            }
            assert forall|i: int| 0 <= i < 8 implies has_mirror(v8, seq![#[trigger] primitive_letters()[i]]) && has_mirror(
                v8,
                seq!['[', primitive_letters()[i]],
            ) by {
                assert(names[i] =~= seq![primitive_letters()[i]]);
                assert(arrays[i] =~= seq!['[', primitive_letters()[i]]);
            }
            lemma_kept_chain(seq![v0, v1, v2, v3, v4, v5, v6, v7, v8], 0);
            assert(v8.heap@[byte_array as int] == v1.heap@[byte_array as int]);
        }
        LoaderStep::Ready(BootstrappedClasses {
            java_lang_class: jlc,
            java_lang_object: jlo,
            java_lang_string: jls,
            byte_array_ty: byte_array,
        })
    }
}

/// Along a chain of machines each of whose tables only grew from the one before, the
/// tables only grew from any machine of the chain to the last.
proof fn lemma_kept_chain(vs: Seq<Vm>, i: int)
    requires
        0 <= i < vs.len(),
        forall|j: int| 0 <= j < vs.len() - 1 ==> mirrors_kept(#[trigger] vs[j], vs[j + 1]),
    ensures
        mirrors_kept(vs[i], vs.last()),
    decreases vs.len() - i,
{
    if i < vs.len() - 1 {
        lemma_kept_chain(vs, i + 1);
        assert(mirrors_kept(vs[i], vs[i + 1]));
    }
}

/// Setting a static field keeps where every static field is found by name.
pub proof fn lemma_same_statics_named(
    before: Seq<crate::classes::LoadedClass>,
    after: Seq<crate::classes::LoadedClass>,
    k: int,
    j: int,
    v: RuntimeValue,
    class: Seq<char>,
    field: Seq<char>,
)
    requires
        static_written(before, after, k, j, v),
    ensures
        static_named(after, class, field) == static_named(before, class, field),
{
    assert(crate::machine::same_classes(before, after));
    crate::machine::lemma_same_classes_index(before, after, class, 0);
    match class_index(before, class) {
        Some(c) => {
            crate::classes::lemma_class_index_bounds(before, class, 0);
            let a = after[c].statics@.map_values(|f: FieldSlot| f@);
            let b = before[c].statics@.map_values(|f: FieldSlot| f@);
            assert forall|y: int| 0 <= y < a.len() implies #[trigger] a[y].name == b[y].name by {
                if c != k || y != j {
                    assert(after[c].statics@[y] == before[c].statics@[y]);
                }
            }
            crate::machine::lemma_slot_named_same_names(a, b, field, 0);
        },
        None => {},
    }
}

} // verus!
