//! Static fields keyed by class, field name and descriptor.
use crate::value::RuntimeValue;
use vstd::prelude::*;
use vstd::string::*;

verus! {

/// A static field: the class that declares it, its name and its descriptor.
#[derive(Debug, Clone)]
pub struct StaticFieldRef {
    pub class: String,
    pub field_name: String,
    pub field_descriptor: String,
}

/// A static field reference as a mathematical value.
pub struct StaticFieldKey {
    pub class: Seq<char>,
    pub field_name: Seq<char>,
    pub field_descriptor: Seq<char>,
}

impl View for StaticFieldRef {
    type V = StaticFieldKey;

    open spec fn view(&self) -> StaticFieldKey {
        StaticFieldKey {
            class: self.class@,
            field_name: self.field_name@,
            field_descriptor: self.field_descriptor@,
        }
    }
}

impl StaticFieldRef {
    /// A reference from string literals.
    pub fn new_str(class: &'static str, field_name: &'static str, field_descriptor: &'static str) -> (r: Self)
        ensures
            r@ == (StaticFieldKey { class: class@, field_name: field_name@, field_descriptor: field_descriptor@ }),
    {
        StaticFieldRef {
            class: String::from_str(class),
            field_descriptor: String::from_str(field_descriptor),
            field_name: String::from_str(field_name),
        }
    }

    /// A reference from owned strings.
    pub fn new(class: String, field_name: String, field_descriptor: String) -> (r: Self)
        ensures
            r@ == (StaticFieldKey { class: class@, field_name: field_name@, field_descriptor: field_descriptor@ }),
    {
        StaticFieldRef { class, field_descriptor, field_name }
    }

    /// Whether two references name the same field.
    pub fn same(&self, other: &StaticFieldRef) -> (r: bool)
        ensures
            r == (self@ == other@),
    {
        self.class == other.class && self.field_name == other.field_name && self.field_descriptor
            == other.field_descriptor
    }
}

/// The values of static fields; each field occurs at most once.
#[derive(Debug, Clone)]
pub struct StaticFields {
    pub fields: Vec<(StaticFieldRef, RuntimeValue)>,
}

/// The keys of the entries.
pub open spec fn keys_of(fields: Seq<(StaticFieldRef, RuntimeValue)>) -> Seq<StaticFieldKey> {
    fields.map_values(|e: (StaticFieldRef, RuntimeValue)| e.0@)
}

impl StaticFields {
    /// The fields as a map from key to value.
    pub open spec fn as_map(&self) -> Map<StaticFieldKey, RuntimeValue> {
        Map::new(
            |k: StaticFieldKey| exists|i: int| 0 <= i < self.fields@.len() && (#[trigger] self.fields@[i]).0@ == k,
            |k: StaticFieldKey| self.fields@[choose|i: int| 0 <= i < self.fields@.len() && (#[trigger] self.fields@[i]).0@ == k].1,
        )
    }

    /// No field occurs twice.
    pub open spec fn wf(&self) -> bool {
        forall|i: int, j: int|
            0 <= i < j < self.fields@.len() ==> (#[trigger] self.fields@[i]).0@ != (#[trigger] self.fields@[j]).0@
    }

    /// No static fields.
    pub fn new() -> (r: Self)
        ensures
            r.wf(),
            r.fields@.len() == 0,
    {
        StaticFields { fields: Vec::new() }
    }

    fn find(&self, field: &StaticFieldRef) -> (r: Option<usize>)
        ensures
            r matches Some(i) ==> i < self.fields@.len() && self.fields@[i as int].0@ == field@,
            r is None ==> forall|i: int| 0 <= i < self.fields@.len() ==> (#[trigger] self.fields@[i]).0@ != field@,
    {
        let mut i: usize = 0;
        while i < self.fields.len()
            invariant
                i <= self.fields@.len(),
                forall|j: int| 0 <= j < i ==> (#[trigger] self.fields@[j]).0@ != field@,
            decreases self.fields@.len() - i,
        {
            if self.fields[i].0.same(field) {
                return Some(i);
            }
            i = i + 1;
        }
        None
    }

    /// The value of a field, if it was set.
    pub fn get_field(&self, field: StaticFieldRef) -> (r: Option<RuntimeValue>)
        requires
            self.wf(),
        ensures
            r is Some <==> self.as_map().dom().contains(field@),
            r matches Some(v) ==> self.as_map()[field@] == v,
    {
        match self.find(&field) {
            Some(i) => {
                proof {
                    let k = choose|j: int| 0 <= j < self.fields@.len() && (#[trigger] self.fields@[j]).0@ == field@;
                    assert(k == i as int);
                }
                Some(self.fields[i].1)
            },
            None => None,
        }
    }

    /// Sets a field and returns the value it had before, if it had one.
    pub fn set_field(&mut self, field: StaticFieldRef, value: RuntimeValue) -> (r: Option<RuntimeValue>)
        requires
            old(self).wf(),
        ensures
            final(self).wf(),
            final(self).as_map() == old(self).as_map().insert(field@, value),
            r is Some <==> old(self).as_map().dom().contains(field@),
            r matches Some(v) ==> old(self).as_map()[field@] == v,
    {
        match self.find(&field) {
            Some(i) => {
                let old_value = self.fields[i].1;
                proof {
                    let k = choose|j: int| 0 <= j < self.fields@.len() && (#[trigger] self.fields@[j]).0@ == field@;
                    assert(k == i as int);
                }
                let ghost before = self.fields@;
                self.fields.set(i, (field, value));
                proof {
                    assert forall|k: StaticFieldKey| #[trigger] self.as_map().dom().contains(k) == old(self).as_map().insert(field@, value).dom().contains(k) by {
                        if exists|j: int| 0 <= j < before.len() && (#[trigger] before[j]).0@ == k {
                            let j = choose|j: int| 0 <= j < before.len() && (#[trigger] before[j]).0@ == k;
                            assert(self.fields@[j].0@ == k);
                        }
                        if exists|j: int| 0 <= j < self.fields@.len() && (#[trigger] self.fields@[j]).0@ == k {
                            let j = choose|j: int| 0 <= j < self.fields@.len() && (#[trigger] self.fields@[j]).0@ == k;
                            if j != i {
                                assert(before[j].0@ == k);
                            }
                        }
                    }
                    assert forall|k: StaticFieldKey| #[trigger] self.as_map().dom().contains(k) implies self.as_map()[k] == old(self).as_map().insert(field@, value)[k] by {
                        let j = choose|j: int| 0 <= j < self.fields@.len() && (#[trigger] self.fields@[j]).0@ == k;
                        if k == field@ {
                            assert(j == i);
                        } else {
                            let j0 = choose|j: int| 0 <= j < before.len() && (#[trigger] before[j]).0@ == k;
                            assert(j == j0);
                        }
                    }
                    assert(self.as_map() =~= old(self).as_map().insert(field@, value));
                }
                Some(old_value)
            },
            None => {
                let ghost before = self.fields@;
                let ghost key = field@;
                self.fields.push((field, value));
                proof {
                    let n = before.len() as int;
                    assert forall|k: StaticFieldKey| #[trigger] self.as_map().dom().contains(k) == old(self).as_map().insert(key, value).dom().contains(k) by {
                        if exists|j: int| 0 <= j < before.len() && (#[trigger] before[j]).0@ == k {
                            let j = choose|j: int| 0 <= j < before.len() && (#[trigger] before[j]).0@ == k;
                            assert(self.fields@[j].0@ == k);
                        }
                        if k == key {
                            assert(self.fields@[n].0@ == k);
                        }
                        if exists|j: int| 0 <= j < self.fields@.len() && (#[trigger] self.fields@[j]).0@ == k {
                            let j = choose|j: int| 0 <= j < self.fields@.len() && (#[trigger] self.fields@[j]).0@ == k;
                            if j < n {
                                assert(before[j].0@ == k);
                            }
                        }
                    }
                    assert forall|k: StaticFieldKey| #[trigger] self.as_map().dom().contains(k) implies self.as_map()[k] == old(self).as_map().insert(key, value)[k] by {
                        let j = choose|j: int| 0 <= j < self.fields@.len() && (#[trigger] self.fields@[j]).0@ == k;
                        if k == key {
                            assert(j == n);
                        } else {
                            let j0 = choose|j: int| 0 <= j < before.len() && (#[trigger] before[j]).0@ == k;
                            assert(j == j0);
                        }
                    }
                    assert(self.as_map() =~= old(self).as_map().insert(key, value));
                }
                None
            },
        }
    }
}

} // verus!
