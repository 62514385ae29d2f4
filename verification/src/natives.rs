//! Native methods the machine runs itself: those that only compute on values and the
//! heap. Natives that reach the outside world (files, time, the process) go to the host.
use crate::arith::{int_value, long_value};
use crate::constants::Interner;
use crate::error::{ExecError, VMError};
use crate::heap::{elements, instance_fields, is_array, is_instance, with_field, Heap, HeapObject, ObjectValue};
use crate::numeric::{Floating, FloatingType, IntegralType};
use crate::value::RuntimeValue;
use vstd::prelude::*;
use vstd::string::*;

verus! {

/// The natives of `java/lang/Class`.
#[derive(Debug, Clone, Copy)]
pub struct LangClass;

/// The natives of `java/lang/StringUTF16`.
#[derive(Debug, Clone, Copy)]
pub struct StringUTF16;

/// The natives of `java/lang/Double`.
#[derive(Debug, Clone, Copy)]
pub struct LangDouble;

/// The natives of `java/lang/System`.
#[derive(Debug, Clone, Copy)]
pub struct System;

/// The natives of `java/lang/Object`.
#[derive(Debug, Clone, Copy)]
pub struct LangObject;

/// The natives of `java/lang/Thread`.
#[derive(Debug, Clone, Copy)]
pub struct LangThread;

/// The natives of `java/lang/Runtime`.
#[derive(Debug, Clone, Copy)]
pub struct Runtime;

/// The natives of `jdk/internal/misc/CDS`.
#[derive(Debug, Clone, Copy)]
pub struct Cds;

/// The natives of `jdk/internal/reflect/Reflection`.
#[derive(Debug, Clone, Copy)]
pub struct Reflection;

/// The natives of `jdk/internal/util/SystemProps$Raw`.
#[derive(Debug, Clone, Copy)]
pub struct SystemPropsRaw;

/// The natives of `jdk/internal/misc/Unsafe`.
#[derive(Debug, Clone, Copy)]
pub struct Unsafe;

/// The natives of `jdk/internal/misc/VM`.
#[derive(Debug, Clone, Copy)]
pub struct JdkVm;

/// The natives of `jdk/internal/misc/ScopedMemoryAccess`.
#[derive(Debug, Clone, Copy)]
pub struct ScopedMemoryAccess;

/// The natives of `jdk/internal/misc/Signal`.
#[derive(Debug, Clone, Copy)]
pub struct Signal;

impl LangClass {
    /// The class whose natives these are.
    pub fn classname(&self) -> (r: &'static str)
        ensures
            r@ == "java/lang/Class"@,
    {
        "java/lang/Class"
    }
}

impl StringUTF16 {
    /// The class whose natives these are.
    pub fn classname(&self) -> (r: &'static str)
        ensures
            r@ == "java/lang/StringUTF16"@,
    {
        "java/lang/StringUTF16"
    }
}

impl LangDouble {
    /// The class whose natives these are.
    pub fn classname(&self) -> (r: &'static str)
        ensures
            r@ == "java/lang/Double"@,
    {
        "java/lang/Double"
    }
}

impl System {
    /// The class whose natives these are.
    pub fn classname(&self) -> (r: &'static str)
        ensures
            r@ == "java/lang/System"@,
    {
        "java/lang/System"
    }
}

impl LangObject {
    /// The class whose natives these are.
    pub fn classname(&self) -> (r: &'static str)
        ensures
            r@ == "java/lang/Object"@,
    {
        "java/lang/Object"
    }
}

impl LangThread {
    /// The class whose natives these are.
    pub fn classname(&self) -> (r: &'static str)
        ensures
            r@ == "java/lang/Thread"@,
    {
        "java/lang/Thread"
    }
}

impl Runtime {
    /// The class whose natives these are.
    pub fn classname(&self) -> (r: &'static str)
        ensures
            r@ == "java/lang/Runtime"@,
    {
        "java/lang/Runtime"
    }
}

impl Cds {
    /// The class whose natives these are.
    pub fn classname(&self) -> (r: &'static str)
        ensures
            r@ == "jdk/internal/misc/CDS"@,
    {
        "jdk/internal/misc/CDS"
    }
}

impl Reflection {
    /// The class whose natives these are.
    pub fn classname(&self) -> (r: &'static str)
        ensures
            r@ == "jdk/internal/reflect/Reflection"@,
    {
        "jdk/internal/reflect/Reflection"
    }
}

impl SystemPropsRaw {
    /// The class whose natives these are.
    pub fn classname(&self) -> (r: &'static str)
        ensures
            r@ == "jdk/internal/util/SystemProps$Raw"@,
    {
        "jdk/internal/util/SystemProps$Raw"
    }
}

impl Unsafe {
    /// The class whose natives these are.
    pub fn classname(&self) -> (r: &'static str)
        ensures
            r@ == "jdk/internal/misc/Unsafe"@,
    {
        "jdk/internal/misc/Unsafe"
    }
}

impl JdkVm {
    /// The class whose natives these are.
    pub fn classname(&self) -> (r: &'static str)
        ensures
            r@ == "jdk/internal/misc/VM"@,
    {
        "jdk/internal/misc/VM"
    }
}

impl ScopedMemoryAccess {
    /// The class whose natives these are.
    pub fn classname(&self) -> (r: &'static str)
        ensures
            r@ == "jdk/internal/misc/ScopedMemoryAccess"@,
    {
        "jdk/internal/misc/ScopedMemoryAccess"
    }
}

impl Signal {
    /// The class whose natives these are.
    pub fn classname(&self) -> (r: &'static str)
        ensures
            r@ == "jdk/internal/misc/Signal"@,
    {
        "jdk/internal/misc/Signal"
    }
}

/// What a native call came to.
#[derive(Debug, Clone)]
pub enum NativeResult {
    /// It returned, with or without a value.
    Returned(Option<RuntimeValue>),
    /// It raised an exception.
    Thrown(VMError),
    /// Its arguments were not what it needs.
    Fault(ExecError),
    /// The machine does not run it; the host must.
    Host,
}

/// The array `src` with the elements `src_pos..src_pos + len` of `from` copied in at
/// `dest_pos`.
pub open spec fn copied(from: Seq<RuntimeValue>, src_pos: int, into: Seq<RuntimeValue>, dest_pos: int, len: int) -> Seq<RuntimeValue> {
    into.subrange(0, dest_pos) + from.subrange(src_pos, src_pos + len) + into.subrange(
        dest_pos + len,
        into.len() as int,
    )
}

/// `System.arraycopy`: copies `len` elements of the array `src` from `src_pos` into the
/// array `dest` from `dest_pos`, as if through a temporary array. A negative position
/// or length, or a range past the end of either array, raises
/// `ArrayIndexOutOfBoundsException` at -1; references that do not name arrays are a
/// fault.
pub fn arraycopy(heap: &mut Heap, src: RuntimeValue, src_pos: RuntimeValue, dest: RuntimeValue, dest_pos: RuntimeValue, len: RuntimeValue) -> (r: NativeResult)
    ensures
        match (src, src_pos, dest, dest_pos, len) {
            (
                RuntimeValue::Object(Some(s)),
                RuntimeValue::Integral(sp),
                RuntimeValue::Object(Some(d)),
                RuntimeValue::Integral(dp),
                RuntimeValue::Integral(n),
            ) => if !is_array(old(heap)@, s) || !is_array(old(heap)@, d) {
                r == NativeResult::Fault(ExecError::NotArray) && final(heap)@ == old(heap)@
            } else if sp.value < 0 || dp.value < 0 || n.value < 0 || sp.value + n.value > elements(old(heap)@, s).len()
                || dp.value + n.value > elements(old(heap)@, d).len() {
                r == NativeResult::Thrown(VMError::ArrayIndexOutOfBounds { at: -1i64 }) && final(heap)@ == old(heap)@
            } else {
                &&& r == NativeResult::Returned(None)
                &&& final(heap)@.len() == old(heap)@.len()
                &&& forall|k: int| 0 <= k < old(heap)@.len() && k != d ==> final(heap)@[k] == old(heap)@[k]
                &&& is_array(final(heap)@, d)
                &&& elements(final(heap)@, d) == copied(
                    elements(old(heap)@, s),
                    sp.value as int,
                    elements(old(heap)@, d),
                    dp.value as int,
                    n.value as int,
                )
            },
            _ => r == NativeResult::Fault(ExecError::NotArray) && final(heap)@ == old(heap)@,
        },
{
    let (s, sp, d, dp, n) = match (src, src_pos, dest, dest_pos, len) {
        (
            RuntimeValue::Object(Some(s)),
            RuntimeValue::Integral(sp),
            RuntimeValue::Object(Some(d)),
            RuntimeValue::Integral(dp),
            RuntimeValue::Integral(n),
        ) => (s, sp.value, d, dp.value, n.value),
        _ => return NativeResult::Fault(ExecError::NotArray),
    };
    let s_ok = s < heap.objects.len() && match &heap.objects[s] {
        crate::heap::HeapObject::Array(_) => true,
        _ => false,
    };
    let d_ok = d < heap.objects.len() && match &heap.objects[d] {
        crate::heap::HeapObject::Array(_) => true,
        _ => false,
    };
    if !s_ok || !d_ok {
        return NativeResult::Fault(ExecError::NotArray);
    }
    let src_len = heap.array_len(s);
    let dest_len = heap.array_len(d);
    if sp < 0 || dp < 0 || n < 0 || sp as i128 + n as i128 > src_len as i128 || dp as i128 + n as i128 > dest_len as i128 {
        return NativeResult::Thrown(VMError::ArrayIndexOutOfBounds { at: -1 });
    }
    let sp = sp as usize;
    let dp = dp as usize;
    let n = n as usize;
    let ghost from = elements(heap@, s);
    let ghost into = elements(heap@, d);
    let ghost h0 = heap@;
    let mut temp: Vec<RuntimeValue> = Vec::new();
    let mut k: usize = 0;
    while k < n
        invariant
            k <= n,
            from.len() == src_len,
            sp + n <= src_len,
            heap@ == h0,
            is_array(h0, s),
            from == elements(h0, s),
            temp@ == from.subrange(sp as int, sp + k),
        decreases n - k,
    {
        let v = heap.array_get(s, sp + k);
        temp.push(v);
        assert(from.subrange(sp as int, sp + k + 1) =~= from.subrange(sp as int, sp + k).push(v));
        k = k + 1;
    }
    let mut j: usize = 0;
    while j < n
        invariant
            j <= n,
            into.len() == dest_len,
            dp + n <= dest_len,
            sp + n <= from.len(),
            temp@ == from.subrange(sp as int, sp + n),
            heap@.len() == h0.len(),
            forall|q: int| 0 <= q < h0.len() && q != d ==> heap@[q] == h0[q],
            is_array(heap@, d),
            elements(heap@, d).len() == into.len(),
            elements(heap@, d) =~= into.subrange(0, dp as int) + temp@.take(j as int) + into.subrange(
                dp + j,
                into.len() as int,
            ),
        decreases n - j,
    {
        let ghost before = heap@;
        heap.array_set(d, dp + j, temp[j]);
        assert(elements(heap@, d) =~= into.subrange(0, dp as int) + temp@.take(j + 1) + into.subrange(
            dp + j + 1,
            into.len() as int,
        ));
        j = j + 1;
    }
    assert(temp@.take(n as int) =~= temp@);
    NativeResult::Returned(None)
}

/// The bit pattern of a floating value.
pub open spec fn float_bits(v: RuntimeValue) -> u64 {
    match v {
        RuntimeValue::Floating(f) => f.bits,
        _ => 0,
    }
}

/// The `byte` value a byte read from a file stands for in a Java `byte[]`.
pub open spec fn byte_value(b: u8) -> RuntimeValue {
    int_value((b as i8) as i32)
}

/// Whether the array `array` of `heap` has room for `n` elements from `offset` on.
pub open spec fn has_room(heap: Seq<ObjectValue>, array: usize, offset: usize, n: int) -> bool {
    is_array(heap, array) && offset + n <= elements(heap, array).len()
}

/// Stores bytes read for `FileInputStream.readBytes` into the array `array` from
/// `offset` on, each as a `byte` value (`byte_value`); `false`, with the heap unchanged,
/// when the array has no room for them.
pub fn store_bytes(heap: &mut Heap, array: usize, offset: usize, bytes: &Vec<u8>) -> (r: bool)
    ensures
        r == has_room(old(heap)@, array, offset, bytes@.len() as int),
        !r ==> final(heap)@ == old(heap)@,
        r ==> final(heap)@.len() == old(heap)@.len() && final(heap)@[array as int] is Array,
        r ==> forall|x: int| 0 <= x < old(heap)@.len() && x != array ==> #[trigger] final(heap)@[x] == old(heap)@[x],
        r ==> elements(final(heap)@, array) == elements(old(heap)@, array).subrange(0, offset as int) + bytes@.map_values(
            |b: u8| byte_value(b),
        ) + elements(old(heap)@, array).subrange(offset + bytes@.len(), elements(old(heap)@, array).len() as int),
        r ==> (match final(heap)@[array as int] {
            ObjectValue::Array { ty, .. } => old(heap)@[array as int] matches ObjectValue::Array { ty: t0, .. } && ty == t0,
            _ => false,
        }),
{
    if array >= heap.objects.len() {
        return false;
    }
    match &heap.objects[array] {
        HeapObject::Array(_) => {},
        _ => return false,
    }
    let len = heap.array_len(array);
    if offset > len || bytes.len() > len - offset {
        return false;
    }
    let ghost e0 = elements(heap@, array);
    let ghost wanted = bytes@.map_values(|b: u8| byte_value(b));
    let mut k: usize = 0;
    while k < bytes.len()
        invariant
            k <= bytes@.len(),
            offset + bytes@.len() <= e0.len(),
            e0.len() == len,
            heap@.len() == old(heap)@.len(),
            array < heap@.len(),
            heap@[array as int] matches ObjectValue::Array { ty, .. } && old(heap)@[array as int] matches ObjectValue::Array {
                ty: t0,
                ..
            } && ty == t0,
            e0 == elements(old(heap)@, array),
            wanted == bytes@.map_values(|b: u8| byte_value(b)),
            forall|x: int| 0 <= x < old(heap)@.len() && x != array ==> #[trigger] heap@[x] == old(heap)@[x],
            elements(heap@, array) == e0.subrange(0, offset as int) + wanted.take(k as int) + e0.subrange(
                offset + k,
                e0.len() as int,
            ),
        decreases bytes@.len() - k,
    {
        let v = RuntimeValue::from_int((bytes[k] as i8) as i32);
        assert(v == wanted[k as int]);
        heap.array_set(array, offset + k, v);
        assert(wanted.take(k + 1) =~= wanted.take(k as int).push(wanted[k as int]));
        assert(elements(heap@, array) =~= e0.subrange(0, offset as int) + wanted.take(k + 1) + e0.subrange(
            offset + k + 1,
            e0.len() as int,
        ));
        k = k + 1;
    }
    assert(wanted.take(bytes@.len() as int) =~= wanted);
    true
}

/// The result of a native that needs nothing but its arguments, when the machine runs
/// it: `registerNatives`, and the natives of `Object`, `Runtime`, `Thread`, `Class`,
/// `StringUTF16`, `Float` and `Double` that return a constant, the receiver, or a bit
/// pattern. `None` for every other native, `Double.longBitsToDouble` among them: it
/// converts the `long`'s value to a `double`, which is work for the host.
pub open spec fn value_native(class: Seq<char>, name: Seq<char>, descriptor: Seq<char>, args: Seq<RuntimeValue>) -> Option<Option<RuntimeValue>> {
    if name == "registerNatives"@ && descriptor == "()V"@ {
        Some(None)
    } else if class == "java/lang/Object"@ && name == "notifyAll"@ && descriptor == "()V"@ {
        Some(None)
    } else if class == "java/lang/Object"@ && name == "clone"@ && descriptor == "()Ljava/lang/Object;"@ && args.len() >= 1 {
        Some(Some(args[0]))
    } else if class == "java/lang/Shutdown"@ && name == "beforeHalt"@ && descriptor == "()V"@ {
        Some(None)
    } else if class == "java/lang/Runtime"@ && name == "availableProcessors"@ && descriptor == "()I"@ {
        Some(Some(int_value(1)))
    } else if class == "java/lang/Runtime"@ && name == "maxMemory"@ && descriptor == "()J"@ {
        Some(Some(long_value(1024)))
    } else if class == "java/lang/Runtime"@ && name == "gc"@ && descriptor == "()V"@ {
        Some(None)
    } else if class == "java/lang/Thread"@ && name == "isAlive"@ && descriptor == "()Z"@ {
        Some(Some(int_value(0)))
    } else if class == "java/lang/Thread"@ && (name == "start0"@ || name == "setPriority0"@) {
        Some(None)
    } else if class == "java/lang/Class"@ && name == "desiredAssertionStatus0"@ {
        Some(Some(int_value(1)))
    } else if class == "java/lang/StringUTF16"@ && name == "isBigEndian"@ && descriptor == "()Z"@ {
        Some(Some(int_value(1)))
    } else if class == "java/lang/Float"@ && name == "floatToRawIntBits"@ && descriptor == "(F)I"@ && args.len() >= 1
        && args[0] is Floating {
        Some(Some(int_value(float_bits(args[0]) as i32)))
    } else if class == "java/lang/Double"@ && name == "doubleToRawLongBits"@ && descriptor == "(D)J"@ && args.len() >= 1
        && args[0] is Floating {
        Some(Some(long_value(float_bits(args[0]) as i64)))
    } else if class == "java/lang/Throwable"@ && name == "fillInStackTrace"@ && descriptor == "(I)Ljava/lang/Throwable;"@
        && args.len() >= 1 {
        Some(Some(args[0]))
    } else if ((class == "java/lang/Object"@ && name == "hashCode"@ && descriptor == "()I"@) || (class
        == "java/lang/System"@ && name == "identityHashCode"@ && descriptor == "(Ljava/lang/Object;)I"@))
        && args.len() >= 1 && args[0] is Object {
        Some(Some(int_value(identity_hash(args[0]))))
    } else if class == "jdk/internal/misc/VM"@ && name == "initialize"@ && descriptor == "()V"@ {
        Some(None)
    } else if class == "jdk/internal/misc/CDS"@ && (name == "isDumpingClassList0"@ || name == "isDumpingArchive0"@
        || name == "isSharingEnabled0"@) && descriptor == "()Z"@ {
        Some(Some(int_value(0)))
    } else if class == "jdk/internal/misc/CDS"@ && name == "getRandomSeedForDumping"@ && descriptor == "()J"@ {
        Some(Some(long_value(0)))
    } else if class == "jdk/internal/misc/CDS"@ && name == "initializeFromArchive"@ && descriptor == "(Ljava/lang/Class;)V"@ {
        Some(None)
    } else if class == "jdk/internal/misc/Unsafe"@ && name == "storeFence"@ && descriptor == "()V"@ {
        Some(None)
    } else if class == "jdk/internal/misc/Unsafe"@ && name == "arrayBaseOffset0"@ && descriptor == "(Ljava/lang/Class;)I"@ {
        Some(Some(int_value(0)))
    } else if class == "jdk/internal/misc/Unsafe"@ && name == "arrayIndexScale0"@ && descriptor == "(Ljava/lang/Class;)I"@ {
        Some(Some(int_value(1)))
    } else if class == "jdk/internal/misc/Signal"@ && name == "handle0"@ && descriptor == "(IJ)J"@ {
        Some(Some(long_value(0)))
    } else if class == "java/io/FileDescriptor"@ && name == "getHandle"@ && descriptor == "(I)J"@ {
        Some(Some(long_value(-1i64)))
    } else if class == "java/io/FileDescriptor"@ && name == "getAppend"@ && descriptor == "(I)Z"@ {
        Some(Some(int_value(0)))
    } else if (class == "java/io/FileDescriptor"@ || class == "java/io/FileOutputStream"@ || class
        == "java/io/FileInputStream"@ || class == "java/io/UnixFileSystem"@) && name == "initIDs"@ && descriptor == "()V"@ {
        Some(None)
    } else if class == "java/io/FileInputStream"@ && name == "available0"@ && descriptor == "()I"@ {
        Some(Some(int_value(0)))
    } else {
        None
    }
}

/// The identity hash of a reference: its number, and 0 for `null`.
pub open spec fn identity_hash(v: RuntimeValue) -> i32 {
    match v {
        RuntimeValue::Object(Some(r)) => r as i32,
        _ => 0,
    }
}

fn is(s: &String, lit: &str) -> (r: bool)
    ensures
        r == (s@ == lit@),
{
    let t = String::from_str(lit);
    *s == t
}

/// Runs a native that needs nothing but its arguments (`value_native`).
pub fn run_value_native(class: &String, name: &String, descriptor: &String, args: &Vec<RuntimeValue>) -> (r: Option<Option<RuntimeValue>>)
    ensures
        r == value_native(class@, name@, descriptor@, args@),
{
    if is(name, "registerNatives") && is(descriptor, "()V") {
        Some(None)
    } else if is(class, "java/lang/Object") && is(name, "notifyAll") && is(descriptor, "()V") {
        Some(None)
    } else if is(class, "java/lang/Object") && is(name, "clone") && is(descriptor, "()Ljava/lang/Object;") && args.len() >= 1 {
        Some(Some(args[0]))
    } else if is(class, "java/lang/Shutdown") && is(name, "beforeHalt") && is(descriptor, "()V") {
        Some(None)
    } else if is(class, "java/lang/Runtime") && is(name, "availableProcessors") && is(descriptor, "()I") {
        Some(Some(RuntimeValue::from_int(1)))
    } else if is(class, "java/lang/Runtime") && is(name, "maxMemory") && is(descriptor, "()J") {
        Some(Some(RuntimeValue::from_long(1024)))
    } else if is(class, "java/lang/Runtime") && is(name, "gc") && is(descriptor, "()V") {
        Some(None)
    } else if is(class, "java/lang/Thread") && is(name, "isAlive") && is(descriptor, "()Z") {
        Some(Some(RuntimeValue::from_int(0)))
    } else if is(class, "java/lang/Thread") && (is(name, "start0") || is(name, "setPriority0")) {
        Some(None)
    } else if is(class, "java/lang/Class") && is(name, "desiredAssertionStatus0") {
        Some(Some(RuntimeValue::from_int(1)))
    } else if is(class, "java/lang/StringUTF16") && is(name, "isBigEndian") && is(descriptor, "()Z") {
        Some(Some(RuntimeValue::from_int(1)))
    } else if is(class, "java/lang/Float") && is(name, "floatToRawIntBits") && is(descriptor, "(F)I") && args.len() >= 1
        && matches!(args[0], RuntimeValue::Floating(_)) {
        match args[0] {
            RuntimeValue::Floating(f) => Some(Some(RuntimeValue::from_int(f.bits as i32))),
            _ => None,
        }
    } else if is(class, "java/lang/Double") && is(name, "doubleToRawLongBits") && is(descriptor, "(D)J") && args.len() >= 1
        && matches!(args[0], RuntimeValue::Floating(_)) {
        match args[0] {
            RuntimeValue::Floating(f) => Some(Some(RuntimeValue::from_long(f.bits as i64))),
            _ => None,
        }
    } else if is(class, "java/lang/Throwable") && is(name, "fillInStackTrace") && is(descriptor, "(I)Ljava/lang/Throwable;")
        && args.len() >= 1 {
        Some(Some(args[0]))
    } else if ((is(class, "java/lang/Object") && is(name, "hashCode") && is(descriptor, "()I")) || (is(class, "java/lang/System")
        && is(name, "identityHashCode") && is(descriptor, "(Ljava/lang/Object;)I"))) && args.len() >= 1
        && matches!(args[0], RuntimeValue::Object(_)) {
        let hash: i32 = match args[0] {
            RuntimeValue::Object(Some(r)) => r as i32,
            _ => 0,
        };
        Some(Some(RuntimeValue::from_int(hash)))
    } else if is(class, "jdk/internal/misc/VM") && is(name, "initialize") && is(descriptor, "()V") {
        Some(None)
    } else if is(class, "jdk/internal/misc/CDS") && (is(name, "isDumpingClassList0") || is(name, "isDumpingArchive0")
        || is(name, "isSharingEnabled0")) && is(descriptor, "()Z") {
        Some(Some(RuntimeValue::from_int(0)))
    } else if is(class, "jdk/internal/misc/CDS") && is(name, "getRandomSeedForDumping") && is(descriptor, "()J") {
        Some(Some(RuntimeValue::from_long(0)))
    } else if is(class, "jdk/internal/misc/CDS") && is(name, "initializeFromArchive") && is(descriptor, "(Ljava/lang/Class;)V") {
        Some(None)
    } else if is(class, "jdk/internal/misc/Unsafe") && is(name, "storeFence") && is(descriptor, "()V") {
        Some(None)
    } else if is(class, "jdk/internal/misc/Unsafe") && is(name, "arrayBaseOffset0") && is(descriptor, "(Ljava/lang/Class;)I") {
        Some(Some(RuntimeValue::from_int(0)))
    } else if is(class, "jdk/internal/misc/Unsafe") && is(name, "arrayIndexScale0") && is(descriptor, "(Ljava/lang/Class;)I") {
        Some(Some(RuntimeValue::from_int(1)))
    } else if is(class, "jdk/internal/misc/Signal") && is(name, "handle0") && is(descriptor, "(IJ)J") {
        Some(Some(RuntimeValue::from_long(0)))
    } else if is(class, "java/io/FileDescriptor") && is(name, "getHandle") && is(descriptor, "(I)J") {
        Some(Some(RuntimeValue::from_long(-1)))
    } else if is(class, "java/io/FileDescriptor") && is(name, "getAppend") && is(descriptor, "(I)Z") {
        Some(Some(RuntimeValue::from_int(0)))
    } else if (is(class, "java/io/FileDescriptor") || is(class, "java/io/FileOutputStream") || is(class, "java/io/FileInputStream")
        || is(class, "java/io/UnixFileSystem")) && is(name, "initIDs") && is(descriptor, "()V") {
        Some(None)
    } else if is(class, "java/io/FileInputStream") && is(name, "available0") && is(descriptor, "()I") {
        Some(Some(RuntimeValue::from_int(0)))
    } else {
        None
    }
}

/// Whether the native is `Thread.currentThread`, which gives the main thread.
pub fn is_current_thread(class: &String, name: &String, descriptor: &String) -> (r: bool)
    ensures
        r == (class@ == "java/lang/Thread"@ && name@ == "currentThread"@ && descriptor@ == "()Ljava/lang/Thread;"@),
{
    is(class, "java/lang/Thread") && is(name, "currentThread") && is(descriptor, "()Ljava/lang/Thread;")
}

/// Whether the native is the `Unsafe` method with this name and descriptor, with at
/// least `n` local variables.
pub open spec fn is_unsafe(class: Seq<char>, name: Seq<char>, descriptor: Seq<char>, args: Seq<RuntimeValue>, m: Seq<char>, d: Seq<char>, n: int) -> bool {
    class == "jdk/internal/misc/Unsafe"@ && name == m && descriptor == d && args.len() >= n
}

/// Runs a native the machine can run itself: the natives of `value_native`,
/// `System.arraycopy` on the heap, and the `Unsafe` accesses to fields and elements by
/// offset. `compareAndSetLong(o, offset, expected, desired)` reads both of its `long`
/// values from the two local variables that `expected` fills: `expected` from the fifth
/// and the value it stores from the sixth, which holds `expected` again, so that a
/// successful call leaves the field as it was. Any other native goes to the host, with
/// the heap unchanged.
pub fn builtin_native(heap: &mut Heap, class: &String, name: &String, descriptor: &String, args: &Vec<RuntimeValue>) -> (r: NativeResult)
    ensures
        value_native(class@, name@, descriptor@, args@) matches Some(v) ==> r == NativeResult::Returned(v)
            && final(heap)@ == old(heap)@,
        value_native(class@, name@, descriptor@, args@) is None ==> {
            &&& is_unsafe(class@, name@, descriptor@, args@, "compareAndSetInt"@, "(Ljava/lang/Object;JII)Z"@, 6) ==> cas_post(
                CasKind::Int,
                old(heap)@,
                final(heap)@,
                args@[1],
                args@[2],
                args@[4],
                args@[5],
                r,
            )
            &&& is_unsafe(
                class@,
                name@,
                descriptor@,
                args@,
                "compareAndSetReference"@,
                "(Ljava/lang/Object;JLjava/lang/Object;Ljava/lang/Object;)Z"@,
                6,
            ) ==> cas_post(CasKind::Reference, old(heap)@, final(heap)@, args@[1], args@[2], args@[4], args@[5], r)
            &&& is_unsafe(class@, name@, descriptor@, args@, "compareAndSetLong"@, "(Ljava/lang/Object;JJJ)Z"@, 6) ==> cas_post(
                CasKind::Long,
                old(heap)@,
                final(heap)@,
                args@[1],
                args@[2],
                args@[4],
                args@[5],
                r,
            )
            &&& is_unsafe(class@, name@, descriptor@, args@, "getReferenceVolatile"@, "(Ljava/lang/Object;J)Ljava/lang/Object;"@, 4)
                ==> get_post(old(heap)@, args@[1], args@[2], false, r) && final(heap)@ == old(heap)@
            &&& is_unsafe(class@, name@, descriptor@, args@, "getIntVolatile"@, "(Ljava/lang/Object;J)I"@, 4) ==> get_post(
                old(heap)@,
                args@[1],
                args@[2],
                true,
                r,
            ) && final(heap)@ == old(heap)@
            &&& is_unsafe(class@, name@, descriptor@, args@, "putReferenceVolatile"@, "(Ljava/lang/Object;JLjava/lang/Object;)V"@, 5)
                ==> put_post(old(heap)@, final(heap)@, args@[1], args@[2], args@[4], r)
        },
        r is Host ==> final(heap)@ == old(heap)@,
{
    proof {
        reveal_strlit("jdk/internal/misc/Unsafe");
        reveal_strlit("java/lang/System");
        reveal_strlit("compareAndSetInt");
        reveal_strlit("compareAndSetReference");
        reveal_strlit("compareAndSetLong");
        reveal_strlit("getReferenceVolatile");
        reveal_strlit("getIntVolatile");
        reveal_strlit("putReferenceVolatile");
        assert("java/lang/System"@.len() == 16);
        assert("jdk/internal/misc/Unsafe"@.len() == 24);
        assert("compareAndSetInt"@.len() == 16);
        assert("compareAndSetReference"@.len() == 22);
        assert("compareAndSetLong"@.len() == 17);
        assert("getReferenceVolatile"@.len() == 20);
        assert("getIntVolatile"@.len() == 14);
        assert("putReferenceVolatile"@.len() == 20);
        assert("getReferenceVolatile"@[0] != "putReferenceVolatile"@[0]);
    }
    match run_value_native(class, name, descriptor, args) {
        Some(v) => return NativeResult::Returned(v),
        None => {},
    }
    if is(class, "java/lang/System") && is(name, "arraycopy") && is(descriptor, "(Ljava/lang/Object;ILjava/lang/Object;II)V") && args.len() == 5 {
        arraycopy(heap, args[0], args[1], args[2], args[3], args[4])
    } else if is(class, "jdk/internal/misc/Unsafe") && is(name, "compareAndSetInt") && is(descriptor, "(Ljava/lang/Object;JII)Z")
        && args.len() >= 6 {
        compare_and_set(heap, CasKind::Int, args[1], args[2], args[4], args[5])
    } else if is(class, "jdk/internal/misc/Unsafe") && is(name, "compareAndSetReference") && is(
        descriptor,
        "(Ljava/lang/Object;JLjava/lang/Object;Ljava/lang/Object;)Z",
    ) && args.len() >= 6 {
        compare_and_set(heap, CasKind::Reference, args[1], args[2], args[4], args[5])
    } else if is(class, "jdk/internal/misc/Unsafe") && is(name, "compareAndSetLong") && is(descriptor, "(Ljava/lang/Object;JJJ)Z")
        && args.len() >= 6 {
        compare_and_set(heap, CasKind::Long, args[1], args[2], args[4], args[5])
    } else if is(class, "jdk/internal/misc/Unsafe") && is(name, "getReferenceVolatile") && is(
        descriptor,
        "(Ljava/lang/Object;J)Ljava/lang/Object;",
    ) && args.len() >= 4 {
        unsafe_get(heap, args[1], args[2], false)
    } else if is(class, "jdk/internal/misc/Unsafe") && is(name, "getIntVolatile") && is(descriptor, "(Ljava/lang/Object;J)I")
        && args.len() >= 4 {
        unsafe_get(heap, args[1], args[2], true)
    } else if is(class, "jdk/internal/misc/Unsafe") && is(name, "putReferenceVolatile") && is(
        descriptor,
        "(Ljava/lang/Object;JLjava/lang/Object;)V",
    ) && args.len() >= 5 {
        unsafe_put(heap, args[1], args[2], args[4])
    } else {
        NativeResult::Host
    }
}


/// The value an `Unsafe` access at `offset` reads from object `r`. An offset in this
/// machine numbers a field slot of an instance (as `objectFieldOffset1` gives it) or an
/// element of an array (array offsets start at 0 with a scale of 1).
pub open spec fn value_at(h: Seq<ObjectValue>, r: usize, offset: i64) -> Option<RuntimeValue> {
    if offset < 0 {
        None
    } else if is_instance(h, r) && offset < instance_fields(h, r).len() {
        Some(instance_fields(h, r)[offset as int].value)
    } else if is_array(h, r) && offset < elements(h, r).len() {
        Some(elements(h, r)[offset as int])
    } else {
        None
    }
}

/// The heap with the value at `offset` of object `r` replaced by `v`.
pub open spec fn put_at(h: Seq<ObjectValue>, r: usize, offset: i64, v: RuntimeValue) -> Seq<ObjectValue> {
    if is_instance(h, r) {
        with_field(h, r, offset as int, v)
    } else {
        h.update(
            r as int,
            match h[r as int] {
                ObjectValue::Array { ty, values } => ObjectValue::Array { ty, values: values.update(offset as int, v) },
                o => o,
            },
        )
    }
}

/// The value at `offset` of object `r` (`value_at`).
fn read_at(heap: &Heap, r: usize, offset: i64) -> (v: Option<RuntimeValue>)
    ensures
        v == value_at(heap@, r, offset),
{
    if offset < 0 || r >= heap.objects.len() {
        return None;
    }
    let ghost o = heap@[r as int];
    match &heap.objects[r] {
        HeapObject::Instance(i) => {
            if (offset as u64) < (i.fields.len() as u64) {
                assert(instance_fields(heap@, r) == i.fields@.map_values(|f: crate::heap::FieldSlot| f@));
                Some(heap.field_value(r, offset as usize))
            } else {
                None
            }
        },
        HeapObject::Array(a) => {
            if (offset as u64) < (a.values.len() as u64) {
                Some(heap.array_get(r, offset as usize))
            } else {
                None
            }
        },
        _ => None,
    }
}

/// Replaces the value at `offset` of object `r` (`put_at`).
fn write_at(heap: &mut Heap, r: usize, offset: i64, v: RuntimeValue)
    requires
        value_at(old(heap)@, r, offset) is Some,
    ensures
        final(heap)@ == put_at(old(heap)@, r, offset, v),
{
    let (instance, limit) = match &heap.objects[r] {
        HeapObject::Instance(i) => {
            assert(instance_fields(heap@, r).len() == i.fields@.len());
            (true, i.fields.len())
        },
        HeapObject::Array(a) => {
            assert(elements(heap@, r).len() == a.values@.len());
            (false, a.values.len())
        },
        _ => (false, 0),
    };
    assert(0 <= offset < limit);
    assert(offset as usize as int == offset as int);
    if instance {
        heap.set_field(r, offset as usize, v);
    } else {
        heap.array_set(r, offset as usize, v);
    }
}

/// Which value an `Unsafe` compare-and-set works on.
#[derive(Debug, Clone, Copy, PartialEq, Eq, Structural)]
pub enum CasKind {
    Int,
    Long,
    Reference,
}

/// Whether the expected and desired values have the kind's type.
pub open spec fn cas_typed(kind: CasKind, v: RuntimeValue) -> bool {
    match kind {
        CasKind::Int | CasKind::Long => v is Integral,
        CasKind::Reference => v is Object,
    }
}

/// Whether the current value is the expected one: an `int` compares its low 32 bits, a
/// `long` its value, a reference the object it names.
pub open spec fn cas_matches(kind: CasKind, current: RuntimeValue, expected: RuntimeValue) -> bool {
    match kind {
        CasKind::Int => current is Integral && ((current->Integral_0).value as i32) == ((expected->Integral_0).value as i32),
        CasKind::Long => current is Integral && (current->Integral_0).value == (expected->Integral_0).value,
        CasKind::Reference => current == expected,
    }
}

/// The value a successful compare-and-set stores.
pub open spec fn cas_stored(kind: CasKind, desired: RuntimeValue) -> RuntimeValue {
    match kind {
        CasKind::Int => int_value((desired->Integral_0).value as i32),
        CasKind::Long => long_value((desired->Integral_0).value),
        CasKind::Reference => desired,
    }
}

/// The fault for a value that does not have the kind's type.
pub open spec fn cas_fault(kind: CasKind) -> ExecError {
    match kind {
        CasKind::Int | CasKind::Long => ExecError::NotInt,
        CasKind::Reference => ExecError::NotObject,
    }
}


/// What `compare_and_set` does, from heap `h` to heap `h2`, with result `r`.
pub open spec fn cas_post(
    kind: CasKind,
    h: Seq<ObjectValue>,
    h2: Seq<ObjectValue>,
    object: RuntimeValue,
    offset: RuntimeValue,
    expected: RuntimeValue,
    desired: RuntimeValue,
    r: NativeResult,
) -> bool {
    match (object, offset) {
        (RuntimeValue::Object(None), RuntimeValue::Integral(_)) => (r matches NativeResult::Thrown(
            VMError::NullPointerException { ctx },
        ) && ctx@ == "unsafe"@) && h2 == h,
        (RuntimeValue::Object(Some(o)), RuntimeValue::Integral(off)) => match value_at(h, o, off.value) {
            None => r == NativeResult::Fault(ExecError::BadOffset) && h2 == h,
            Some(current) => if !cas_typed(kind, expected) || !cas_typed(kind, desired) {
                r == NativeResult::Fault(cas_fault(kind)) && h2 == h
            } else if cas_matches(kind, current, expected) {
                r == NativeResult::Returned(Some(int_value(1))) && h2 == put_at(h, o, off.value, cas_stored(kind, desired))
            } else {
                r == NativeResult::Returned(Some(int_value(0))) && h2 == h
            },
        },
        _ => r == NativeResult::Fault(ExecError::NotObject) && h2 == h,
    }
}

/// What `unsafe_get` gives.
pub open spec fn get_post(h: Seq<ObjectValue>, object: RuntimeValue, offset: RuntimeValue, as_int: bool, r: NativeResult) -> bool {
    match (object, offset) {
        (RuntimeValue::Object(None), RuntimeValue::Integral(_)) => r matches NativeResult::Thrown(
            VMError::NullPointerException { ctx },
        ) && ctx@ == "unsafe"@,
        (RuntimeValue::Object(Some(o)), RuntimeValue::Integral(off)) => match value_at(h, o, off.value) {
            None => r == NativeResult::Fault(ExecError::BadOffset),
            Some(v) => if !as_int {
                r == NativeResult::Returned(Some(v))
            } else if v is Integral {
                r == NativeResult::Returned(Some(int_value((v->Integral_0).value as i32)))
            } else {
                r == NativeResult::Fault(ExecError::NotInt)
            },
        },
        _ => r == NativeResult::Fault(ExecError::NotObject),
    }
}

/// What `unsafe_put` does, from heap `h` to heap `h2`, with result `r`.
pub open spec fn put_post(
    h: Seq<ObjectValue>,
    h2: Seq<ObjectValue>,
    object: RuntimeValue,
    offset: RuntimeValue,
    value: RuntimeValue,
    r: NativeResult,
) -> bool {
    match (object, offset) {
        (RuntimeValue::Object(None), RuntimeValue::Integral(_)) => (r matches NativeResult::Thrown(
            VMError::NullPointerException { ctx },
        ) && ctx@ == "unsafe"@) && h2 == h,
        (RuntimeValue::Object(Some(o)), RuntimeValue::Integral(off)) => match value_at(h, o, off.value) {
            None => r == NativeResult::Fault(ExecError::BadOffset) && h2 == h,
            Some(_) => if value is Object {
                r == NativeResult::Returned(None) && h2 == put_at(h, o, off.value, value)
            } else {
                r == NativeResult::Fault(ExecError::NotObject) && h2 == h
            },
        },
        _ => r == NativeResult::Fault(ExecError::NotObject) && h2 == h,
    }
}

/// `Unsafe.compareAndSet{Int,Long,Reference}`: when the value at `offset` of `object`
/// is `expected`, replaces it with `desired` and gives 1, else gives 0. A `null` object
/// raises `NullPointerException`; an offset that numbers nothing, or operands of the
/// wrong type, are a fault.
pub fn compare_and_set(
    heap: &mut Heap,
    kind: CasKind,
    object: RuntimeValue,
    offset: RuntimeValue,
    expected: RuntimeValue,
    desired: RuntimeValue,
) -> (r: NativeResult)
    ensures
        cas_post(kind, old(heap)@, final(heap)@, object, offset, expected, desired, r),
{
    let (o, off) = match (object, offset) {
        (RuntimeValue::Object(None), RuntimeValue::Integral(_)) => {
            return NativeResult::Thrown(VMError::NullPointerException { ctx: String::from_str("unsafe") });
        },
        (RuntimeValue::Object(Some(o)), RuntimeValue::Integral(off)) => (o, off.value),
        _ => return NativeResult::Fault(ExecError::NotObject),
    };
    let current = match read_at(heap, o, off) {
        Some(v) => v,
        None => return NativeResult::Fault(ExecError::BadOffset),
    };
    let typed = match kind {
        CasKind::Int | CasKind::Long => matches!(expected, RuntimeValue::Integral(_)) && matches!(desired, RuntimeValue::Integral(_)),
        CasKind::Reference => matches!(expected, RuntimeValue::Object(_)) && matches!(desired, RuntimeValue::Object(_)),
    };
    if !typed {
        return match kind {
            CasKind::Int | CasKind::Long => NativeResult::Fault(ExecError::NotInt),
            CasKind::Reference => NativeResult::Fault(ExecError::NotObject),
        };
    }
    let (same, stored) = match (kind, current, expected, desired) {
        (CasKind::Int, RuntimeValue::Integral(c), RuntimeValue::Integral(e), RuntimeValue::Integral(d)) => (
            (c.value as i32) == (e.value as i32),
            RuntimeValue::from_int(d.value as i32),
        ),
        (CasKind::Long, RuntimeValue::Integral(c), RuntimeValue::Integral(e), RuntimeValue::Integral(d)) => (
            c.value == e.value,
            RuntimeValue::from_long(d.value),
        ),
        (CasKind::Reference, RuntimeValue::Object(c), RuntimeValue::Object(e), _) => (c == e, desired),
        _ => (false, desired),
    };
    if same {
        write_at(heap, o, off, stored);
        NativeResult::Returned(Some(RuntimeValue::from_int(1)))
    } else {
        NativeResult::Returned(Some(RuntimeValue::from_int(0)))
    }
}

/// `Unsafe.getReferenceVolatile` and (`int_value`) `Unsafe.getIntVolatile`: the value
/// at `offset` of `object`, an `int` read as its low 32 bits.
pub fn unsafe_get(heap: &Heap, object: RuntimeValue, offset: RuntimeValue, as_int: bool) -> (r: NativeResult)
    ensures
        get_post(heap@, object, offset, as_int, r),
{
    let (o, off) = match (object, offset) {
        (RuntimeValue::Object(None), RuntimeValue::Integral(_)) => {
            return NativeResult::Thrown(VMError::NullPointerException { ctx: String::from_str("unsafe") });
        },
        (RuntimeValue::Object(Some(o)), RuntimeValue::Integral(off)) => (o, off.value),
        _ => return NativeResult::Fault(ExecError::NotObject),
    };
    match read_at(heap, o, off) {
        None => NativeResult::Fault(ExecError::BadOffset),
        Some(v) => if !as_int {
            NativeResult::Returned(Some(v))
        } else {
            match v {
                RuntimeValue::Integral(i) => NativeResult::Returned(Some(RuntimeValue::from_int(i.value as i32))),
                _ => NativeResult::Fault(ExecError::NotInt),
            }
        },
    }
}

/// `Unsafe.putReferenceVolatile`: replaces the value at `offset` of `object` with the
/// reference `value`.
pub fn unsafe_put(heap: &mut Heap, object: RuntimeValue, offset: RuntimeValue, value: RuntimeValue) -> (r: NativeResult)
    ensures
        put_post(old(heap)@, final(heap)@, object, offset, value, r),
{
    let (o, off) = match (object, offset) {
        (RuntimeValue::Object(None), RuntimeValue::Integral(_)) => {
            return NativeResult::Thrown(VMError::NullPointerException { ctx: String::from_str("unsafe") });
        },
        (RuntimeValue::Object(Some(o)), RuntimeValue::Integral(off)) => (o, off.value),
        _ => return NativeResult::Fault(ExecError::NotObject),
    };
    match read_at(heap, o, off) {
        None => NativeResult::Fault(ExecError::BadOffset),
        Some(_) => match value {
            RuntimeValue::Object(_) => {
                write_at(heap, o, off, value);
                NativeResult::Returned(None)
            },
            _ => NativeResult::Fault(ExecError::NotObject),
        },
    }
}

} // verus!
