//! Field and method descriptors (JVMS §4.3): how many parameters a method takes, and the
//! value a field of a given type starts with.
use crate::numeric::{Floating, FloatingType, Integral, IntegralType};
use crate::value::RuntimeValue;
use vstd::prelude::*;

verus! {

/// The first index from `i` on that holds `;`.
pub open spec fn semicolon_from(s: Seq<char>, i: int) -> Option<int>
    decreases s.len() - i,
{
    if i < 0 || i >= s.len() {
        None
    } else if s[i] == ';' {
        Some(i)
    } else {
        semicolon_from(s, i + 1)
    }
}

/// Whether `c` names a primitive field type.
pub open spec fn is_base_type(c: char) -> bool {
    c == 'B' || c == 'C' || c == 'D' || c == 'F' || c == 'I' || c == 'J' || c == 'S' || c == 'Z'
}

/// The index just after the field type that starts at `i`: a primitive type letter,
/// `L` and a non-empty class name up to `;`, or `[` and a field type.
pub open spec fn field_end(s: Seq<char>, i: int) -> Option<int>
    decreases s.len() - i,
{
    if i < 0 || i >= s.len() {
        None
    } else if is_base_type(s[i]) {
        Some(i + 1)
    } else if s[i] == 'L' {
        match semicolon_from(s, i + 1) {
            Some(j) => if j > i + 1 {
                Some(j + 1)
            } else {
                None
            },
            None => None,
        }
    } else if s[i] == '[' {
        field_end(s, i + 1)
    } else {
        None
    }
}

/// Whether the return type starting at `i` is `V` or a field type, and ends the text.
pub open spec fn return_ends(s: Seq<char>, i: int) -> bool {
    &&& 0 <= i < s.len()
    &&& (s[i] == 'V' && i + 1 == s.len()) || field_end(s, i) == Some(s.len() as int)
}

/// The number of parameter types from `i` up to `)`, when a valid return type follows.
pub open spec fn params_from(s: Seq<char>, i: int) -> Option<nat>
    decreases s.len() - i,
{
    if i < 0 || i >= s.len() {
        None
    } else if s[i] == ')' {
        if return_ends(s, i + 1) {
            Some(0)
        } else {
            None
        }
    } else {
        match field_end(s, i) {
            Some(j) => if i < j <= s.len() {
                match params_from(s, j) {
                    Some(n) => Some(n + 1),
                    None => None,
                }
            } else {
                None
            },
            None => None,
        }
    }
}

/// The number of parameters of a method descriptor `(` parameters `)` return type, or
/// `None` when the text is not a method descriptor.
pub open spec fn parameter_count_of(s: Seq<char>) -> Option<nat> {
    if s.len() > 0 && s[0] == '(' {
        params_from(s, 1)
    } else {
        None
    }
}

proof fn lemma_field_end_after(s: Seq<char>, i: int)
    requires
        field_end(s, i) is Some,
    ensures
        i < field_end(s, i)->0 <= s.len(),
    decreases s.len() - i,
{
    if s[i] == 'L' {
        lemma_semicolon_within(s, i + 1);
    } else if s[i] == '[' {
        lemma_field_end_after(s, i + 1);
    }
}

proof fn lemma_semicolon_within(s: Seq<char>, i: int)
    requires
        semicolon_from(s, i) is Some,
    ensures
        i <= semicolon_from(s, i)->0 < s.len(),
    decreases s.len() - i,
{
    if s[i] != ';' {
        lemma_semicolon_within(s, i + 1);
    }
}

fn exec_semicolon_from(s: &str, n: usize, i: usize) -> (r: Option<usize>)
    requires
        n == s@.len(),
    ensures
        match semicolon_from(s@, i as int) {
            Some(j) => r == Some(j as usize),
            None => r is None,
        },
{
    let mut k = i;
    while k < n
        invariant
            i <= k,
            n == s@.len(),
            semicolon_from(s@, i as int) == semicolon_from(s@, k as int),
        decreases n - k,
    {
        if s.get_char(k) == ';' {
            return Some(k);
        }
        k = k + 1;
    }
    None
}

fn exec_field_end(s: &str, n: usize, i: usize) -> (r: Option<usize>)
    requires
        n == s@.len(),
    ensures
        match field_end(s@, i as int) {
            Some(j) => r == Some(j as usize),
            None => r is None,
        },
{
    let mut k = i;
    while k < n && s.get_char(k) == '['
        invariant
            i <= k,
            n == s@.len(),
            field_end(s@, i as int) == field_end(s@, k as int),
        decreases n - k,
    {
        k = k + 1;
    }
    if k >= n {
        return None;
    }
    let c = s.get_char(k);
    if c == 'B' || c == 'C' || c == 'D' || c == 'F' || c == 'I' || c == 'J' || c == 'S' || c == 'Z' {
        Some(k + 1)
    } else if c == 'L' {
        match exec_semicolon_from(s, n, k + 1) {
            Some(j) => {
                proof {
                    lemma_semicolon_within(s@, k + 1);
                }
                if j > k + 1 {
                    Some(j + 1)
                } else {
                    None
                }
            },
            None => None,
        }
    } else {
        None
    }
}

/// The number of parameters of a method descriptor, or `None` when `descriptor` is not
/// one.
pub fn parameter_count(descriptor: &str) -> (r: Option<usize>)
    ensures
        match parameter_count_of(descriptor@) {
            Some(c) => r == Some(c as usize) && c <= usize::MAX,
            None => r is None,
        },
{
    let n = descriptor.unicode_len();
    if n == 0 || descriptor.get_char(0) != '(' {
        return None;
    }
    let mut i: usize = 1;
    let mut count: usize = 0;
    while i < n && descriptor.get_char(i) != ')'
        invariant
            1 <= i <= n,
            n == descriptor@.len(),
            count < i,
            parameter_count_of(descriptor@) == match params_from(descriptor@, i as int) {
                Some(m) => Some((m + count) as nat),
                None => None::<nat>,
            },
        decreases n - i,
    {
        match exec_field_end(descriptor, n, i) {
            Some(j) => {
                proof {
                    lemma_field_end_after(descriptor@, i as int);
                }
                i = j;
                count = count + 1;
            },
            None => return None,
        }
    }
    if i >= n {
        return None;
    }
    // The return type.
    let ok = if i + 1 < n && descriptor.get_char(i + 1) == 'V' {
        assert(field_end(descriptor@, i + 1) is None);
        i + 2 == n
    } else {
        match exec_field_end(descriptor, n, i + 1) {
            Some(j) => {
                proof {
                    lemma_field_end_after(descriptor@, i + 1);
                }
                j == n
            },
            None => false,
        }
    };
    assert(descriptor@[i as int] == ')');
    assert(ok == return_ends(descriptor@, i + 1));
    assert(params_from(descriptor@, i as int) == if return_ends(descriptor@, i + 1) {
        Some(0nat)
    } else {
        None
    });
    if ok {
        Some(count)
    } else {
        None
    }
}

/// The value a field with the given descriptor starts with: zero of its primitive type,
/// or `null` for a reference; `None` when the descriptor does not start a field type.
pub open spec fn default_for(s: Seq<char>) -> Option<RuntimeValue> {
    if s.len() == 0 {
        None
    } else if s[0] == 'J' {
        Some(RuntimeValue::Integral(Integral { value: 0, ty: IntegralType::Long }))
    } else if s[0] == 'F' {
        Some(RuntimeValue::Floating(Floating { bits: 0, ty: FloatingType::Float }))
    } else if s[0] == 'D' {
        Some(RuntimeValue::Floating(Floating { bits: 0, ty: FloatingType::Double }))
    } else if s[0] == 'B' || s[0] == 'C' || s[0] == 'I' || s[0] == 'S' || s[0] == 'Z' {
        Some(RuntimeValue::Integral(Integral { value: 0, ty: IntegralType::Int }))
    } else if s[0] == 'L' || s[0] == '[' {
        Some(RuntimeValue::Object(None))
    } else {
        None
    }
}

/// The value a field with the given descriptor starts with.
pub fn default_for_field(descriptor: &str) -> (r: Option<RuntimeValue>)
    ensures
        r == default_for(descriptor@),
{
    if descriptor.unicode_len() == 0 {
        return None;
    }
    let c = descriptor.get_char(0);
    if c == 'J' {
        Some(RuntimeValue::Integral(Integral { value: 0, ty: IntegralType::Long }))
    } else if c == 'F' {
        Some(RuntimeValue::Floating(Floating { bits: 0, ty: FloatingType::Float }))
    } else if c == 'D' {
        Some(RuntimeValue::Floating(Floating { bits: 0, ty: FloatingType::Double }))
    } else if c == 'B' || c == 'C' || c == 'I' || c == 'S' || c == 'Z' {
        Some(RuntimeValue::Integral(Integral { value: 0, ty: IntegralType::Int }))
    } else if c == 'L' || c == '[' {
        Some(RuntimeValue::Object(None))
    } else {
        None
    }
}

} // verus!
