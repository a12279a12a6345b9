//! Accessors and setters named by swizzle letters.
use vstd::prelude::*;
use vstd::string::StrSliceExecFns;
use crate::codegen::text::{decimal_text, push_char, push_decimal, push_str};

verus! {

/// The component that a swizzle letter stands for: `x`, `r`, `u` for the
/// first, `y`, `g`, `v` for the second, `z`, `b` for the third, `w`, `a`
/// for the fourth. `None` for every other character.
pub open spec fn component_of(c: char) -> Option<nat> {
    if c == 'x' || c == 'r' || c == 'u' {
        Some(0)
    } else if c == 'y' || c == 'g' || c == 'v' {
        Some(1)
    } else if c == 'z' || c == 'b' {
        Some(2)
    } else if c == 'w' || c == 'a' {
        Some(3)
    } else {
        None
    }
}

/// Whether every character of `name` is a swizzle letter.
pub open spec fn all_letters(name: Seq<char>) -> bool {
    forall|i: int| 0 <= i < name.len() ==> (#[trigger] component_of(name[i])) is Some
}

/// The component that a swizzle letter stands for: see `component_of`.
pub fn component_index(c: char) -> (index: Option<usize>)
    ensures
        match index {
            Some(k) => component_of(c) == Some(k as nat),
            None => component_of(c) is None,
        },
{
    if c == 'x' || c == 'r' || c == 'u' {
        Some(0)
    } else if c == 'y' || c == 'g' || c == 'v' {
        Some(1)
    } else if c == 'z' || c == 'b' {
        Some(2)
    } else if c == 'w' || c == 'a' {
        Some(3)
    } else {
        None
    }
}

/// `acc` followed by the reads of the components that the first `n` letters
/// of `name` stand for, each with a comma after it.
pub open spec fn reads_onto(acc: Seq<char>, name: Seq<char>, n: nat) -> Seq<char>
    decreases n,
{
    if n == 0 {
        acc
    } else {
        reads_onto(acc, name, (n - 1) as nat) + "self.0.v["@ + decimal_text(
            component_of(name[n - 1]).unwrap(),
        ) + "], "@
    }
}

/// The source of the accessor that the swizzle `name` stands for. A single
/// letter reads one component as a scalar; more letters, or none, make a
/// vector of as many components.
pub open spec fn swizz_text(name: Seq<char>) -> Seq<char> {
    let head = "#[inline(always)] pub fn "@ + name;
    if name.len() == 1 {
        head + "(&self) -> Scalar { return "@ + "self.0.v["@ + decimal_text(
            component_of(name[0]).unwrap(),
        ) + "]; }"@
    } else {
        reads_onto(
            head + "(&self) -> Vec"@ + decimal_text(name.len()) + "{ return "@ + "Vec"@
                + decimal_text(name.len()) + " { 0: VecN::<"@ + decimal_text(name.len())
                + "> { v: ["@,
            name,
            name.len(),
        ) + "] } }; }"@
    }
}

/// `acc` followed by the writes to the components that the first `n` letters
/// of `name` stand for, each from the component of `v` at the letter's place.
pub open spec fn writes_onto(acc: Seq<char>, name: Seq<char>, n: nat) -> Seq<char>
    decreases n,
{
    if n == 0 {
        acc
    } else {
        writes_onto(acc, name, (n - 1) as nat) + "self.0.v["@ + decimal_text(
            component_of(name[n - 1]).unwrap(),
        ) + "] = v.0.v["@ + decimal_text((n - 1) as nat) + "];"@
    }
}

/// The source of the setter that the swizzle `name` stands for.
pub open spec fn swizz_assign_text(name: Seq<char>) -> Seq<char> {
    let head = "#[inline(always)] pub fn set_"@ + name;
    if name.len() == 1 {
        head + "(&mut self, v: Scalar) {"@ + "self.0.v["@ + decimal_text(
            component_of(name[0]).unwrap(),
        ) + "] = v; }"@
    } else {
        writes_onto(
            head + "(&mut self, v: Vec"@ + decimal_text(name.len()) + ") {"@,
            name,
            name.len(),
        ) + "}"@
    }
}

/// Writes the accessor of a swizzle: see `swizz_text`. `None` where a
/// character of the name is no swizzle letter.
pub fn gen_swizz(in_str: &str) -> (out: Option<String>)
    ensures
        out is Some <==> all_letters(in_str@),
        out matches Some(src) ==> src@ == swizz_text(in_str@),
{
    let count = in_str.unicode_len();
    let mut out_src = String::new();
    push_str(&mut out_src, "#[inline(always)] pub fn ");
    push_str(&mut out_src, in_str);
    if count == 1 {
        push_str(&mut out_src, "(&self) -> Scalar { return ");
        match component_index(in_str.get_char(0)) {
            Some(k) => {
                push_str(&mut out_src, "self.0.v[");
                push_decimal(&mut out_src, k as u64);
                push_str(&mut out_src, "]; }");
            },
            None => {
                assert(component_of(in_str@[0]) is None);
                return None;
            },
        }
    } else {
        push_str(&mut out_src, "(&self) -> Vec");
        push_decimal(&mut out_src, count as u64);
        push_str(&mut out_src, "{ return ");
        push_str(&mut out_src, "Vec");
        push_decimal(&mut out_src, count as u64);
        push_str(&mut out_src, " { 0: VecN::<");
        push_decimal(&mut out_src, count as u64);
        push_str(&mut out_src, "> { v: [");
        let ghost base = out_src@;
        let mut i: usize = 0;
        while i < count
            invariant
                i <= count,
                count == in_str@.len(),
                forall|j: int| 0 <= j < i ==> (#[trigger] component_of(in_str@[j])) is Some,
                out_src@ == reads_onto(base, in_str@, i as nat),
            decreases count - i,
        {
            match component_index(in_str.get_char(i)) {
                Some(k) => {
                    push_str(&mut out_src, "self.0.v[");
                    push_decimal(&mut out_src, k as u64);
                    push_str(&mut out_src, "], ");
                },
                None => {
                    assert(component_of(in_str@[i as int]) is None);
                    return None;
                },
            }
            i = i + 1;
        }
        push_str(&mut out_src, "] } }; }");
    }
    Some(out_src)
}

/// Writes the setter of a swizzle: see `swizz_assign_text`. `None` where a
/// character of the name is no swizzle letter.
pub fn gen_swizz_assign(in_str: &str) -> (out: Option<String>)
    ensures
        out is Some <==> all_letters(in_str@),
        out matches Some(src) ==> src@ == swizz_assign_text(in_str@),
{
    let count = in_str.unicode_len();
    let mut out_src = String::new();
    push_str(&mut out_src, "#[inline(always)] pub fn set_");
    push_str(&mut out_src, in_str);
    if count == 1 {
        push_str(&mut out_src, "(&mut self, v: Scalar) {");
        match component_index(in_str.get_char(0)) {
            Some(k) => {
                push_str(&mut out_src, "self.0.v[");
                push_decimal(&mut out_src, k as u64);
                push_str(&mut out_src, "] = v; }");
            },
            None => {
                assert(component_of(in_str@[0]) is None);
                return None;
            },
        }
    } else {
        push_str(&mut out_src, "(&mut self, v: Vec");
        push_decimal(&mut out_src, count as u64);
        push_str(&mut out_src, ") {");
        let ghost base = out_src@;
        let mut i: usize = 0;
        while i < count
            invariant
                i <= count,
                count == in_str@.len(),
                forall|j: int| 0 <= j < i ==> (#[trigger] component_of(in_str@[j])) is Some,
                out_src@ == writes_onto(base, in_str@, i as nat),
            decreases count - i,
        {
            match component_index(in_str.get_char(i)) {
                Some(k) => {
                    push_str(&mut out_src, "self.0.v[");
                    push_decimal(&mut out_src, k as u64);
                    push_str(&mut out_src, "] = v.0.v[");
                    push_decimal(&mut out_src, i as u64);
                    push_str(&mut out_src, "];");
                },
                None => {
                    assert(component_of(in_str@[i as int]) is None);
                    return None;
                },
            }
            i = i + 1;
        }
        push_str(&mut out_src, "}");
    }
    Some(out_src)
}

} // verus!
