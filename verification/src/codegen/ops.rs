//! Constructors, arithmetic operators and dot products.
use vstd::prelude::*;
use crate::codegen::text::{int_text, push_int, push_str};

verus! {

/// How often a loop over `0..n` runs.
pub open spec fn count_of(n: int) -> nat {
    if n < 0 {
        0
    } else {
        n as nat
    }
}

/// `acc` followed by the first `n` parameters of a constructor.
pub open spec fn params_onto(acc: Seq<char>, n: nat) -> Seq<char>
    decreases n,
{
    if n == 0 {
        acc
    } else {
        params_onto(acc, (n - 1) as nat) + "v"@ + int_text(n - 1) + ": Scalar,"@
    }
}

/// `acc` followed by the first `n` values that a constructor stores.
pub open spec fn values_onto(acc: Seq<char>, n: nat) -> Seq<char>
    decreases n,
{
    if n == 0 {
        acc
    } else {
        values_onto(acc, (n - 1) as nat) + "v"@ + int_text(n - 1) + ","@
    }
}

/// The source of the constructor of a type of `n` components.
pub open spec fn constructor_text(n: int) -> Seq<char> {
    values_onto(
        params_onto("#[inline(always)] pub fn new("@, count_of(n))
            + ") -> Self { return Self{ 0: VecN::<"@
            + int_text(n)
            + ">{ v: ["@,
        count_of(n),
    ) + "] } }; }"@
}

/// Writes the constructor of a type of `num_elements` components: see
/// `constructor_text`.
pub fn gen_constructor(num_elements: i32) -> (out_src: String)
    ensures
        out_src@ == constructor_text(num_elements as int),
{
    let mut out_src: String = "#[inline(always)] pub fn new(".to_owned();
    let ghost base = out_src@;
    let mut element: i32 = 0;
    while element < num_elements
        invariant
            0 <= element <= count_of(num_elements as int),
            out_src@ == params_onto(base, element as nat),
        decreases num_elements - element,
    {
        push_str(&mut out_src, "v");
        push_int(&mut out_src, element);
        push_str(&mut out_src, ": Scalar,");
        element = element + 1;
    }
    push_str(&mut out_src, ") -> Self { return Self{ 0: VecN::<");
    push_int(&mut out_src, num_elements);
    push_str(&mut out_src, ">{ v: [");
    let ghost base = out_src@;
    let mut element: i32 = 0;
    while element < num_elements
        invariant
            0 <= element <= count_of(num_elements as int),
            out_src@ == values_onto(base, element as nat),
        decreases num_elements - element,
    {
        push_str(&mut out_src, "v");
        push_int(&mut out_src, element);
        push_str(&mut out_src, ",");
        element = element + 1;
    }
    push_str(&mut out_src, "] } }; }");
    out_src
}

/// `acc` followed by the first `n` components of `a` and `b` joined by the operator.
pub open spec fn pairs_onto(acc: Seq<char>, operator: Seq<char>, n: nat) -> Seq<char>
    decreases n,
{
    if n == 0 {
        acc
    } else {
        pairs_onto(acc, operator, (n - 1) as nat)
            + "a.0.v["@
            + int_text(n - 1)
            + "]"@
            + operator
            + "b.0.v["@
            + int_text(n - 1)
            + "],"@
    }
}

/// The source of a value whose components are those of `a` and `b` joined by the operator.
pub open spec fn elementwise_text(
    return_type: Seq<char>,
    n: int,
    operator: Seq<char>,
) -> Seq<char> {
    pairs_onto(return_type + "{ 0: VecN::<"@ + int_text(n) + "> { v: ["@, operator, count_of(n))
        + "] } }"@
}

/// Writes the value of an operator between two vectors, component by
/// component: see `elementwise_text`.
pub fn gen_elementwise(return_type: &str, num_elements: i32, operator: &str) -> (out_src: String)
    ensures
        out_src@ == elementwise_text(return_type@, num_elements as int, operator@),
{
    let mut out_src: String = return_type.to_owned();
    push_str(&mut out_src, "{ 0: VecN::<");
    push_int(&mut out_src, num_elements);
    push_str(&mut out_src, "> { v: [");
    let ghost base = out_src@;
    let mut element: i32 = 0;
    while element < num_elements
        invariant
            0 <= element <= count_of(num_elements as int),
            out_src@ == pairs_onto(base, operator@, element as nat),
        decreases num_elements - element,
    {
        push_str(&mut out_src, "a.0.v[");
        push_int(&mut out_src, element);
        push_str(&mut out_src, "]");
        push_str(&mut out_src, operator);
        push_str(&mut out_src, "b.0.v[");
        push_int(&mut out_src, element);
        push_str(&mut out_src, "],");
        element = element + 1;
    }
    push_str(&mut out_src, "] } }");
    out_src
}

/// `acc` followed by the first `n` components of `a`, each joined with `b` on its right.
pub open spec fn rights_onto(acc: Seq<char>, operator: Seq<char>, n: nat) -> Seq<char>
    decreases n,
{
    if n == 0 {
        acc
    } else {
        rights_onto(acc, operator, (n - 1) as nat)
            + "a.0.v["@
            + int_text(n - 1)
            + "]"@
            + operator
            + "b,"@
    }
}

/// The source of a value whose components are those of `a` joined with the scalar `b` on the right.
pub open spec fn scalar_right_text(
    return_type: Seq<char>,
    n: int,
    operator: Seq<char>,
) -> Seq<char> {
    rights_onto(return_type + "{ 0: VecN::<"@ + int_text(n) + "> { v: ["@, operator, count_of(n))
        + "] } }"@
}

/// Writes the value of an operator between a vector and a scalar on its
/// right: see `scalar_right_text`.
pub fn gen_scalar_right(return_type: &str, num_elements: i32, operator: &str) -> (out_src: String)
    ensures
        out_src@ == scalar_right_text(return_type@, num_elements as int, operator@),
{
    let mut out_src: String = return_type.to_owned();
    push_str(&mut out_src, "{ 0: VecN::<");
    push_int(&mut out_src, num_elements);
    push_str(&mut out_src, "> { v: [");
    let ghost base = out_src@;
    let mut element: i32 = 0;
    while element < num_elements
        invariant
            0 <= element <= count_of(num_elements as int),
            out_src@ == rights_onto(base, operator@, element as nat),
        decreases num_elements - element,
    {
        push_str(&mut out_src, "a.0.v[");
        push_int(&mut out_src, element);
        push_str(&mut out_src, "]");
        push_str(&mut out_src, operator);
        push_str(&mut out_src, "b,");
        element = element + 1;
    }
    push_str(&mut out_src, "] } }");
    out_src
}

/// `acc` followed by the first `n` components of `b`, each joined with `a` on its left.
pub open spec fn lefts_onto(acc: Seq<char>, operator: Seq<char>, n: nat) -> Seq<char>
    decreases n,
{
    if n == 0 {
        acc
    } else {
        lefts_onto(acc, operator, (n - 1) as nat)
            + "a"@
            + operator
            + "b.0.v["@
            + int_text(n - 1)
            + "],"@
    }
}

/// The source of a value whose components are those of `b` joined with the scalar `a` on the left.
pub open spec fn scalar_left_text(
    return_type: Seq<char>,
    n: int,
    operator: Seq<char>,
) -> Seq<char> {
    lefts_onto(return_type + "{ 0: VecN::<"@ + int_text(n) + "> { v: ["@, operator, count_of(n))
        + "] } }"@
}

/// Writes the value of an operator between a scalar on the left and a
/// vector: see `scalar_left_text`.
pub fn gen_scalar_left(return_type: &str, num_elements: i32, operator: &str) -> (out_src: String)
    ensures
        out_src@ == scalar_left_text(return_type@, num_elements as int, operator@),
{
    let mut out_src: String = return_type.to_owned();
    push_str(&mut out_src, "{ 0: VecN::<");
    push_int(&mut out_src, num_elements);
    push_str(&mut out_src, "> { v: [");
    let ghost base = out_src@;
    let mut element: i32 = 0;
    while element < num_elements
        invariant
            0 <= element <= count_of(num_elements as int),
            out_src@ == lefts_onto(base, operator@, element as nat),
        decreases num_elements - element,
    {
        push_str(&mut out_src, "a");
        push_str(&mut out_src, operator);
        push_str(&mut out_src, "b.0.v[");
        push_int(&mut out_src, element);
        push_str(&mut out_src, "],");
        element = element + 1;
    }
    push_str(&mut out_src, "] } }");
    out_src
}

/// `acc` followed by the line of an operator between an `lhs` and an `rhs`
/// whose value the generator `gen` writes.
pub open spec fn op_line_onto(
    acc: Seq<char>,
    implementer: Seq<char>,
    operator: Seq<char>,
    lhs: Seq<char>,
    rhs: Seq<char>,
    return_type: Seq<char>,
    n: int,
    gen: Seq<char>,
) -> Seq<char> {
    acc
        + "\n        "@
        + implementer
        + "!("@
        + operator
        + " |a: "@
        + lhs
        + ", b: "@
        + rhs
        + "| -> "@
        + return_type
        + " { "@
        + gen
        + "!("@
        + return_type
        + " "@
        + int_text(n)
        + " "@
        + operator
        + ") });"@
}

/// `acc` followed by the line of the assigning form of an operator.
pub open spec fn assign_line_onto(
    acc: Seq<char>,
    operator: Seq<char>,
    return_type: Seq<char>,
    rhs: Seq<char>,
) -> Seq<char> {
    acc
        + "\n        impl_op_ex!("@
        + operator
        + "= |a: &mut "@
        + return_type
        + ", b: "@
        + rhs
        + "| { *a = *a "@
        + operator
        + " b });"@
}

fn push_op_line(
    out: &mut String,
    implementer: &str,
    operator: &str,
    lhs: &str,
    rhs: &str,
    return_type: &str,
    num_elements: i32,
    gen: &str,
)
    ensures
        final(out)@ == op_line_onto(
            old(out)@,
            implementer@,
            operator@,
            lhs@,
            rhs@,
            return_type@,
            num_elements as int,
            gen@,
        ),
{
    push_str(out, "\n        ");
    push_str(out, implementer);
    push_str(out, "!(");
    push_str(out, operator);
    push_str(out, " |a: ");
    push_str(out, lhs);
    push_str(out, ", b: ");
    push_str(out, rhs);
    push_str(out, "| -> ");
    push_str(out, return_type);
    push_str(out, " { ");
    push_str(out, gen);
    push_str(out, "!(");
    push_str(out, return_type);
    push_str(out, " ");
    push_int(out, num_elements);
    push_str(out, " ");
    push_str(out, operator);
    push_str(out, ") });");
}

fn push_assign_line(out: &mut String, operator: &str, return_type: &str, rhs: &str)
    ensures
        final(out)@ == assign_line_onto(old(out)@, operator@, return_type@, rhs@),
{
    push_str(out, "\n        impl_op_ex!(");
    push_str(out, operator);
    push_str(out, "= |a: &mut ");
    push_str(out, return_type);
    push_str(out, ", b: ");
    push_str(out, rhs);
    push_str(out, "| { *a = *a ");
    push_str(out, operator);
    push_str(out, " b });");
}

/// The source of the arithmetic operators of a type of `n` components: the
/// four operators between two values of the type and between a value and a
/// scalar, each with its assigning form, and the negation.
pub open spec fn basic_ops_text(return_type: Seq<char>, n: int) -> Seq<char> {
    let s = Seq::<char>::empty();
    let s = op_line_onto(
        s,
        "impl_op_ex"@,
        "+"@,
        return_type,
        return_type,
        return_type,
        n,
        "gen_elementwise"@,
    );
    let s = assign_line_onto(s, "+"@, return_type, return_type);
    let s = op_line_onto(
        s,
        "impl_op_ex"@,
        "*"@,
        return_type,
        return_type,
        return_type,
        n,
        "gen_elementwise"@,
    );
    let s = assign_line_onto(s, "*"@, return_type, return_type);
    let s = op_line_onto(
        s,
        "impl_op_ex"@,
        "-"@,
        return_type,
        return_type,
        return_type,
        n,
        "gen_elementwise"@,
    );
    let s = assign_line_onto(s, "-"@, return_type, return_type);
    let s = op_line_onto(
        s,
        "impl_op_ex"@,
        "/"@,
        return_type,
        return_type,
        return_type,
        n,
        "gen_elementwise"@,
    );
    let s = assign_line_onto(s, "/"@, return_type, return_type);
    let s = op_line_onto(
        s,
        "impl_op_ex_commutative"@,
        "+"@,
        return_type,
        "Scalar"@,
        return_type,
        n,
        "gen_scalar_right"@,
    );
    let s = assign_line_onto(s, "+"@, return_type, "Scalar"@);
    let s = op_line_onto(
        s,
        "impl_op_ex_commutative"@,
        "*"@,
        return_type,
        "Scalar"@,
        return_type,
        n,
        "gen_scalar_right"@,
    );
    let s = assign_line_onto(s, "*"@, return_type, "Scalar"@);
    let s = op_line_onto(
        s,
        "impl_op_ex"@,
        "-"@,
        return_type,
        "Scalar"@,
        return_type,
        n,
        "gen_scalar_right"@,
    );
    let s = op_line_onto(
        s,
        "impl_op_ex"@,
        "-"@,
        "Scalar"@,
        return_type,
        return_type,
        n,
        "gen_scalar_left"@,
    );
    let s = assign_line_onto(s, "-"@, return_type, "Scalar"@);
    let s = op_line_onto(
        s,
        "impl_op_ex"@,
        "/"@,
        return_type,
        "Scalar"@,
        return_type,
        n,
        "gen_scalar_right"@,
    );
    let s = op_line_onto(
        s,
        "impl_op_ex"@,
        "/"@,
        "Scalar"@,
        return_type,
        return_type,
        n,
        "gen_scalar_left"@,
    );
    let s = assign_line_onto(s, "/"@, return_type, "Scalar"@);
    s + "\n"@ + "        impl_op_ex!(- |a: "@ + return_type + "| -> "@ + return_type
        + " { return 0"@ + ".0 - a; });\n"@ + "    "@
}

/// Writes the arithmetic operators of a type: see `basic_ops_text`.
pub fn gen_basic_ops(return_type: &str, num_elements: i32) -> (out_src: String)
    ensures
        out_src@ == basic_ops_text(return_type@, num_elements as int),
{
    let mut out_src = String::new();
    push_op_line(
        &mut out_src,
        "impl_op_ex",
        "+",
        return_type,
        return_type,
        return_type,
        num_elements,
        "gen_elementwise",
    );
    push_assign_line(&mut out_src, "+", return_type, return_type);
    push_op_line(
        &mut out_src,
        "impl_op_ex",
        "*",
        return_type,
        return_type,
        return_type,
        num_elements,
        "gen_elementwise",
    );
    push_assign_line(&mut out_src, "*", return_type, return_type);
    push_op_line(
        &mut out_src,
        "impl_op_ex",
        "-",
        return_type,
        return_type,
        return_type,
        num_elements,
        "gen_elementwise",
    );
    push_assign_line(&mut out_src, "-", return_type, return_type);
    push_op_line(
        &mut out_src,
        "impl_op_ex",
        "/",
        return_type,
        return_type,
        return_type,
        num_elements,
        "gen_elementwise",
    );
    push_assign_line(&mut out_src, "/", return_type, return_type);
    push_op_line(
        &mut out_src,
        "impl_op_ex_commutative",
        "+",
        return_type,
        "Scalar",
        return_type,
        num_elements,
        "gen_scalar_right",
    );
    push_assign_line(&mut out_src, "+", return_type, "Scalar");
    push_op_line(
        &mut out_src,
        "impl_op_ex_commutative",
        "*",
        return_type,
        "Scalar",
        return_type,
        num_elements,
        "gen_scalar_right",
    );
    push_assign_line(&mut out_src, "*", return_type, "Scalar");
    push_op_line(
        &mut out_src,
        "impl_op_ex",
        "-",
        return_type,
        "Scalar",
        return_type,
        num_elements,
        "gen_scalar_right",
    );
    push_op_line(
        &mut out_src,
        "impl_op_ex",
        "-",
        "Scalar",
        return_type,
        return_type,
        num_elements,
        "gen_scalar_left",
    );
    push_assign_line(&mut out_src, "-", return_type, "Scalar");
    push_op_line(
        &mut out_src,
        "impl_op_ex",
        "/",
        return_type,
        "Scalar",
        return_type,
        num_elements,
        "gen_scalar_right",
    );
    push_op_line(
        &mut out_src,
        "impl_op_ex",
        "/",
        "Scalar",
        return_type,
        return_type,
        num_elements,
        "gen_scalar_left",
    );
    push_assign_line(&mut out_src, "/", return_type, "Scalar");
    push_str(&mut out_src, "\n");
    push_str(&mut out_src, "        impl_op_ex!(- |a: ");
    push_str(&mut out_src, return_type);
    push_str(&mut out_src, "| -> ");
    push_str(&mut out_src, return_type);
    push_str(&mut out_src, " { return 0");
    push_str(&mut out_src, ".0 - a; });\n");
    push_str(&mut out_src, "    ");
    out_src
}

/// `acc` followed by the first `n` products of the components of `self` and
/// `other`, with a plus sign after each but the last of all `total`.
pub open spec fn products_onto(acc: Seq<char>, total: int, n: nat) -> Seq<char>
    decreases n,
{
    if n == 0 {
        acc
    } else {
        let with = products_onto(acc, total, (n - 1) as nat)
            + "self.0.v["@
            + int_text(n - 1)
            + "] * other.0.v["@
            + int_text(n - 1) + "]"@;
        if n - 1 != total - 1 {
            with + " + "@
        } else {
            with
        }
    }
}

/// The source of the dot product of a type of `n` components, of the
/// operator that stands for it, and of the length and the normalized form
/// that rest on it.
pub open spec fn dot_norm_text(this_type: Seq<char>, n: int) -> Seq<char> {
    products_onto("impl Dot<"@ + this_type + "> for "@ + this_type + " { fn dot(&self, other: "@
        + this_type
            + ") -> Scalar { return "@, n, count_of(
                n,
            )) + "; } } impl_op_ex!(& |a: "@ + this_type + ", b: "@ + this_type
        + "| -> Scalar { return a.dot(b); });"@
            + "\n"@
            + "    impl "@
            + this_type
            + " {\n"@
            + "        #[inline(always)]\n"@
        + "        pub fn length(&self) -> Scalar {\n"@
        + "            return (*self).dot(*self).sqrt();\n"@ + "        }\n"@ + "        \n"@
        + "        #[inline(always)]\n"@ + "        pub fn normalized(&self) -> "@ + this_type
        + " {\n"@ + "            return *self / self.length();\n"@ + "        }\n"@ + "    }\n"@
        + "    "@
}

/// Writes the dot product of a type and what rests on it: see
/// `dot_norm_text`.
pub fn gen_dot_norm(this_type: &str, num_elements: i32) -> (out_src: String)
    ensures
        out_src@ == dot_norm_text(this_type@, num_elements as int),
{
    let mut out_src: String = "impl Dot<".to_owned();
    push_str(&mut out_src, this_type);
    push_str(&mut out_src, "> for ");
    push_str(&mut out_src, this_type);
    push_str(&mut out_src, " { fn dot(&self, other: ");
    push_str(&mut out_src, this_type);
    push_str(&mut out_src, ") -> Scalar { return ");
    let ghost base = out_src@;
    let mut element: i32 = 0;
    while element < num_elements
        invariant
            0 <= element <= count_of(num_elements as int),
            out_src@ == products_onto(base, num_elements as int, element as nat),
        decreases num_elements - element,
    {
        push_str(&mut out_src, "self.0.v[");
        push_int(&mut out_src, element);
        push_str(&mut out_src, "] * other.0.v[");
        push_int(&mut out_src, element);
        push_str(&mut out_src, "]");
        if element != num_elements - 1 {
            push_str(&mut out_src, " + ");
        }
        element = element + 1;
    }
    push_str(&mut out_src, "; } } impl_op_ex!(& |a: ");
    push_str(&mut out_src, this_type);
    push_str(&mut out_src, ", b: ");
    push_str(&mut out_src, this_type);
    push_str(&mut out_src, "| -> Scalar { return a.dot(b); });");
    push_str(&mut out_src, "\n");
    push_str(&mut out_src, "    impl ");
    push_str(&mut out_src, this_type);
    push_str(&mut out_src, " {\n");
    push_str(&mut out_src, "        #[inline(always)]\n");
    push_str(&mut out_src, "        pub fn length(&self) -> Scalar {\n");
    push_str(&mut out_src, "            return (*self).dot(*self).sqrt();\n");
    push_str(&mut out_src, "        }\n");
    push_str(&mut out_src, "        \n");
    push_str(&mut out_src, "        #[inline(always)]\n");
    push_str(&mut out_src, "        pub fn normalized(&self) -> ");
    push_str(&mut out_src, this_type);
    push_str(&mut out_src, " {\n");
    push_str(&mut out_src, "            return *self / self.length();\n");
    push_str(&mut out_src, "        }\n");
    push_str(&mut out_src, "    }\n");
    push_str(&mut out_src, "    ");
    out_src
}

} // verus!
