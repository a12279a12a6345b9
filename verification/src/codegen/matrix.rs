//! Element access, transposition, display and products of matrices.
use vstd::prelude::*;
use vstd::string::StrSliceExecFns;
use crate::codegen::ops::count_of;
use crate::codegen::text::{int_text, push_int, push_str};

verus! {

/// The source of the accessor and of the setter of the elements of a matrix
/// with `num_cols` columns, which holds its rows one after the other.
pub open spec fn mat_access_text(num_cols: int) -> Seq<char> {
    "\n"@
        + "        #[inline(always)] pub fn m(&self, row: usize, col: usize) -> Scalar {\n"@
        + "            return self.0.v[row * "@ + int_text(num_cols) + " + col];\n"@
        + "        }\n"@ + "\n"@
        + "        #[inline(always)] pub fn set_m(&mut self, row: usize, col: usize, to: Scalar) {\n"@
        + "            self.0.v[row * "@ + int_text(num_cols) + " + col] = to;\n"@
        + "        }\n"@ + "    "@
}

/// Writes the accessor and the setter of the elements of a matrix: see
/// `mat_access_text`.
pub fn gen_mat_access(num_cols: i32) -> (out_src: String)
    ensures
        out_src@ == mat_access_text(num_cols as int),
{
    let mut out_src: String = "\n".to_owned();
    push_str(
        &mut out_src,
        "        #[inline(always)] pub fn m(&self, row: usize, col: usize) -> Scalar {\n",
    );
    push_str(&mut out_src, "            return self.0.v[row * ");
    push_int(&mut out_src, num_cols);
    push_str(&mut out_src, " + col];\n");
    push_str(&mut out_src, "        }\n");
    push_str(&mut out_src, "\n");
    push_str(
        &mut out_src,
        "        #[inline(always)] pub fn set_m(&mut self, row: usize, col: usize, to: Scalar) {\n",
    );
    push_str(&mut out_src, "            self.0.v[row * ");
    push_int(&mut out_src, num_cols);
    push_str(&mut out_src, " + col] = to;\n");
    push_str(&mut out_src, "        }\n");
    push_str(&mut out_src, "    ");
    out_src
}

/// `acc` followed by the first `n` elements of column `i` of `self`.
pub open spec fn column_onto(acc: Seq<char>, i: int, n: nat) -> Seq<char>
    decreases n,
{
    if n == 0 {
        acc
    } else {
        column_onto(acc, i, (n - 1) as nat) + "self.m("@ + int_text(n - 1) + ", "@ + int_text(i)
            + "),"@
    }
}

/// `acc` followed by the first `n` columns of `self`, each `len` long.
pub open spec fn columns_onto(acc: Seq<char>, len: nat, n: nat) -> Seq<char>
    decreases n,
{
    if n == 0 {
        acc
    } else {
        column_onto(columns_onto(acc, len, (n - 1) as nat), n - 1, len)
    }
}

/// The source of the transposition of a matrix into a `return_type`: its
/// value is made of the elements `m(j, i)` for `i` below `num_rows` and, for
/// each `i`, `j` below `num_cols`.
pub open spec fn mat_utils_text(return_type: Seq<char>, num_rows: int, num_cols: int) -> Seq<char> {
    columns_onto(
        "pub fn t(&self) -> "@ + return_type + " { return "@ + return_type + "::new("@,
        count_of(num_cols),
        count_of(num_rows),
    ) + "); }"@
}

/// Writes the transposition of a matrix: see `mat_utils_text`.
pub fn gen_mat_utils(return_type: &str, num_rows: i32, num_cols: i32) -> (out_src: String)
    ensures
        out_src@ == mat_utils_text(return_type@, num_rows as int, num_cols as int),
{
    let mut out_src: String = "pub fn t(&self) -> ".to_owned();
    push_str(&mut out_src, return_type);
    push_str(&mut out_src, " { return ");
    push_str(&mut out_src, return_type);
    push_str(&mut out_src, "::new(");
    let ghost base = out_src@;
    let ghost len = count_of(num_cols as int);
    let mut i: i32 = 0;
    while i < num_rows
        invariant
            0 <= i <= count_of(num_rows as int),
            len == count_of(num_cols as int),
            out_src@ == columns_onto(base, len, i as nat),
        decreases num_rows - i,
    {
        let ghost start = out_src@;
        let mut j: i32 = 0;
        while j < num_cols
            invariant
                0 <= j <= count_of(num_cols as int),
                out_src@ == column_onto(start, i as int, j as nat),
            decreases num_cols - j,
        {
            push_str(&mut out_src, "self.m(");
            push_int(&mut out_src, j);
            push_str(&mut out_src, ", ");
            push_int(&mut out_src, i);
            push_str(&mut out_src, "),");
            j = j + 1;
        }
        i = i + 1;
    }
    push_str(&mut out_src, "); }");
    out_src
}

/// `acc` followed by the writes of the first `n` elements of row `i`.
pub open spec fn shown_row_onto(acc: Seq<char>, i: int, n: nat) -> Seq<char>
    decreases n,
{
    if n == 0 {
        acc
    } else {
        shown_row_onto(acc, i, (n - 1) as nat)
            + "write!(f, \"{}, \", self.m("@
            + int_text(i)
            + ", "@
            + int_text(
            n - 1,
        ) + "))?;"@
    }
}

/// `acc` followed by the writes of the first `n` rows, each `len` long and
/// each on a line of its own.
pub open spec fn shown_rows_onto(acc: Seq<char>, len: nat, n: nat) -> Seq<char>
    decreases n,
{
    if n == 0 {
        acc
    } else {
        shown_row_onto(
            shown_rows_onto(acc, len, (n - 1) as nat) + "write!(f, \"\\n  \")?;"@,
            n - 1,
            len,
        )
    }
}

/// The source of the display of a matrix of `num_rows` by `num_cols`: the
/// name of the type, then the rows, each on a line of its own, in braces.
pub open spec fn display_text(disp_type: Seq<char>, num_rows: int, num_cols: int) -> Seq<char> {
    shown_rows_onto(
        "impl fmt::Display for "@
            + disp_type
            + " { fn fmt(&self, f: &mut fmt::Formatter) -> fmt::Result {"@
            + "write!(f, \""@
            + disp_type
            + " {{\")?;"@,
        count_of(num_cols),
        count_of(num_rows),
    ) + "write!(f, \"\\n}}\")?;"@ + "return Ok(()); } }"@
}

/// Writes the display of a matrix: see `display_text`.
pub fn gen_display(disp_type: &str, num_rows: i32, num_cols: i32) -> (out_src: String)
    ensures
        out_src@ == display_text(disp_type@, num_rows as int, num_cols as int),
{
    let mut out_src: String = "impl fmt::Display for ".to_owned();
    push_str(&mut out_src, disp_type);
    push_str(&mut out_src, " { fn fmt(&self, f: &mut fmt::Formatter) -> fmt::Result {");
    push_str(&mut out_src, "write!(f, \"");
    push_str(&mut out_src, disp_type);
    push_str(&mut out_src, " {{\")?;");
    let ghost base = out_src@;
    let ghost len = count_of(num_cols as int);
    let mut i: i32 = 0;
    while i < num_rows
        invariant
            0 <= i <= count_of(num_rows as int),
            len == count_of(num_cols as int),
            out_src@ == shown_rows_onto(base, len, i as nat),
        decreases num_rows - i,
    {
        push_str(&mut out_src, "write!(f, \"\\n  \")?;");
        let ghost start = out_src@;
        let mut j: i32 = 0;
        while j < num_cols
            invariant
                0 <= j <= count_of(num_cols as int),
                out_src@ == shown_row_onto(start, i as int, j as nat),
            decreases num_cols - j,
        {
            push_str(&mut out_src, "write!(f, \"{}, \", self.m(");
            push_int(&mut out_src, i);
            push_str(&mut out_src, ", ");
            push_int(&mut out_src, j);
            push_str(&mut out_src, "))?;");
            j = j + 1;
        }
        i = i + 1;
    }
    push_str(&mut out_src, "write!(f, \"\\n}}\")?;");
    push_str(&mut out_src, "return Ok(()); } }");
    out_src
}

/// `acc` followed by the first `n` products of the sum that is the element
/// in row `i` and column `j` of the product of two matrices, with a plus
/// sign after each but the last of all `total`. Where `transpose` holds,
/// the sum runs over row `i` of `other` and row `j` of `self`.
pub open spec fn terms_onto(
    acc: Seq<char>,
    transpose: bool,
    i: int,
    j: int,
    total: int,
    n: nat,
) -> Seq<
    char,
>
    decreases n,
{
    if n == 0 {
        acc
    } else {
        let k = n - 1;
        let before = terms_onto(acc, transpose, i, j, total, (n - 1) as nat);
        let with = if !transpose {
            before
                + "self.m("@
                + int_text(i)
                + ", "@
                + int_text(k)
                + ") * other.m("@
                + int_text(k)
                + ", "@
                + int_text(j) + ")"@
        } else {
            before + "other.m("@ + int_text(i) + ", "@ + int_text(k) + ") * self.m("@ + int_text(j)
                + ", "@ + int_text(k) + ")"@
        };
        if k != total - 1 {
            with + " + "@
        } else {
            with
        }
    }
}

/// `acc` followed by the first `n` elements of row `i` of the product, each
/// a sum of `inner` products.
pub open spec fn sums_onto(acc: Seq<char>, transpose: bool, i: int, inner: int, n: nat) -> Seq<char>
    decreases n,
{
    if n == 0 {
        acc
    } else {
        terms_onto(
            sums_onto(acc, transpose, i, inner, (n - 1) as nat),
            transpose,
            i,
            n - 1,
            inner,
            count_of(inner),
        ) + ", "@
    }
}

/// `acc` followed by the first `n` rows of the product, each `cols` long.
pub open spec fn product_rows_onto(
    acc: Seq<char>,
    transpose: bool,
    inner: int,
    cols: nat,
    n: nat,
) -> Seq<
    char,
>
    decreases n,
{
    if n == 0 {
        acc
    } else {
        sums_onto(
            product_rows_onto(acc, transpose, inner, cols, (n - 1) as nat),
            transpose,
            n - 1,
            inner,
            cols,
        )
    }
}

/// The source of the matrix product of a `this_type` with an `other_type`,
/// of the operator that stands for it, and, where the product is a
/// `this_type` again, of the assigning form of that operator.
pub open spec fn mat_mul_text(
    this_type: Seq<char>,
    other_type: Seq<char>,
    return_type: Seq<char>,
    num_rows_in: int,
    num_cols_in: int,
    num_cols_out: int,
    transpose: bool,
) -> Seq<char> {
    let body = product_rows_onto(
        "impl MatMul<"@ + other_type + ", "@ + return_type + "> for "@ + this_type + " { "@
        + "fn matmul(&self, other: "@ + other_type + ") -> "@ + return_type + " { return "@
        + return_type + "::new("@,
        transpose,
        num_cols_in,
        count_of(num_cols_out),
        count_of(num_rows_in),
    ) + "); } }"@ + "impl_op_ex!(| |a: "@ + this_type + ", b: "@ + other_type + "| -> "@
        + return_type
        + " { return a.matmul(b); });"@;
    if this_type == return_type {
        body
            + "impl_op_ex!(|= |a: &mut "@
            + this_type
            + ", b: "@
            + other_type
            + "| { *a = *a | b });"@
    } else {
        body
    }
}

/// Whether two texts are the same.
pub fn same_text(a: &str, b: &str) -> (same: bool)
    ensures
        same == (a@ == b@),
{
    let len = a.unicode_len();
    if len != b.unicode_len() {
        return false;
    }
    let mut i: usize = 0;
    while i < len
        invariant
            i <= len,
            len == a@.len(),
            len == b@.len(),
            forall|j: int| 0 <= j < i ==> a@[j] == b@[j],
        decreases len - i,
    {
        if a.get_char(i) != b.get_char(i) {
            return false;
        }
        i = i + 1;
    }
    assert(a@ =~= b@);
    true
}

/// What the last word of a request for a matrix product says: without the
/// word the product is plain, with the word `transpose` it is transposed,
/// and any other word is refused.
pub fn transpose_flag(param: Option<&str>) -> (flag: Option<bool>)
    ensures
        flag == (match param {
            None => Some(false),
            Some(word) => if word@ == "transpose"@ {
                Some(true)
            } else {
                None
            },
        }),
{
    match param {
        None => Some(false),
        Some(word) => if same_text(word, "transpose") {
            Some(true)
        } else {
            None
        },
    }
}

/// Writes the matrix product of two types: see `mat_mul_text`.
pub fn gen_mat_mul(
    this_type: &str,
    other_type: &str,
    return_type: &str,
    num_rows_in: i32,
    num_cols_in: i32,
    num_cols_out: i32,
    transpose: bool,
) -> (out_src: String)
    ensures
        out_src@ == mat_mul_text(
            this_type@,
            other_type@,
            return_type@,
            num_rows_in as int,
            num_cols_in as int,
            num_cols_out as int,
            transpose,
        ),
{
    let mut out_src: String = "impl MatMul<".to_owned();
    push_str(&mut out_src, other_type);
    push_str(&mut out_src, ", ");
    push_str(&mut out_src, return_type);
    push_str(&mut out_src, "> for ");
    push_str(&mut out_src, this_type);
    push_str(&mut out_src, " { ");
    push_str(&mut out_src, "fn matmul(&self, other: ");
    push_str(&mut out_src, other_type);
    push_str(&mut out_src, ") -> ");
    push_str(&mut out_src, return_type);
    push_str(&mut out_src, " { return ");
    push_str(&mut out_src, return_type);
    push_str(&mut out_src, "::new(");
    let ghost base = out_src@;
    let ghost cols = count_of(num_cols_out as int);
    let ghost inner = num_cols_in as int;
    let mut i: i32 = 0;
    while i < num_rows_in
        invariant
            0 <= i <= count_of(num_rows_in as int),
            cols == count_of(num_cols_out as int),
            inner == num_cols_in,
            out_src@ == product_rows_onto(base, transpose, inner, cols, i as nat),
        decreases num_rows_in - i,
    {
        let ghost row_start = out_src@;
        let mut j: i32 = 0;
        while j < num_cols_out
            invariant
                0 <= j <= count_of(num_cols_out as int),
                inner == num_cols_in,
                out_src@ == sums_onto(row_start, transpose, i as int, inner, j as nat),
            decreases num_cols_out - j,
        {
            let ghost sum_start = out_src@;
            let mut k: i32 = 0;
            while k < num_cols_in
                invariant
                    0 <= k <= count_of(num_cols_in as int),
                    inner == num_cols_in,
                    out_src@ == terms_onto(
                        sum_start,
                        transpose,
                        i as int,
                        j as int,
                        inner,
                        k as nat,
                    ),
                decreases num_cols_in - k,
            {
                if !transpose {
                    push_str(&mut out_src, "self.m(");
                    push_int(&mut out_src, i);
                    push_str(&mut out_src, ", ");
                    push_int(&mut out_src, k);
                    push_str(&mut out_src, ") * other.m(");
                    push_int(&mut out_src, k);
                    push_str(&mut out_src, ", ");
                    push_int(&mut out_src, j);
                    push_str(&mut out_src, ")");
                } else {
                    push_str(&mut out_src, "other.m(");
                    push_int(&mut out_src, i);
                    push_str(&mut out_src, ", ");
                    push_int(&mut out_src, k);
                    push_str(&mut out_src, ") * self.m(");
                    push_int(&mut out_src, j);
                    push_str(&mut out_src, ", ");
                    push_int(&mut out_src, k);
                    push_str(&mut out_src, ")");
                }
                if k != num_cols_in - 1 {
                    push_str(&mut out_src, " + ");
                }
                k = k + 1;
            }
            push_str(&mut out_src, ", ");
            j = j + 1;
        }
        i = i + 1;
    }
    push_str(&mut out_src, "); } }");
    push_str(&mut out_src, "impl_op_ex!(| |a: ");
    push_str(&mut out_src, this_type);
    push_str(&mut out_src, ", b: ");
    push_str(&mut out_src, other_type);
    push_str(&mut out_src, "| -> ");
    push_str(&mut out_src, return_type);
    push_str(&mut out_src, " { return a.matmul(b); });");
    if same_text(this_type, return_type) {
        push_str(&mut out_src, "impl_op_ex!(|= |a: &mut ");
        push_str(&mut out_src, this_type);
        push_str(&mut out_src, ", b: ");
        push_str(&mut out_src, other_type);
        push_str(&mut out_src, "| { *a = *a | b });");
    }
    out_src
}

} // verus!
