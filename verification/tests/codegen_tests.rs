use itertools::Itertools;
use webmaths::codegen::families::gen_swizz_funcs;
use webmaths::codegen::matrix::{
    gen_display, gen_mat_access, gen_mat_mul, gen_mat_utils, same_text, transpose_flag,
};
use webmaths::codegen::ops::{
    gen_basic_ops, gen_constructor, gen_dot_norm, gen_elementwise, gen_scalar_left, gen_scalar_right,
};
use webmaths::codegen::swizzle::{component_index, gen_swizz, gen_swizz_assign};

fn letter(c: char) -> &'static str {
    match c {
        'x' | 'r' | 'u' => "0",
        'y' | 'g' | 'v' => "1",
        'z' | 'b' => "2",
        'w' | 'a' => "3",
        _ => panic!(),
    }
}

fn want_swizz(name: &str) -> String {
    let n = name.chars().count();
    let mut s = format!("#[inline(always)] pub fn {name}");
    if n == 1 {
        s.push_str(&format!("(&self) -> Scalar {{ return self.0.v[{}]; }}", letter(name.chars().next().unwrap())));
    } else {
        s.push_str(&format!("(&self) -> Vec{n}{{ return Vec{n} {{ 0: VecN::<{n}> {{ v: ["));
        for c in name.chars() {
            s.push_str(&format!("self.0.v[{}], ", letter(c)));
        }
        s.push_str("] } }; }");
    }
    s
}

fn want_swizz_assign(name: &str) -> String {
    let n = name.chars().count();
    let mut s = format!("#[inline(always)] pub fn set_{name}");
    if n == 1 {
        s.push_str(&format!("(&mut self, v: Scalar) {{self.0.v[{}] = v; }}", letter(name.chars().next().unwrap())));
    } else {
        s.push_str(&format!("(&mut self, v: Vec{n}) {{"));
        for (i, c) in name.chars().enumerate() {
            s.push_str(&format!("self.0.v[{}] = v.0.v[{}];", letter(c), i));
        }
        s.push_str("}");
    }
    s
}

#[test]
fn letters_name_components() {
    for (cs, k) in [("xru", 0), ("ygv", 1), ("zb", 2), ("wa", 3)] {
        for c in cs.chars() {
            assert_eq!(component_index(c), Some(k));
        }
    }
    for c in "cdefhijklmnopqst XY0-".chars() {
        assert_eq!(component_index(c), None);
    }
}

#[test]
fn swizz_of_one_letter_reads_a_scalar() {
    assert_eq!(
        gen_swizz("y").unwrap(),
        "#[inline(always)] pub fn y(&self) -> Scalar { return self.0.v[1]; }"
    );
    assert_eq!(
        gen_swizz_assign("a").unwrap(),
        "#[inline(always)] pub fn set_a(&mut self, v: Scalar) {self.0.v[3] = v; }"
    );
}

#[test]
fn swizz_of_more_letters_makes_a_vector() {
    assert_eq!(
        gen_swizz("zx").unwrap(),
        "#[inline(always)] pub fn zx(&self) -> Vec2{ return Vec2 { 0: VecN::<2> { v: [self.0.v[2], self.0.v[0], ] } }; }"
    );
    assert_eq!(
        gen_swizz_assign("zx").unwrap(),
        "#[inline(always)] pub fn set_zx(&mut self, v: Vec2) {self.0.v[2] = v.0.v[0];self.0.v[0] = v.0.v[1];}"
    );
}

#[test]
fn swizz_agrees_for_many_names() {
    for name in ["", "x", "w", "xy", "rgb", "rgba", "wzyx", "uv", "xxxx", "xyzwxyzwxyzw"] {
        assert_eq!(gen_swizz(name).unwrap(), want_swizz(name));
        assert_eq!(gen_swizz_assign(name).unwrap(), want_swizz_assign(name));
    }
}

#[test]
fn swizz_refuses_other_characters() {
    for name in ["q", "xq", "qx", "xyz ", "X", "x1", "é"] {
        assert!(gen_swizz(name).is_none(), "{name}");
        assert!(gen_swizz_assign(name).is_none(), "{name}");
    }
}

fn want_swizz_funcs(in_str: &str) -> String {
    let chars_initial: Vec<&str> = in_str.split_terminator("").collect();
    let chars_initial = &chars_initial[1..];
    let mut chars: Vec<String> = chars_initial.iter().map(|x| x.to_string()).collect();
    let mut out_src = "".to_string();
    for char_arr in &chars {
        out_src.push_str(&format!("gen_swizz!({char_arr});\ngen_swizz_assign!({char_arr});\n"));
    }
    for vec_d in 0..3 {
        chars = chars
            .iter()
            .cartesian_product(chars_initial.iter())
            .map(|x| format!("{}{}", x.0, x.1))
            .collect();
        for char_arr in &chars {
            out_src.push_str(&format!("gen_swizz!({char_arr});\n"));
            if vec_d <= chars_initial.len() {
                out_src.push_str(&format!("gen_swizz_assign!({char_arr});\n"));
            }
        }
    }
    out_src
}

#[test]
fn swizz_funcs_of_two_letters() {
    let got = gen_swizz_funcs("xy");
    assert!(got.starts_with(
        "gen_swizz!(x);\ngen_swizz_assign!(x);\ngen_swizz!(y);\ngen_swizz_assign!(y);\ngen_swizz!(xx);\ngen_swizz_assign!(xx);\ngen_swizz!(xy);\n"
    ));
    assert!(got.ends_with("gen_swizz!(yyyx);\ngen_swizz_assign!(yyyx);\ngen_swizz!(yyyy);\ngen_swizz_assign!(yyyy);\n"));
    assert_eq!(got.matches("gen_swizz!(").count(), 2 + 4 + 8 + 16);
    assert_eq!(got, want_swizz_funcs("xy"));
}

#[test]
fn swizz_funcs_agree_for_the_letter_sets_in_use() {
    for letters in ["", "x", "uv", "xyz", "rgb", "xyzw", "rgba"] {
        assert_eq!(gen_swizz_funcs(letters), want_swizz_funcs(letters), "{letters}");
    }
}

#[test]
fn longest_names_of_one_letter_get_no_setter() {
    let got = gen_swizz_funcs("x");
    assert_eq!(
        got,
        "gen_swizz!(x);\ngen_swizz_assign!(x);\ngen_swizz!(xx);\ngen_swizz_assign!(xx);\ngen_swizz!(xxx);\ngen_swizz_assign!(xxx);\ngen_swizz!(xxxx);\n"
    );
}

#[test]
fn constructor_of_three() {
    assert_eq!(
        gen_constructor(3),
        "#[inline(always)] pub fn new(v0: Scalar,v1: Scalar,v2: Scalar,) -> Self { return Self{ 0: VecN::<3>{ v: [v0,v1,v2,] } }; }"
    );
}

#[test]
fn constructor_of_none_and_of_many() {
    assert_eq!(
        gen_constructor(0),
        "#[inline(always)] pub fn new() -> Self { return Self{ 0: VecN::<0>{ v: [] } }; }"
    );
    assert_eq!(
        gen_constructor(-2),
        "#[inline(always)] pub fn new() -> Self { return Self{ 0: VecN::<-2>{ v: [] } }; }"
    );
    let got = gen_constructor(12);
    assert!(got.contains("v9: Scalar,v10: Scalar,v11: Scalar,) -> Self"));
    assert!(got.ends_with("VecN::<12>{ v: [v0,v1,v2,v3,v4,v5,v6,v7,v8,v9,v10,v11,] } }; }"));
}

#[test]
fn elementwise_and_scalar_values() {
    assert_eq!(
        gen_elementwise("Vec2", 2, "+"),
        "Vec2{ 0: VecN::<2> { v: [a.0.v[0]+b.0.v[0],a.0.v[1]+b.0.v[1],] } }"
    );
    assert_eq!(
        gen_scalar_right("Vec3", 3, "/"),
        "Vec3{ 0: VecN::<3> { v: [a.0.v[0]/b,a.0.v[1]/b,a.0.v[2]/b,] } }"
    );
    assert_eq!(
        gen_scalar_left("Mat2x2", 4, "-"),
        "Mat2x2{ 0: VecN::<4> { v: [a-b.0.v[0],a-b.0.v[1],a-b.0.v[2],a-b.0.v[3],] } }"
    );
    assert_eq!(gen_elementwise("T", 0, "*"), "T{ 0: VecN::<0> { v: [] } }");
}

fn want_basic_ops(return_type: &str, num_elements: i32) -> String {
    format!("
        impl_op_ex!(+ |a: {1}, b: {1}| -> {1} {{ gen_elementwise!({1} {0} +) }});
        impl_op_ex!(+= |a: &mut {1}, b: {1}| {{ *a = *a + b }});
        impl_op_ex!(* |a: {1}, b: {1}| -> {1} {{ gen_elementwise!({1} {0} *) }});
        impl_op_ex!(*= |a: &mut {1}, b: {1}| {{ *a = *a * b }});
        impl_op_ex!(- |a: {1}, b: {1}| -> {1} {{ gen_elementwise!({1} {0} -) }});
        impl_op_ex!(-= |a: &mut {1}, b: {1}| {{ *a = *a - b }});
        impl_op_ex!(/ |a: {1}, b: {1}| -> {1} {{ gen_elementwise!({1} {0} /) }});
        impl_op_ex!(/= |a: &mut {1}, b: {1}| {{ *a = *a / b }});
        impl_op_ex_commutative!(+ |a: {1}, b: Scalar| -> {1} {{ gen_scalar_right!({1} {0} +) }});
        impl_op_ex!(+= |a: &mut {1}, b: Scalar| {{ *a = *a + b }});
        impl_op_ex_commutative!(* |a: {1}, b: Scalar| -> {1} {{ gen_scalar_right!({1} {0} *) }});
        impl_op_ex!(*= |a: &mut {1}, b: Scalar| {{ *a = *a * b }});
        impl_op_ex!(- |a: {1}, b: Scalar| -> {1} {{ gen_scalar_right!({1} {0} -) }});
        impl_op_ex!(- |a: Scalar, b: {1}| -> {1} {{ gen_scalar_left!({1} {0} -) }});
        impl_op_ex!(-= |a: &mut {1}, b: Scalar| {{ *a = *a - b }});
        impl_op_ex!(/ |a: {1}, b: Scalar| -> {1} {{ gen_scalar_right!({1} {0} /) }});
        impl_op_ex!(/ |a: Scalar, b: {1}| -> {1} {{ gen_scalar_left!({1} {0} /) }});
        impl_op_ex!(/= |a: &mut {1}, b: Scalar| {{ *a = *a / b }});
        impl_op_ex!(- |a: {1}| -> {1} {{ return 0.0 - a; }});
    ", num_elements, return_type)
}

#[test]
fn basic_ops_hold_every_operator() {
    assert_eq!(gen_basic_ops("Vec3", 3), want_basic_ops("Vec3", 3));
    assert_eq!(gen_basic_ops("Mat4x4", 16), want_basic_ops("Mat4x4", 16));
    let got = gen_basic_ops("Vec2", 2);
    assert_eq!(got.matches("impl_op_ex").count(), 19);
    assert!(got.contains("impl_op_ex!(- |a: Scalar, b: Vec2| -> Vec2 { gen_scalar_left!(Vec2 2 -) });"));
    assert!(got.contains("impl_op_ex!(- |a: Vec2| -> Vec2 { return 0.0 - a; });"));
}

#[test]
fn mat_access_goes_row_by_row() {
    let want = format!("
        #[inline(always)] pub fn m(&self, row: usize, col: usize) -> Scalar {{
            return self.0.v[row * {0} + col];
        }}

        #[inline(always)] pub fn set_m(&mut self, row: usize, col: usize, to: Scalar) {{
            self.0.v[row * {0} + col] = to;
        }}
    ", 3);
    assert_eq!(gen_mat_access(3), want);
}

#[test]
fn mat_utils_transpose() {
    assert_eq!(
        gen_mat_utils("Mat2x2", 2, 2),
        "pub fn t(&self) -> Mat2x2 { return Mat2x2::new(self.m(0, 0),self.m(1, 0),self.m(0, 1),self.m(1, 1),); }"
    );
    assert_eq!(
        gen_mat_utils("Mat3x2", 2, 3),
        "pub fn t(&self) -> Mat3x2 { return Mat3x2::new(self.m(0, 0),self.m(1, 0),self.m(2, 0),self.m(0, 1),self.m(1, 1),self.m(2, 1),); }"
    );
}

#[test]
fn display_shows_rows_on_lines() {
    assert_eq!(
        gen_display("Vec2", 1, 2),
        "impl fmt::Display for Vec2 { fn fmt(&self, f: &mut fmt::Formatter) -> fmt::Result {write!(f, \"Vec2 {{\")?;write!(f, \"\\n  \")?;write!(f, \"{}, \", self.m(0, 0))?;write!(f, \"{}, \", self.m(0, 1))?;write!(f, \"\\n}}\")?;return Ok(()); } }"
    );
    let got = gen_display("Mat2x3", 2, 3);
    assert_eq!(got.matches("write!(f, \"\\n  \")?;").count(), 2);
    assert_eq!(got.matches("self.m(").count(), 6);
    assert!(got.contains("self.m(1, 2)"));
}

fn want_mat_mul(t: &str, o: &str, r: &str, rows: i32, inner: i32, cols: i32, transpose: bool) -> String {
    let mut s = format!("impl MatMul<{1}, {2}> for {0} {{ ", t, o, r);
    s.push_str(&format!("fn matmul(&self, other: {0}) -> {1} {{ return {1}::new(", o, r));
    for i in 0..rows {
        for j in 0..cols {
            for k in 0..inner {
                if !transpose {
                    s.push_str(&format!("self.m({0}, {2}) * other.m({2}, {1})", i, j, k));
                } else {
                    s.push_str(&format!("other.m({0}, {2}) * self.m({1}, {2})", i, j, k));
                }
                if k != inner - 1 {
                    s.push_str(" + ");
                }
            }
            s.push_str(", ");
        }
    }
    s.push_str("); } }");
    s.push_str(&format!("impl_op_ex!(| |a: {0}, b: {1}| -> {2} {{ return a.matmul(b); }});", t, o, r));
    if t == r {
        s.push_str(&format!("impl_op_ex!(|= |a: &mut {0}, b: {1}| {{ *a = *a | b }});", t, o));
    }
    s
}

#[test]
fn mat_mul_of_two_by_two() {
    assert_eq!(
        gen_mat_mul("Mat2x2", "Mat2x2", "Mat2x2", 2, 2, 2, false),
        "impl MatMul<Mat2x2, Mat2x2> for Mat2x2 { fn matmul(&self, other: Mat2x2) -> Mat2x2 { return Mat2x2::new(self.m(0, 0) * other.m(0, 0) + self.m(0, 1) * other.m(1, 0), self.m(0, 0) * other.m(0, 1) + self.m(0, 1) * other.m(1, 1), self.m(1, 0) * other.m(0, 0) + self.m(1, 1) * other.m(1, 0), self.m(1, 0) * other.m(0, 1) + self.m(1, 1) * other.m(1, 1), ); } }impl_op_ex!(| |a: Mat2x2, b: Mat2x2| -> Mat2x2 { return a.matmul(b); });impl_op_ex!(|= |a: &mut Mat2x2, b: Mat2x2| { *a = *a | b });"
    );
}

#[test]
fn mat_mul_agrees_for_many_shapes() {
    let cases = [
        ("Vec2", "Vec2", "Mat2x2", 2, 1, 2, true),
        ("Vec3", "Mat3x3", "Vec3", 1, 3, 3, false),
        ("Mat2x3", "Vec3", "Vec2", 1, 3, 2, true),
        ("Mat4x3", "Mat3x2", "Mat4x2", 4, 3, 2, false),
        ("Mat4x4", "Mat4x4", "Mat4x4", 4, 4, 4, false),
        ("A", "B", "C", 0, 2, 2, false),
        ("A", "B", "A", 2, 0, 1, true),
    ];
    for (t, o, r, rows, inner, cols, tr) in cases {
        assert_eq!(gen_mat_mul(t, o, r, rows, inner, cols, tr), want_mat_mul(t, o, r, rows, inner, cols, tr));
    }
}

#[test]
fn assigning_product_only_where_the_type_stays() {
    assert!(gen_mat_mul("Vec2", "Mat2x2", "Vec2", 1, 2, 2, false).contains("impl_op_ex!(|= "));
    assert!(!gen_mat_mul("Vec2", "Mat2x3", "Vec3", 1, 2, 3, false).contains("impl_op_ex!(|= "));
}

#[test]
fn same_text_compares_characters() {
    assert!(same_text("", ""));
    assert!(same_text("Vec3", "Vec3"));
    assert!(!same_text("Vec3", "Vec4"));
    assert!(!same_text("Vec3", "Vec"));
    assert!(same_text("é", "é"));
}

#[test]
fn dot_norm_of_three() {
    let want = format!(
        "impl Dot<{0}> for {0} {{ fn dot(&self, other: {0}) -> Scalar {{ return self.0.v[0] * other.0.v[0] + self.0.v[1] * other.0.v[1] + self.0.v[2] * other.0.v[2]; }} }} impl_op_ex!(& |a: {0}, b: {0}| -> Scalar {{ return a.dot(b); }});{1}",
        "Vec3",
        format!("
    impl {0} {{
        #[inline(always)]
        pub fn length(&self) -> Scalar {{
            return (*self).dot(*self).sqrt();
        }}
        
        #[inline(always)]
        pub fn normalized(&self) -> {0} {{
            return *self / self.length();
        }}
    }}
    ", "Vec3")
    );
    assert_eq!(gen_dot_norm("Vec3", 3), want);
    assert!(gen_dot_norm("Vec1", 1).contains("return self.0.v[0] * other.0.v[0]; }"));
    assert!(gen_dot_norm("Vec0", 0).contains("-> Scalar { return ; }"));
}

#[test]
fn last_word_of_a_product() {
    assert_eq!(transpose_flag(None), Some(false));
    assert_eq!(transpose_flag(Some("transpose")), Some(true));
    assert_eq!(transpose_flag(Some("transposed")), None);
    assert_eq!(transpose_flag(Some("")), None);
}
