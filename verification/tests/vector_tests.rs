use webmaths::vector::{MatMul, TypedVec};

#[test]
fn matrix_elements_stand_row_by_row() {
    let mut t = TypedVec { v: [1, 2, 3, 4, 5, 6] };
    assert_eq!(t.m(3, 0, 0), 1);
    assert_eq!(t.m(3, 0, 2), 3);
    assert_eq!(t.m(3, 1, 1), 5);
    assert_eq!(t.m(2, 2, 1), 6);
    t.set_m(3, 1, 0, 40);
    assert_eq!(t.v, [1, 2, 3, 40, 5, 6]);
    t.set_m(1, 0, 5, 60);
    assert_eq!(t.v, [1, 2, 3, 40, 5, 60]);
}

#[test]
fn typed_vec_holds_floats() {
    let t = TypedVec { v: [0.5f32, 1.5] };
    assert_eq!(t.m(1, 0, 1), 1.5);
    let copy = t;
    assert_eq!(copy.v, t.v);
}

struct Row(TypedVec<i64, 2>);
struct Square(TypedVec<i64, 4>);

impl MatMul<Square, Row> for Row {
    fn matmul(&self, other: Square) -> Row {
        Row(TypedVec {
            v: [
                self.0.m(2, 0, 0) * other.0.m(2, 0, 0) + self.0.m(2, 0, 1) * other.0.m(2, 1, 0),
                self.0.m(2, 0, 0) * other.0.m(2, 0, 1) + self.0.m(2, 0, 1) * other.0.m(2, 1, 1),
            ],
        })
    }
}

#[test]
fn mat_mul_can_be_implemented() {
    let r = Row(TypedVec { v: [1, 2] }).matmul(Square(TypedVec { v: [3, 4, 5, 6] }));
    assert_eq!(r.0.v, [13, 16]);
}
