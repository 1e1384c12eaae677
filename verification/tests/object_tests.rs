use ray_tracing::object::{Axis, RectAxis, Unhittable, XY, XZ, YZ};

#[test]
fn axis_indices() {
    assert_eq!(Axis::X.index(), 0);
    assert_eq!(Axis::Y.index(), 1);
    assert_eq!(Axis::Z.index(), 2);
}

#[test]
fn rect_axis_assignments() {
    assert_eq!(XY.axis(), Axis::Z);
    assert_eq!(XY.other1(), Axis::X);
    assert_eq!(XY.other2(), Axis::Y);

    assert_eq!(XZ.axis(), Axis::Y);
    assert_eq!(XZ.other1(), Axis::X);
    assert_eq!(XZ.other2(), Axis::Z);

    assert_eq!(YZ.axis(), Axis::X);
    assert_eq!(YZ.other1(), Axis::Y);
    assert_eq!(YZ.other2(), Axis::Z);
}

#[test]
fn rect_axis_roles_are_distinct() {
    let assignments = [
        [XY.axis().index(), XY.other1().index(), XY.other2().index()],
        [XZ.axis().index(), XZ.other1().index(), XZ.other2().index()],
        [YZ.axis().index(), YZ.other1().index(), YZ.other2().index()],
    ];
    for r in assignments {
        let mut sorted = r;
        sorted.sort();
        assert_eq!(sorted, [0, 1, 2]);
    }
}

#[test]
fn unhittable_exists() {
    let _sentinel = Unhittable;
}
