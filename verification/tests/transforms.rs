use engine::mat4::{compose_mvp, mat_mul, transform, Mat4};

fn projection() -> Mat4 {
    Mat4::from_entries(vec![
        1, 2, 0, 0,
        0, 1, 0, 0,
        0, 0, 1, 1,
        0, 0, 0, 1,
    ])
}

fn view() -> Mat4 {
    Mat4::from_entries(vec![
        1, 0, 0, 5,
        0, 1, 0, 6,
        0, 0, 1, 7,
        0, 0, 0, 1,
    ])
}

fn model() -> Mat4 {
    Mat4::from_entries(vec![
        2, 0, 0, 0,
        0, 2, 0, 0,
        0, 0, 2, 0,
        0, 0, 0, 1,
    ])
}

fn entries(m: &Mat4) -> Vec<i64> {
    let mut out = Vec::new();
    for i in 0..4 {
        for j in 0..4 {
            out.push(m.entry(i, j));
        }
    }
    out
}

#[test]
fn multiply_known_matrices() {
    let pv = mat_mul(&projection(), &view());
    assert_eq!(
        entries(&pv),
        vec![1, 2, 0, 17, 0, 1, 0, 6, 0, 0, 1, 8, 0, 0, 0, 1]
    );
}

#[test]
fn identity_is_neutral() {
    let m = view();
    let i = Mat4::identity();
    assert_eq!(entries(&mat_mul(&i, &m)), entries(&m));
    assert_eq!(entries(&mat_mul(&m, &i)), entries(&m));
}

#[test]
fn mvp_is_projection_times_view_times_model() {
    let mvp = compose_mvp(&projection(), &view(), &model());
    assert_eq!(
        entries(&mvp),
        vec![2, 4, 0, 17, 0, 2, 0, 6, 0, 0, 2, 8, 0, 0, 0, 1]
    );
    let by_hand = mat_mul(&mat_mul(&projection(), &view()), &model());
    assert_eq!(entries(&mvp), entries(&by_hand));
    // the opposite composition order gives a different transform
    let reversed = compose_mvp(&model(), &view(), &projection());
    assert_ne!(entries(&mvp), entries(&reversed));
}

#[test]
fn mvp_applied_to_known_vector() {
    let mvp = compose_mvp(&projection(), &view(), &model());
    let image = transform(&mvp, &vec![1, 2, 3, 1]);
    assert_eq!(image, vec![27, 10, 14, 1]);
    // the same as applying model, then view, then projection
    let staged = transform(
        &projection(),
        &transform(&view(), &transform(&model(), &vec![1, 2, 3, 1])),
    );
    assert_eq!(image, staged);
}
