use dense_matrix::render::render;

fn texts(v: &[&str]) -> Vec<String> {
    v.iter().map(|s| s.to_string()).collect()
}

#[test]
fn render_diagonal() {
    let t = texts(&["1", "0", "0", "0", "2", "0", "0", "0", "3"]);
    assert_eq!(render(3, 3, &t), "[[1, 0, 0],\n [0, 2, 0],\n [0, 0, 3]]\n");
}

#[test]
fn render_single_row_and_single_cell() {
    assert_eq!(render(1, 3, &texts(&["a", "bb", "c"])), "[[a, bb, c]]\n");
    assert_eq!(render(1, 1, &texts(&["7"])), "[[7]]\n");
    assert_eq!(render(2, 1, &texts(&["7", "8"])), "[[7],\n [8]]\n");
}

#[test]
fn render_empty() {
    assert_eq!(render(0, 4, &[]), "");
    assert_eq!(render(2, 0, &[]), "[[],\n []]\n");
}
