use raycast::grid::CharMatrix;

fn matrix_of(rows: &[&str]) -> CharMatrix {
    let rows: Vec<Vec<char>> = rows.iter().map(|r| r.chars().collect()).collect();
    CharMatrix::from_rows(&rows).expect("rows of one length")
}

#[test]
fn create_gives_blank_rows_of_the_asked_size() {
    let m = CharMatrix::new(4, 3);
    assert_eq!(m.width, 4);
    assert_eq!(m.height, 3);
    for r in 0..3 {
        for c in 0..4 {
            assert_eq!(m.get(r, c), ' ');
        }
    }
    assert_eq!(m.to_text(), "    \r\n    \r\n    \r\n");
}

#[test]
fn create_empty_matrix_has_no_text() {
    let m = CharMatrix::new(0, 0);
    assert_eq!(m.to_text(), "");
    let tall = CharMatrix::new(0, 2);
    assert_eq!(tall.to_text(), "\r\n\r\n");
}

#[test]
fn write_then_read_gives_the_character_and_leaves_others() {
    let mut m = CharMatrix::new(3, 2);
    m.set(1, 2, 'x');
    assert_eq!(m.get(1, 2), 'x');
    for r in 0..2 {
        for c in 0..3 {
            if (r, c) != (1, 2) {
                assert_eq!(m.get(r, c), ' ');
            }
        }
    }
    m.set(1, 2, 'y');
    assert_eq!(m.get(1, 2), 'y');
    assert_eq!(m.to_text(), "   \r\n  y\r\n");
}

#[test]
fn from_rows_keeps_the_layout() {
    let m = matrix_of(&["#.#", "..#"]);
    assert_eq!(m.width, 3);
    assert_eq!(m.height, 2);
    assert_eq!(m.get(0, 1), '.');
    assert_eq!(m.get(1, 2), '#');
    assert_eq!(m.to_text(), "#.#\r\n..#\r\n");
}

#[test]
fn from_rows_refuses_ragged_rows() {
    let rows = vec![vec!['#', '#'], vec!['#']];
    assert!(CharMatrix::from_rows(&rows).is_none());
}

#[test]
fn from_rows_of_nothing_is_empty() {
    let rows: Vec<Vec<char>> = Vec::new();
    let m = CharMatrix::from_rows(&rows).expect("empty is rectangular");
    assert_eq!(m.width, 0);
    assert_eq!(m.height, 0);
}
