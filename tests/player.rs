use raycast::grid::CharMatrix;
use raycast::player::{command_for_key, Command, DirectionTable, Player, ROTATION_STEP, TURN};
use raycast::ray::{march, CELL};

const WORLD: [&str; 20] = [
    "##########....#####",
    "#.................#",
    "#....#............#",
    "#....#............#",
    "#....#............#",
    "#....#............#",
    "#....######.......#",
    "..........#.......#",
    "..........#.......#",
    "#.........#.......#",
    "#.........#.......#",
    "###########.......#",
    "#.........#.......#",
    "#.........#.......#",
    "#.........#.......#",
    "#.........#.......#",
    "#.........#.......#",
    "#.........#.......#",
    "#..................",
    "###################",
];

const ROOM: [&str; 5] = ["#####", "#...#", "#...#", "#...#", "#####"];

fn directions() -> DirectionTable {
    let entries: Vec<(i64, i64)> = (0..TURN)
        .map(|k| {
            let a = 2.0 * std::f64::consts::PI * (k as f64) / (TURN as f64);
            ((a.sin() * CELL as f64).round() as i64, (a.cos() * CELL as f64).round() as i64)
        })
        .collect();
    DirectionTable::new(entries).expect("a table of unit vectors")
}

fn matrix_of(rows: &[&str]) -> CharMatrix {
    let rows: Vec<Vec<char>> = rows.iter().map(|r| r.chars().collect()).collect();
    CharMatrix::from_rows(&rows).expect("rows of one length")
}

fn corridor() -> Vec<String> {
    let mut rows = vec!["###".to_string()];
    for _ in 0..98 {
        rows.push("#.#".to_string());
    }
    rows.push("###".to_string());
    rows
}

fn player_in(rows: &[&str], x: i64, y: i64, facing: i64, fov: i64, step: i64, sw: usize, sh: usize) -> Player {
    Player::new(x, y, facing, fov, step, matrix_of(rows), CharMatrix::new(sw, sh), directions())
}

fn column(p: &Player, col: usize) -> String {
    (0..p.screen.height).map(|r| p.screen.get(r, col)).collect()
}

#[test]
fn new_marks_the_start_cell_occupied() {
    let p = player_in(&WORLD, 3 * CELL, 5 * CELL, 0, 320, CELL / 2, 160, 40);
    assert_eq!(p.map.get(5, 3), '█');
    assert_eq!(p.map.get(4, 3), '.');
}

#[test]
fn world_scenario_forward_then_full_turn() {
    let mut p = player_in(&WORLD, 3 * CELL, 5 * CELL, 0, 320, CELL / 2, 160, 40);
    p.render();
    assert!(p.apply(Command::MoveForward));
    assert_eq!(p.x, 3 * CELL);
    assert_eq!(p.y, 4 * CELL + CELL / 2);
    assert_eq!(p.map.get(4, 3), '█');
    assert_eq!(p.map.get(5, 3), '.');
    for _ in 0..64 {
        assert!(p.apply(Command::RotateLeft));
    }
    assert_eq!(p.facing, 0);
    assert_eq!(p.x, 3 * CELL);
    assert_eq!(p.y, 4 * CELL);
    p.render();
    assert_eq!(p.screen.width, 160);
    assert_eq!(p.screen.height, 40);
}

#[test]
fn move_into_wall_is_refused() {
    let mut p = player_in(&ROOM, CELL + CELL / 2, CELL + CELL / 2, 0, 320, CELL, 10, 4);
    let before_map = p.map.to_text();
    p.mv(1);
    assert_eq!(p.x, CELL + CELL / 2);
    assert_eq!(p.y, CELL + CELL / 2);
    assert_eq!(p.facing, 0);
    assert_eq!(p.map.to_text(), before_map);
}

#[test]
fn move_out_of_the_map_is_refused() {
    let open = [".....", ".....", "....."];
    let mut p = player_in(&open, CELL / 2, CELL / 2, 0, 320, CELL, 10, 4);
    p.mv(1);
    assert_eq!(p.x, CELL / 2);
    assert_eq!(p.y, CELL / 2);
    let mut q = player_in(&open, CELL / 2, 2 * CELL + CELL / 2, 0, 320, CELL, 10, 4);
    q.mv(-1);
    assert_eq!(q.y, 2 * CELL + CELL / 2);
    assert_eq!(q.map.get(2, 0), '█');
}

#[test]
fn move_into_floor_updates_two_cells() {
    let mut p = player_in(&ROOM, 2 * CELL + CELL / 2, 2 * CELL + CELL / 2, 0, 320, CELL, 10, 4);
    let before: Vec<char> = p.map.to_text().chars().collect();
    p.mv(1);
    assert_eq!(p.x, 2 * CELL + CELL / 2);
    assert_eq!(p.y, CELL + CELL / 2);
    assert_eq!(p.map.get(1, 2), '█');
    assert_eq!(p.map.get(2, 2), '.');
    let after: Vec<char> = p.map.to_text().chars().collect();
    let changed = before.iter().zip(after.iter()).filter(|(a, b)| a != b).count();
    assert_eq!(changed, 2);
}

#[test]
fn move_within_a_cell_keeps_the_map() {
    let mut p = player_in(&ROOM, 2 * CELL + CELL / 2, 2 * CELL + CELL / 2, 0, 320, CELL / 4, 10, 4);
    let before = p.map.to_text();
    p.mv(1);
    assert_eq!(p.y, 2 * CELL + CELL / 4);
    assert_eq!(p.map.to_text(), before);
    p.mv(-1);
    p.mv(-1);
    assert_eq!(p.y, 2 * CELL + 3 * CELL / 4);
    assert_eq!(p.map.get(2, 2), '█');
}

#[test]
fn rotate_wraps_and_snaps() {
    let mut p = player_in(&ROOM, 2 * CELL + CELL / 2, 2 * CELL + CELL / 3, 0, 320, CELL, 10, 4);
    p.rotate(-ROTATION_STEP);
    assert_eq!(p.facing, TURN - ROTATION_STEP);
    assert_eq!(p.x, 2 * CELL);
    assert_eq!(p.y, 2 * CELL);
    p.rotate(ROTATION_STEP);
    assert_eq!(p.facing, 0);
    p.rotate(3 * TURN + 7);
    assert_eq!(p.facing, 7);
}

#[test]
fn sixty_four_left_turns_come_back() {
    let mut p = player_in(&ROOM, 2 * CELL, 2 * CELL, 100, 320, CELL, 10, 4);
    for _ in 0..64 {
        p.apply(Command::RotateLeft);
    }
    assert_eq!(p.facing, 100);
    for _ in 0..64 {
        p.apply(Command::RotateRight);
    }
    assert_eq!(p.facing, 100);
}

#[test]
fn march_in_a_closed_room_stops_at_the_wall() {
    let room = matrix_of(&ROOM);
    let half = CELL / 2;
    assert_eq!(march(&room, 2 * CELL + half, 2 * CELL + half, 0, CELL, half), 18);
    assert_eq!(march(&room, 2 * CELL + half, 2 * CELL + half, 0, -CELL, half), 19);
    assert_eq!(march(&room, 2 * CELL + half, 2 * CELL + half, CELL, 0, half), 18);
    let wall_start = march(&room, 0, 0, 0, CELL, half);
    assert_eq!(wall_start, 0);
}

#[test]
fn march_leaves_an_open_map() {
    let open = matrix_of(&["...", "..."]);
    assert_eq!(march(&open, CELL / 2, CELL / 2, 0, CELL, CELL / 2), 18);
}

#[test]
fn render_shades_near_and_far_walls() {
    let rows = corridor();
    let rows: Vec<&str> = rows.iter().map(|s| s.as_str()).collect();
    let mut near = player_in(&rows, CELL + CELL / 2, 97 * CELL + CELL / 2, 0, 0, CELL / 2, 40, 6);
    near.render();
    let mut far = player_in(&rows, CELL + CELL / 2, CELL + CELL / 2, 0, 0, CELL / 2, 40, 6);
    far.render();
    for c in 0..40 {
        assert_eq!(column(&near, c), "   ██.");
        assert_eq!(column(&far, c), "   ••_");
    }
}

#[test]
fn render_close_wall_fills_the_column() {
    let mut p = player_in(&ROOM, 2 * CELL + CELL / 2, 3 * CELL + CELL / 2, 0, 0, CELL / 2, 40, 6);
    p.render();
    assert_eq!(column(&p, 0), " █████");
    assert_eq!(column(&p, 39), " █████");
}

#[test]
fn frame_text_is_screen_then_map() {
    let mut p = player_in(&["#.#"], CELL + CELL / 2, CELL / 2, 0, 0, CELL / 2, 2, 1);
    p.render();
    let text = p.frame_text();
    assert_eq!(text, format!("{}{}", p.screen.to_text(), "#█#\r\n"));
    assert_eq!(text.len(), p.screen.to_text().len() + "#█#\r\n".len());
}

#[test]
fn keys_map_to_commands() {
    assert!(matches!(command_for_key('w'), Command::MoveForward));
    assert!(matches!(command_for_key('s'), Command::MoveBackward));
    assert!(matches!(command_for_key('a'), Command::RotateLeft));
    assert!(matches!(command_for_key('d'), Command::RotateRight));
    assert!(matches!(command_for_key('q'), Command::Nothing));
}

#[test]
fn quit_stops_and_nothing_changes_nothing() {
    let mut p = player_in(&ROOM, 2 * CELL, 2 * CELL, 5, 320, CELL, 10, 4);
    assert!(p.apply(Command::Nothing));
    assert_eq!((p.x, p.y, p.facing), (2 * CELL, 2 * CELL, 5));
    assert!(!p.apply(Command::Quit));
    assert_eq!((p.x, p.y, p.facing), (2 * CELL, 2 * CELL, 5));
}

#[test]
fn direction_table_checks_its_entries() {
    assert!(DirectionTable::new(vec![(0, CELL); 10]).is_none());
    let mut entries = vec![(0, CELL); TURN as usize];
    assert!(DirectionTable::new(entries.clone()).is_some());
    entries[3] = (0, 0);
    assert!(DirectionTable::new(entries.clone()).is_none());
    entries[3] = (CELL + 1, 0);
    assert!(DirectionTable::new(entries.clone()).is_none());
    entries[3] = (1, 0);
    assert!(DirectionTable::new(entries.clone()).is_none());
    entries[3] = (CELL / 2, CELL / 2);
    assert!(DirectionTable::new(entries.clone()).is_none());
    entries[3] = (46341, -46340);
    assert!(DirectionTable::new(entries).is_some());
}

#[test]
fn first_column_looks_one_field_of_view_past_the_facing() {
    let rows = corridor();
    let rows: Vec<&str> = rows.iter().map(|s| s.as_str()).collect();
    // Column 0 looks half a turn round (up the corridor, far), column 1 a
    // quarter turn further (into the near wall on the left).
    let mut p = player_in(&rows, CELL + CELL / 2, 97 * CELL + CELL / 2, 0, TURN / 2, CELL / 2, 2, 6);
    p.render();
    assert_eq!(column(&p, 0), " •••••");
    assert_eq!(column(&p, 1), " █████");
}

#[test]
fn negative_field_of_view_sweeps_the_other_way() {
    let rows = corridor();
    let rows: Vec<&str> = rows.iter().map(|s| s.as_str()).collect();
    let mut p = player_in(&rows, CELL + CELL / 2, 97 * CELL + CELL / 2, 0, -TURN / 2, CELL / 2, 2, 6);
    p.render();
    assert_eq!(column(&p, 0), " •••••");
    assert_eq!(column(&p, 1), " █████");
}
