use trmnl_server::rotation::RotationCursors;

fn images(names: &[&str]) -> Vec<String> {
    names.iter().map(|s| s.to_string()).collect()
}

#[test]
fn successive_check_ins_serve_distinct_consecutive_positions() {
    let mut cursors = RotationCursors::new();
    let served: Vec<usize> = (0..5).map(|_| cursors.advance("dev", 5)).collect();
    assert_eq!(served, vec![0, 1, 2, 3, 4]);
    assert_eq!(cursors.advance("dev", 5), 0);
}

#[test]
fn cursor_starts_at_zero() {
    let cursors = RotationCursors::new();
    assert_eq!(cursors.cursor("unknown"), 0);
}

#[test]
fn advance_takes_cursor_modulo_length() {
    let mut cursors = RotationCursors::new();
    assert_eq!(cursors.advance("dev", 3), 0);
    assert_eq!(cursors.advance("dev", 3), 1);
    assert_eq!(cursors.advance("dev", 3), 2);
    assert_eq!(cursors.cursor("dev"), 0);
    cursors.advance("dev", 3);
    cursors.advance("dev", 3);
    assert_eq!(cursors.cursor("dev"), 2);
    assert_eq!(cursors.advance("dev", 2), 0);
    assert_eq!(cursors.cursor("dev"), 1);
}

#[test]
fn next_image_with_empty_playlist_serves_default() {
    let mut cursors = RotationCursors::new();
    assert_eq!(cursors.next_image("dev", &[], "default.png"), "default.png");
    assert_eq!(cursors.cursor("dev"), 0);
}

#[test]
fn next_image_rotates() {
    let mut cursors = RotationCursors::new();
    let list = images(&["a", "b", "c"]);
    let got: Vec<String> = (0..4).map(|_| cursors.next_image("dev", &list, "d")).collect();
    assert_eq!(got, vec!["a", "b", "c", "a"]);
}
