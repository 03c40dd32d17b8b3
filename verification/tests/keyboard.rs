use xeonitte::keyboard::{Button, Keyboard, KeyboardLayout};

fn button(label: &str, url: &str) -> Button {
    Button { label: label.to_string(), url: url.to_string() }
}

#[test]
fn new_keyboard_has_one_empty_row() {
    let keyboard = Keyboard::new();
    assert_eq!(keyboard.get(), KeyboardLayout { rows: vec![vec![]] });
}

#[test]
fn url_appends_one_button_and_returns_the_layout() {
    let mut keyboard = Keyboard::new();
    let layout = keyboard.url("Docs", "https://example.org/docs");
    assert_eq!(layout, KeyboardLayout { rows: vec![vec![button("Docs", "https://example.org/docs")]] });
}

#[test]
fn buttons_accumulate_in_one_row_in_order() {
    let mut keyboard = Keyboard::new();
    keyboard.url("One", "https://example.org/1");
    keyboard.url("Two", "https://example.org/2");
    let layout = keyboard.url("Three", "https://example.org/3");
    assert_eq!(layout.rows.len(), 1);
    assert_eq!(
        layout.rows[0],
        vec![
            button("One", "https://example.org/1"),
            button("Two", "https://example.org/2"),
            button("Three", "https://example.org/3"),
        ]
    );
}

#[test]
fn get_returns_the_same_layout_every_time() {
    let mut keyboard = Keyboard::new();
    let made = keyboard.url("Docs", "https://example.org/docs");
    let first = keyboard.get();
    let second = keyboard.get();
    assert_eq!(first, made);
    assert_eq!(first, second);
}

#[test]
fn a_button_clones_into_an_equal_button() {
    let first = button("Docs", "https://example.org/docs");
    assert_eq!(first.clone(), first);
}
