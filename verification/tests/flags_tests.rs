use uzumaki::flags::{KeyModifiers, MouseButtons};

#[test]
fn modifiers_insert_then_contains() {
    let mut m = KeyModifiers::empty();
    m.insert(KeyModifiers::ctrl());
    assert!(m.contains(KeyModifiers::ctrl()));
    assert!(!m.contains(KeyModifiers::shift()));
    assert_eq!(m.bits(), 1);
}

#[test]
fn buttons_press_release() {
    let mut b = MouseButtons::empty();
    b.insert(MouseButtons::left());
    b.insert(MouseButtons::right());
    b.remove(MouseButtons::left());
    assert!(!b.contains(MouseButtons::left()));
    assert!(b.contains(MouseButtons::right()));
    assert_eq!(b.bits(), 2);
}
