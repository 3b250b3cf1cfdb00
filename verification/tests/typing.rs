use dex::event::TypingEvent;
use dex::screen::{TermBuf, TermSize};
use dex::typing::Indicator;

fn ev(user_id: u64, timestamp: u64, name: Option<&str>) -> TypingEvent {
    TypingEvent { user_id, timestamp, user_name: name.map(|n| n.to_string()) }
}

fn shown(ind: &Indicator) -> String {
    let mut buf = TermBuf::new(TermSize { width: 30, height: 3 });
    ind.render(&mut buf, TermSize { width: 30, height: 3 });
    let rows = buf.draw_rows();
    rows[2].trim_start().to_string()
}

#[test]
fn renotifying_does_not_duplicate_a_user() {
    let mut ind = Indicator::new();
    assert!(ind.typing_start(ev(7, 100, Some("ada"))));
    assert!(ind.typing_start(ev(7, 105, None)));
    assert_eq!(shown(&ind), "ada");
}

#[test]
fn renotifying_refreshes_the_timestamp() {
    let mut ind = Indicator::new();
    assert!(ind.typing_start(ev(7, 0, Some("ada"))));
    assert!(ind.typing_start(ev(7, 100, None)));
    // Swept long after the first notice but within the TTL of the
    // second: the refreshed entry survives.
    ind.sweep(105);
    assert_eq!(shown(&ind), "ada");
}

#[test]
fn unresolvable_user_is_ignored() {
    let mut ind = Indicator::new();
    assert!(!ind.typing_start(ev(9, 50, None)));
    assert_eq!(shown(&ind), "");
}

#[test]
fn entries_expire_at_the_ttl_boundary() {
    let mut ind = Indicator::new();
    assert!(ind.typing_start(ev(1, 100, Some("ada"))));
    ind.sweep(109);
    assert_eq!(shown(&ind), "ada");
    ind.sweep(111);
    assert_eq!(shown(&ind), "");

    let mut later = Indicator::new();
    assert!(later.typing_start(ev(1, 100, Some("ada"))));
    later.sweep(110);
    assert_eq!(shown(&later), "");
}

#[test]
fn several_users_join_with_commas() {
    let mut ind = Indicator::new();
    assert!(ind.typing_start(ev(1, 10, Some("ada"))));
    assert!(ind.typing_start(ev(2, 11, Some("bob"))));
    assert_eq!(shown(&ind), "ada, bob");
    ind.sweep(20);
    assert_eq!(shown(&ind), "bob");
}

#[test]
fn indicator_text_is_right_aligned() {
    let mut ind = Indicator::new();
    assert!(ind.typing_start(ev(1, 10, Some("ada"))));
    let mut buf = TermBuf::new(TermSize { width: 30, height: 3 });
    ind.render(&mut buf, TermSize { width: 30, height: 3 });
    // Three name columns, one spacer, three columns of side padding.
    assert_eq!(buf.get_cell(23, 2), Some("a".to_string()));
    assert_eq!(buf.get_cell(24, 2), Some("d".to_string()));
    assert_eq!(buf.get_cell(25, 2), Some("a".to_string()));
    assert_eq!(buf.get_cell(26, 2), None);
}
