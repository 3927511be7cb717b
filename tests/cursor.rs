use fifm::cursor::StatefulList;

fn list(n: usize) -> StatefulList<String> {
    let mut items = Vec::new();
    for i in 0..n {
        items.push(format!("row {}", i));
    }
    StatefulList::with_items(items)
}

#[test]
fn starts_without_selection() {
    let l = list(3);
    assert_eq!(l.selected(), None);
    assert_eq!(l.items.len(), 3);
}

#[test]
fn next_from_nothing_selects_first() {
    let mut l = list(3);
    l.next();
    assert_eq!(l.selected(), Some(0));
}

#[test]
fn previous_from_nothing_selects_first() {
    let mut l = list(3);
    l.previous();
    assert_eq!(l.selected(), Some(0));
}

#[test]
fn next_wraps_after_last() {
    let mut l = list(3);
    l.selected = Some(2);
    l.next();
    assert_eq!(l.selected(), Some(0));
}

#[test]
fn previous_wraps_before_first() {
    let mut l = list(3);
    l.selected = Some(0);
    l.previous();
    assert_eq!(l.selected(), Some(2));
}

#[test]
fn next_n_times_returns_to_start() {
    for n in 1..6 {
        let mut l = list(n);
        l.selected = Some(0);
        for _ in 0..n {
            l.next();
            let i = l.selected().unwrap();
            assert!(i < n);
        }
        assert_eq!(l.selected(), Some(0));
    }
}

#[test]
fn previous_stays_in_range() {
    let mut l = list(4);
    for _ in 0..9 {
        l.previous();
        assert!(l.selected().unwrap() < 4);
    }
}

#[test]
fn empty_list_has_nothing_to_select() {
    let mut l = list(0);
    l.next();
    assert_eq!(l.selected(), None);
    l.previous();
    assert_eq!(l.selected(), None);
}

#[test]
fn unselect_clears() {
    let mut l = list(2);
    l.next();
    l.unselect();
    assert_eq!(l.selected(), None);
}
