use file_handoff::store::AppState;
use std::sync::Mutex;

#[test]
fn new_store_is_empty() {
    let mut state = AppState::new();
    assert_eq!(state.take_pending_file(), None);
}

#[test]
fn take_after_set_returns_the_path_once() {
    let mut state = AppState::new();
    state.set_pending_file(String::from("notes.md"));
    assert_eq!(state.take_pending_file(), Some(String::from("notes.md")));
    assert_eq!(state.take_pending_file(), None);
}

#[test]
fn second_set_overwrites_the_first() {
    let mut state = AppState::new();
    state.set_pending_file(String::from("first.md"));
    state.set_pending_file(String::from("second.md"));
    assert_eq!(state.take_pending_file(), Some(String::from("second.md")));
    assert_eq!(state.take_pending_file(), None);
}

#[test]
fn take_on_empty_store_is_harmless() {
    let mut state = AppState::new();
    assert_eq!(state.take_pending_file(), None);
    assert_eq!(state.take_pending_file(), None);
    state.set_pending_file(String::from("later.md"));
    assert_eq!(state.take_pending_file(), Some(String::from("later.md")));
}

#[test]
fn store_can_be_refilled_after_a_take() {
    let mut state = AppState::new();
    state.set_pending_file(String::from("a.md"));
    assert_eq!(state.take_pending_file(), Some(String::from("a.md")));
    state.set_pending_file(String::from("b.markdown"));
    assert_eq!(state.take_pending_file(), Some(String::from("b.markdown")));
    assert_eq!(state.take_pending_file(), None);
}

#[test]
fn store_keeps_the_path_as_written() {
    let mut state = AppState::new();
    state.set_pending_file(String::from("C:\\Docs\\Übersicht.MD"));
    assert_eq!(
        state.take_pending_file(),
        Some(String::from("C:\\Docs\\Übersicht.MD"))
    );
}

#[test]
fn many_takes_after_one_set_deliver_once() {
    let mut state = AppState::new();
    state.set_pending_file(String::from("only.md"));
    let mut delivered = 0;
    let mut empty = 0;
    for _ in 0..16 {
        match state.take_pending_file() {
            Some(path) => {
                assert_eq!(path, "only.md");
                delivered += 1;
            }
            None => empty += 1,
        }
    }
    assert_eq!(delivered, 1);
    assert_eq!(empty, 15);
}

#[test]
fn takes_through_a_shared_lock_deliver_once() {
    let mut state = AppState::new();
    state.set_pending_file(String::from("shared.md"));
    let shared = Mutex::new(state);
    let frontend = || shared.lock().unwrap().take_pending_file();
    let second_window = || shared.lock().unwrap().take_pending_file();
    let results = vec![second_window(), frontend(), frontend(), second_window()];
    let delivered: Vec<&String> = results.iter().flatten().collect();
    assert_eq!(delivered, vec!["shared.md"]);
    assert_eq!(results.iter().filter(|r| r.is_none()).count(), 3);
}
