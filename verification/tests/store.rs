use aid::history::{History, HistoryMessage};
use aid::ichat::Role;
use aid::path::{get_config_path, FileInfo};

fn store(expiration: u32) -> History {
    let info = get_config_path("/tmp/conf", "history.json", false);
    History::new(info, expiration)
}

#[test]
fn config_path_is_joined() {
    let info = get_config_path("/etc/app", "setup.json", true);
    assert_eq!(info.path, "/etc/app/setup.json");
    assert!(info.exists);
}

#[test]
fn new_store_is_empty() {
    let h = store(100);
    assert_eq!(h.file(), "/tmp/conf/history.json");
    assert!(!h.file_exists());
    assert!(h.save().is_empty());
    assert!(h.get_completions().is_empty());
}

#[test]
fn missing_file_loads_nothing() {
    let mut h = store(100);
    h.load(None, 1_000);
    assert!(h.save().is_empty());
}

#[test]
fn load_then_save_is_identity_when_nothing_expired() {
    let turns = vec![
        HistoryMessage::new(900, "openai", "q1", "a1"),
        HistoryMessage::new(950, "openai", "q2", "a2"),
    ];
    let mut h = store(200);
    h.load(Some(turns.clone()), 1_000);
    assert_eq!(h.save(), turns);
}

#[test]
fn expired_turns_are_dropped_on_load() {
    let old = HistoryMessage::new(100, "openai", "old", "x");
    let fresh = HistoryMessage::new(950, "openai", "new", "y");
    let mut h = store(200);
    // Present before the load-side filter runs…
    let persisted = vec![old.clone(), fresh.clone()];
    assert!(persisted.contains(&old));
    // …absent after a load whose clock has advanced past the threshold.
    h.load(Some(persisted), 1_000);
    assert_eq!(h.save(), vec![fresh]);
}

#[test]
fn age_exactly_at_threshold_is_not_expired() {
    let boundary = HistoryMessage::new(800, "openai", "edge", "z");
    let mut h = store(200);
    h.load(Some(vec![boundary.clone()]), 1_000);
    assert_eq!(h.save(), vec![boundary.clone()]);
    assert!(!h.is_expired(800, 1_000));
    assert!(h.is_expired(799, 1_000));
}

#[test]
fn add_stamped_appends_in_order() {
    let mut h = store(100);
    h.add_stamped(10, "openai", "q1", "a1");
    h.add_stamped(20, "llama", "q2", "a2");
    let saved = h.save();
    assert_eq!(saved.len(), 2);
    assert_eq!(saved[0], HistoryMessage::new(10, "openai", "q1", "a1"));
    assert_eq!(saved[1], HistoryMessage::new(20, "llama", "q2", "a2"));
}

#[test]
fn add_stamps_with_the_current_clock() {
    let mut h = store(100);
    h.add("openai", "question", "answer");
    let saved = h.save();
    assert_eq!(saved.len(), 1);
    assert_eq!(saved[0].chat, "openai");
    assert_eq!(saved[0].user, "question");
    assert_eq!(saved[0].assistant, "answer");
    // Stamped by the wall clock: any plausible recent time, not a default.
    assert!(saved[0].date > 1_600_000_000);
}

#[test]
fn clear_empties_the_memory_only() {
    let mut h = store(100);
    h.add_stamped(10, "openai", "q", "a");
    h.clear();
    assert!(h.save().is_empty());
}

#[test]
fn completions_alternate_user_and_assistant() {
    let mut h = store(100);
    h.add_stamped(10, "openai", "q1", "a1");
    h.add_stamped(20, "openai", "q2", "a2");
    let ms = h.get_completions();
    assert_eq!(ms.len(), 4);
    assert_eq!(ms[0].role, Role::User);
    assert_eq!(ms[0].content, "q1");
    assert_eq!(ms[1].role, Role::Assistant);
    assert_eq!(ms[1].content, "a1");
    assert_eq!(ms[2].role, Role::User);
    assert_eq!(ms[2].content, "q2");
    assert_eq!(ms[3].role, Role::Assistant);
    assert_eq!(ms[3].content, "a2");
}

#[test]
fn file_info_carries_the_existence_answer() {
    let info = FileInfo { path: String::from("/x/y"), exists: true };
    let h = History::new(info, 5);
    assert!(h.file_exists());
    assert_eq!(h.file(), "/x/y");
}
