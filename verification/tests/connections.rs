use videre::ui::connections::{generate_id, ConnectionStore, SavedConnection};

fn conn(id: &str, host: &str, at: u64) -> SavedConnection {
    SavedConnection {
        id: id.into(),
        host: host.into(),
        port: "5432".into(),
        database: "db".into(),
        username: "me".into(),
        saved_at: at,
    }
}

#[test]
fn ids_are_hex_time_and_random() {
    assert_eq!(generate_id(255, 4096), "ff-1000");
    assert_eq!(generate_id(0, 0), "0-0");
}

#[test]
fn saving_a_new_connection_puts_it_first() {
    let store = ConnectionStore { connections: vec![conn("a", "h1", 1)], is_loaded: true };
    let out = store.save_connection("h2".into(), "5432".into(), "db".into(), "me".into(), "b".into(), 9);
    assert_eq!(out.len(), 2);
    assert_eq!(out[0].id, "b");
    assert_eq!(out[0].host, "h2");
    assert_eq!(out[0].saved_at, 9);
    assert_eq!(out[1].id, "a");
}

#[test]
fn saving_a_known_connection_moves_it_and_refreshes_its_time() {
    let store = ConnectionStore {
        connections: vec![conn("a", "h1", 1), conn("b", "h2", 2), conn("c", "h3", 3)],
        is_loaded: true,
    };
    let out = store.save_connection("h2".into(), "5432".into(), "db".into(), "me".into(), "new".into(), 50);
    let ids: Vec<_> = out.iter().map(|c| c.id.as_str()).collect();
    assert_eq!(ids, vec!["b", "a", "c"]);
    assert_eq!(out[0].saved_at, 50);
}

#[test]
fn only_ten_are_kept() {
    let connections: Vec<_> = (0..10).map(|i| conn(&i.to_string(), &format!("h{i}"), i)).collect();
    let store = ConnectionStore { connections, is_loaded: true };
    let out = store.save_connection("new".into(), "5432".into(), "db".into(), "me".into(), "x".into(), 99);
    assert_eq!(out.len(), 10);
    assert_eq!(out[0].id, "x");
    assert_eq!(out[9].id, "8");
}

#[test]
fn removing_drops_only_that_id() {
    let store = ConnectionStore {
        connections: vec![conn("a", "h1", 1), conn("b", "h2", 2), conn("a", "h3", 3)],
        is_loaded: true,
    };
    let out = store.remove_connection("a");
    assert_eq!(out.len(), 1);
    assert_eq!(out[0].id, "b");
}

#[test]
fn loading_marks_the_store_loaded() {
    let mut store = ConnectionStore::init();
    assert!(!store.is_loaded);
    store.finish_loading(None);
    assert!(store.is_loaded);
    assert!(store.connections.is_empty());
    store.finish_loading(Some(vec![conn("a", "h", 1)]));
    assert_eq!(store.connections.len(), 1);
}
