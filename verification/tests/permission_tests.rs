use agent_workbench::json::Json;
use agent_workbench::memory::object1;
use agent_workbench::store::{open_store_at, Db, SavedDb};

fn empty() -> Json {
    Json::Object(Vec::new())
}

#[test]
fn fs_write_remember_does_not_authorize_exec() {
    let mut db = Db::open_in_memory();
    db.permissions.remember("fs_write", true).unwrap();
    assert_eq!(db.permissions.lookup_remembered("fs_write").unwrap(), Some(true));
    assert_eq!(
        db.permissions.lookup_remembered("exec").unwrap(),
        None,
        "different op_type must not inherit grant"
    );
    assert_eq!(db.permissions.decision_for("exec").unwrap(), None);
}

#[test]
fn unremembered_is_not_auto_allowed() {
    let mut db = Db::open_in_memory();
    assert_eq!(db.permissions.decision_for("edit").unwrap(), None);
    let id = db
        .permissions
        .record_request(&mut db.journal, Some("sess"), "edit", Some("call_1"), &empty())
        .unwrap();
    // Explicit deny without remember — standing lookup still empty.
    db.permissions.resolve(&mut db.journal, id, false, false, "edit").unwrap();
    assert_eq!(db.permissions.lookup_remembered("edit").unwrap(), None);
    let kinds: Vec<String> = db.journal.list_since(0, 20).unwrap().into_iter().map(|e| e.kind).collect();
    assert!(kinds.iter().any(|k| k == "permission_requested"));
    assert!(kinds.iter().any(|k| k == "permission_resolved"));
}

#[test]
fn latest_remembered_decision_wins() {
    let mut db = Db::open_in_memory();
    db.permissions.remember("edit", true).unwrap();
    db.permissions.remember("edit", false).unwrap();
    assert_eq!(db.permissions.lookup_remembered("edit").unwrap(), Some(false));
    assert_eq!(db.permissions.decision_for("edit").unwrap(), Some(false));
}

#[test]
fn empty_op_type_never_decides() {
    let mut db = Db::open_in_memory();
    db.permissions.remember("", true).unwrap();
    assert_eq!(db.permissions.decision_for("").unwrap(), None);
}

#[test]
fn resolve_with_remember_grants_later_requests() {
    let mut db = Db::open_in_memory();
    let id = db
        .permissions
        .record_request(&mut db.journal, None, "fs_write", None, &object1("x", Json::Bool(true)))
        .unwrap();
    assert_eq!(id, 1);
    db.permissions.resolve(&mut db.journal, id, true, true, "fs_write").unwrap();
    assert_eq!(db.permissions.decision_for("fs_write").unwrap(), Some(true));
    assert_eq!(db.permissions.decision_for("exec").unwrap(), None);
}

#[test]
fn remember_survives_new_db_handle() {
    let saved = {
        let mut db = Db::open_in_memory();
        db.permissions.remember("fs_write", true).unwrap();
        assert_eq!(db.permissions.lookup_remembered("fs_write").unwrap(), Some(true));
        let (events, permissions, l0_rules, l1_facts, proposals, l2_bullets) = db.snapshot_tables();
        SavedDb { events, permissions, l0_rules, l1_facts, proposals, l2_bullets, runs: db.runs }
    };
    // A new handle opened on what was saved.
    let db2 = open_store_at(Some(saved)).unwrap();
    assert_eq!(db2.permissions.lookup_remembered("fs_write").unwrap(), Some(true));
}
