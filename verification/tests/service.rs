use smoltasks::errors::{AuthError, ErrorClass};
use smoltasks::models::{Date, TodoDisplay, TodoEditable};
use smoltasks::store::Store;

fn milk_fields() -> TodoEditable {
    TodoEditable {
        title: "buy milk".to_string(),
        notes: "".to_string(),
        not_before: Date::new(2024, 1, 1).unwrap(),
        due: None,
    }
}

#[test]
fn sign_up_enforces_unique_usernames() {
    let mut store = Store::new();
    assert_eq!(store.create_user("alice", "secret1"), Ok(1));
    // Same username again: rejected, and no partial record is left behind.
    assert_eq!(store.create_user("alice", "other"), Err(AuthError::UsernameTaken));
    assert_eq!(store.user_count(), 1);
    assert_eq!(store.create_user("bob", "hunter2"), Ok(2));
    assert_eq!(store.user_count(), 2);
}

#[test]
fn usernames_are_case_sensitive() {
    let mut store = Store::new();
    assert_eq!(store.create_user("alice", "secret1"), Ok(1));
    assert_eq!(store.create_user("Alice", "secret1"), Ok(2));
}

#[test]
fn login_with_unknown_user_is_invalid_credentials() {
    let mut store = Store::new();
    assert_eq!(store.auth_user("nobody", "whatever"), Err(AuthError::InvalidCredentials));
}

#[test]
fn login_with_wrong_password_is_invalid_credentials() {
    let mut store = Store::new();
    store.create_user("alice", "secret1").unwrap();
    assert_eq!(store.auth_user("alice", "secret2"), Err(AuthError::InvalidCredentials));
}

#[test]
fn login_issues_a_verifiable_token() {
    let mut store = Store::new();
    store.create_user("alice", "secret1").unwrap();
    let token = store.auth_user("alice", "secret1").unwrap();
    assert_eq!(token.len(), 32);
    let user = store.verify_token(&token).expect("a fresh token verifies");
    assert_eq!(user.id, 1);
    assert_eq!(user.username, "alice");
    // The raw token is never stored and differs from what the store keeps.
    assert_ne!(user.password_hash, "secret1");
}

#[test]
fn unknown_token_is_unauthorized() {
    let mut store = Store::new();
    store.create_user("alice", "secret1").unwrap();
    store.auth_user("alice", "secret1").unwrap();
    assert!(store.verify_token("00000000000000000000000000000000").is_none());
    assert!(matches!(
        store.authenticate("00000000000000000000000000000000"),
        Err(AuthError::Unauthorized)
    ));
    // A raw token's own digest is not a valid token either.
    let digest = smoltasks::hashing::hash_token("some raw token");
    assert!(matches!(store.authenticate(&digest), Err(AuthError::Unauthorized)));
}

#[test]
fn several_sessions_may_coexist() {
    let mut store = Store::new();
    store.create_user("alice", "secret1").unwrap();
    let t1 = store.auth_user("alice", "secret1").unwrap();
    let t2 = store.auth_user("alice", "secret1").unwrap();
    assert_ne!(t1, t2);
    assert_eq!(store.verify_token(&t1).unwrap().id, 1);
    assert_eq!(store.verify_token(&t2).unwrap().id, 1);
}

#[test]
fn ownership_isolation() {
    let mut store = Store::new();
    store.create_user("alice", "secret1").unwrap();
    store.create_user("bob", "hunter2").unwrap();
    let alice_token = store.auth_user("alice", "secret1").unwrap();
    let bob_token = store.auth_user("bob", "hunter2").unwrap();
    let alice = store.authenticate(&alice_token).unwrap();
    let bob = store.authenticate(&bob_token).unwrap();

    let todo_id = store.create_todo(&alice, &milk_fields());
    assert_eq!(todo_id, 1);

    assert!(store.verify_todo_id(&alice, todo_id));
    assert!(!store.verify_todo_id(&bob, todo_id));
    // Bob's rejection has exactly the shape of a nonexistent id's.
    let on_alices = store.ownership_gate(&bob, todo_id).unwrap_err();
    let on_missing = store.ownership_gate(&bob, 999).unwrap_err();
    assert_eq!(on_alices, AuthError::NotFoundOrForbidden);
    assert_eq!(on_alices, on_missing);
    assert_eq!(on_alices.help_text(), on_missing.help_text());
}

#[test]
fn mark_done_is_idempotent() {
    let mut store = Store::new();
    store.create_user("alice", "secret1").unwrap();
    let token = store.auth_user("alice", "secret1").unwrap();
    let alice = store.authenticate(&token).unwrap();
    let todo_id = store.create_todo(&alice, &milk_fields());

    assert_eq!(store.get_active_todos(&alice).len(), 1);
    store.mark_todo_done(todo_id, true);
    assert_eq!(store.get_active_todos(&alice).len(), 0);
    // Marking done a second time: still done, no error.
    store.mark_todo_done(todo_id, true);
    assert_eq!(store.get_active_todos(&alice).len(), 0);
    // And it can be brought back.
    store.mark_todo_done(todo_id, false);
    assert_eq!(store.get_active_todos(&alice).len(), 1);
}

#[test]
fn mark_done_with_unknown_id_changes_nothing() {
    let mut store = Store::new();
    store.create_user("alice", "secret1").unwrap();
    let token = store.auth_user("alice", "secret1").unwrap();
    let alice = store.authenticate(&token).unwrap();
    store.create_todo(&alice, &milk_fields());
    store.mark_todo_done(42, true);
    assert_eq!(store.get_active_todos(&alice).len(), 1);
    assert_eq!(store.todo_count(), 1);
}

#[test]
fn update_overwrites_editable_fields_only() {
    let mut store = Store::new();
    store.create_user("alice", "secret1").unwrap();
    let token = store.auth_user("alice", "secret1").unwrap();
    let alice = store.authenticate(&token).unwrap();
    let todo_id = store.create_todo(&alice, &milk_fields());

    let edited = TodoEditable {
        title: "buy oat milk".to_string(),
        notes: "the blue carton".to_string(),
        not_before: Date::new(2024, 2, 29).unwrap(),
        due: Date::new(2024, 3, 1),
    };
    store.update_todo(todo_id, &edited);

    let active = store.get_active_todos(&alice);
    assert_eq!(active.len(), 1);
    assert_eq!(active[0].id, todo_id);
    assert_eq!(active[0].user_id, alice.id);
    assert_eq!(active[0].title, "buy oat milk");
    assert_eq!(active[0].notes, "the blue carton");
    assert_eq!(active[0].not_before, Date::new(2024, 2, 29).unwrap());
    assert_eq!(active[0].due, Date::new(2024, 3, 1));
    assert!(!active[0].done);
}

#[test]
fn active_list_is_scoped_to_the_caller() {
    let mut store = Store::new();
    store.create_user("alice", "secret1").unwrap();
    store.create_user("bob", "hunter2").unwrap();
    let alice = {
        let t = store.auth_user("alice", "secret1").unwrap();
        store.authenticate(&t).unwrap()
    };
    let bob = {
        let t = store.auth_user("bob", "hunter2").unwrap();
        store.authenticate(&t).unwrap()
    };
    store.create_todo(&alice, &milk_fields());
    let bobs = TodoEditable {
        title: "walk the dog".to_string(),
        notes: "".to_string(),
        not_before: Date::new(2024, 1, 2).unwrap(),
        due: None,
    };
    store.create_todo(&bob, &bobs);

    let alice_active = store.get_active_todos(&alice);
    assert_eq!(alice_active.len(), 1);
    assert_eq!(alice_active[0].title, "buy milk");
    let bob_active = store.get_active_todos(&bob);
    assert_eq!(bob_active.len(), 1);
    assert_eq!(bob_active[0].title, "walk the dog");
}

#[test]
fn example_scenario() {
    let mut store = Store::new();
    // Sign up alice/secret1: new id 1.
    assert_eq!(store.create_user("alice", "secret1"), Ok(1));
    // Same username again: 400 "username already exists".
    let taken = store.create_user("alice", "other").unwrap_err();
    assert_eq!(taken, AuthError::UsernameTaken);
    assert_eq!(taken.help_text(), "username already exists");
    assert_eq!(taken.http_status(), 400);
    // Login: a raw token.
    let token = store.auth_user("alice", "secret1").unwrap();
    // Whoami with that token: "alice".
    let alice = store.authenticate(&token).unwrap();
    assert_eq!(alice.username, "alice");
    // Create a todo: new id 1.
    let todo_id = store.create_todo(&alice, &milk_fields());
    assert_eq!(todo_id, 1);
    // The active list contains it, done false.
    let active = store.get_active_todos(&alice);
    assert_eq!(active.len(), 1);
    let shown = TodoDisplay::from_todo(active.into_iter().next().unwrap());
    assert_eq!(shown.id, 1);
    assert_eq!(shown.title, "buy milk");
    assert!(!shown.done);
    // Mark it done.
    store.mark_todo_done(todo_id, true);
    assert_eq!(store.get_active_todos(&alice).len(), 0);
    // A second user cannot touch it: same message as a nonexistent id.
    assert_eq!(store.create_user("bob", "hunter2"), Ok(2));
    let bob_token = store.auth_user("bob", "hunter2").unwrap();
    let bob = store.authenticate(&bob_token).unwrap();
    let denied = store.ownership_gate(&bob, todo_id).unwrap_err();
    assert_eq!(denied, AuthError::NotFoundOrForbidden);
    assert_eq!(denied.help_text(), "note does not exist");
    assert_eq!(denied.http_status(), 400);
}

#[test]
fn error_texts_and_statuses() {
    assert_eq!(AuthError::UsernameTaken.help_text(), "username already exists");
    assert_eq!(AuthError::InvalidCredentials.help_text(), "username or password wrong");
    assert_eq!(AuthError::Unauthorized.help_text(), "invalid x-auth-token");
    assert_eq!(AuthError::NotFoundOrForbidden.help_text(), "note does not exist");
    assert_eq!(AuthError::InvalidCredentials.http_status(), 400);
    assert_eq!(ErrorClass::Validation.http_status(), 400);
    assert_eq!(ErrorClass::Auth.http_status(), 400);
    assert_eq!(ErrorClass::Storage.http_status(), 500);
}

#[test]
fn date_validity() {
    assert!(Date::new(2024, 2, 29).is_some());
    assert!(Date::new(2023, 2, 29).is_none());
    assert!(Date::new(2000, 2, 29).is_some());
    assert!(Date::new(1900, 2, 29).is_none());
    assert!(Date::new(2024, 4, 31).is_none());
    assert!(Date::new(2024, 12, 31).is_some());
    assert!(Date::new(2024, 0, 1).is_none());
    assert!(Date::new(2024, 13, 1).is_none());
    assert!(Date::new(2024, 1, 0).is_none());
    assert!(Date::new(0, 1, 1).is_none());
}
