use veila::common::ipc::ClientMessage;
use veila::common::secret::{Secret, SECRET_CAPACITY};

#[test]
fn redacts_plaintext_in_debug_output() {
    let secret = Secret::from(String::from("hunter2"));

    let rendered = format!("{secret:?}");

    assert!(!rendered.contains("hunter2"), "debug output leaked: {rendered}");
    assert_eq!(rendered, "Secret(<redacted>)");
}

#[test]
fn reserves_enough_capacity_to_never_reallocate_while_typing() {
    let mut secret = Secret::new();
    let capacity_before = secret.capacity();

    // The input layer caps entry at 128 characters // 4-byte characters are the worst case
    for _ in 0..128 {
        secret.push('\u{10348}');
    }

    assert_eq!(secret.capacity(), capacity_before);
    assert!(capacity_before >= SECRET_CAPACITY);
}

#[test]
fn keeps_capacity_after_clearing() {
    let mut secret = Secret::from(String::from("hunter2"));
    secret.clear();

    assert!(secret.is_empty());
    assert!(secret.capacity() >= SECRET_CAPACITY);
}

#[test]
fn pop_removes_only_the_last_character() {
    let mut secret = Secret::new();
    for character in "abcä".chars() {
        secret.push(character);
    }

    secret.pop();

    assert_eq!(secret.expose(), "abc");
    assert_eq!(secret.char_count(), 3);
}

#[test]
fn pop_on_an_empty_secret_leaves_it_empty() {
    let mut secret = Secret::default();
    secret.pop();
    assert!(secret.is_empty());
    assert_eq!(secret.char_count(), 0);
}

#[test]
fn clone_holds_the_same_text() {
    let secret = Secret::from(String::from("hunter2"));
    let copy = secret.clone();
    assert_eq!(copy.expose(), "hunter2");
    assert!(copy == secret);
}

#[test]
fn submitted_password_is_redacted_in_debug_output() {
    let message = ClientMessage::SubmitPassword {
        attempt_id: 1,
        secret: Secret::from(String::from("hunter2")),
    };

    let rendered = format!("{message:?}");

    assert!(
        !rendered.contains("hunter2"),
        "debug output leaked the secret: {rendered}"
    );
    assert!(rendered.contains("<redacted>"));
}

#[test]
fn every_secret_is_shown_alike() {
    let typed = Secret::from(String::from("hunter2"));
    assert_eq!(format!("{typed:?}"), "Secret(<redacted>)");
    assert_eq!(format!("{:?}", Secret::new()), "Secret(<redacted>)");
}
