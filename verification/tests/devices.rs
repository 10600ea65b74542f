use iris::api_error::ApiError;
use iris::devices::{
    active_code, claimed_code, code_from, create_code, generate_code, link, linked, normalize_code,
    poll, revoked, DeviceCodeRow, LinkRequest, PollResponse, PollStep,
};
use iris::user::{User, UserId};

#[test]
fn codes_are_two_halves_of_plain_characters() {
    for _ in 0..50 {
        let code = generate_code();
        assert_eq!(code.len(), 9);
        assert_eq!(code.as_bytes()[4], b'-');
        for (i, c) in code.chars().enumerate() {
            assert!(i == 4 || "ABCDEFGHJKMNPQRSTUVWXYZ23456789".contains(c));
        }
        assert_eq!(normalize_code(&format!(" {} ", code.to_lowercase())), code);
    }
    assert_ne!(generate_code(), generate_code());
}

#[test]
fn code_shows_what_was_drawn() {
    assert_eq!(code_from(&vec![0, 1, 2, 3, 27, 28, 29, 30]), "ABCD-6789");
    assert_eq!(code_from(&vec![7, 8, 9, 10, 11, 12, 13, 22]), "HJKM-NPQZ");
}

#[test]
fn code_is_entered_at_the_public_address() {
    let r = create_code("ABCD-6789".to_string(), 5, "https://iris.example//");
    assert_eq!(r.verification_url, "https://iris.example/account?pair=ABCD-6789");
    assert_eq!((r.device_id, r.expires_in), (5, 600));
}

fn row(expires_at: i64, claimed_by: Option<u128>) -> DeviceCodeRow {
    DeviceCodeRow {
        expires_at,
        claimed_by,
        label: None,
        kind: "tv".to_string(),
    }
}

#[test]
fn polling_ends_with_the_code() {
    assert!(matches!(poll(None, 0), Err(ApiError::NotFound)));
    assert!(matches!(
        poll(Some(&row(10, None)), 10),
        Ok(PollStep::Answer(PollResponse::Pending))
    ));
    assert!(matches!(poll(Some(&row(10, Some(3))), 10), Ok(PollStep::LoadUser(3))));
    assert!(matches!(
        poll(Some(&row(10, Some(3))), 11),
        Ok(PollStep::Answer(PollResponse::Expired))
    ));
}

#[test]
fn linked_device_learns_its_user() {
    let u = User {
        id: UserId(3),
        email: "a@b".to_string(),
        display_name: "a".to_string(),
        is_admin: false,
        created_at: 0,
    };
    match linked(Some(&u)) {
        Ok(PollResponse::Linked { user }) => assert_eq!((user.id, user.email.as_str()), (3, "a@b")),
        other => panic!("unexpected {other:?}"),
    }
    assert!(matches!(linked(None), Err(ApiError::NotFound)));
}

#[test]
fn blank_label_is_none() {
    let req = |label: Option<&str>| LinkRequest {
        code: " abcd-6789".to_string(),
        label: label.map(str::to_string),
    };
    assert_eq!(link(&req(Some(" TV "))), ("ABCD-6789".to_string(), Some("TV".to_string())));
    assert_eq!(link(&req(Some("  "))).1, None);
    assert_eq!(link(&req(None)).1, None);
}

#[test]
fn codes_are_claimed_once() {
    assert!(active_code(true).is_ok() && claimed_code(true).is_ok() && revoked(true).is_ok());
    assert!(matches!(active_code(false), Err(ApiError::BadRequest(m)) if m == "invalid or expired code"));
    assert!(matches!(claimed_code(false), Err(ApiError::Conflict(m)) if m == "code already claimed or expired"));
    assert!(matches!(revoked(false), Err(ApiError::NotFound)));
}
