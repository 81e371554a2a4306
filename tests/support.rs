use quiz_engine::error::ApiError;
use quiz_engine::jwt::AuthBody;
use quiz_engine::password::{hash_password, verification_outcome, verify_password};
use quiz_engine::subscriptions::{check_topic_access, disable_expired_subscriptions, Subscription, TasksEnum};
use quiz_engine::users::{credentials_outcome, Model};

fn user_with(hash: &str) -> Model {
    Model {
        id: 1,
        email: "a@b.c".to_string(),
        password: hash.to_string(),
        username: None,
        phone_number: None,
    }
}

#[test]
fn error_messages_and_codes() {
    assert_eq!(ApiError::InvalidState.message(), "Invalid state");
    assert_eq!(ApiError::InvalidState.status_code(), 422);
    assert_eq!(ApiError::NotFound.message(), "Resource not found");
    assert_eq!(ApiError::NotFound.status_code(), 404);
    assert_eq!(ApiError::AlreadyExists.message(), "Resource already exists");
    assert_eq!(ApiError::Conflict.status_code(), 409);
    assert_eq!(ApiError::Forbidden.status_code(), 403);
    assert_eq!(ApiError::InvalidInput.status_code(), 400);
    assert_eq!(ApiError::MissingField.message(), "Required field is missing");
    assert_eq!(ApiError::NoMoney.message(), "No money, no honey");
    assert_eq!(ApiError::PaymentRequired.status_code(), 402);
    assert_eq!(ApiError::Any500.message(), "");
    assert_eq!(ApiError::GatewayTimeout.status_code(), 504);
}

#[test]
fn password_round_trip() {
    let hash = hash_password("secret").ok().unwrap();
    assert!(hash.starts_with("$argon2"));
    assert_eq!(verify_password("secret".to_string(), hash.clone()), Ok(true));
    assert_eq!(verify_password("Secret".to_string(), hash.clone()), Ok(false));
    let user = user_with(&hash);
    assert_eq!(user.validate_password("secret".to_string()), Ok(()));
    assert_eq!(user.validate_password("other".to_string()), Err(ApiError::Unauthorized));
}

#[test]
fn unreadable_hash_is_internal_error() {
    assert_eq!(
        verify_password("secret".to_string(), "not a hash".to_string()),
        Err(ApiError::InternalServerError)
    );
    assert_eq!(
        user_with("plain").validate_password("plain".to_string()),
        Err(ApiError::InternalServerError)
    );
}

#[test]
fn check_outcomes() {
    assert_eq!(verification_outcome(None), Err(ApiError::InternalServerError));
    assert_eq!(verification_outcome(Some(false)), Ok(false));
    assert_eq!(credentials_outcome(Ok(true)), Ok(()));
    assert_eq!(credentials_outcome(Ok(false)), Err(ApiError::Unauthorized));
    assert_eq!(credentials_outcome(Err(ApiError::InternalServerError)), Err(ApiError::InternalServerError));
}

#[test]
fn bearer_body() {
    let b = AuthBody::new("tok".to_string());
    assert_eq!(b.access_token, "tok");
    assert_eq!(b.token_type, "Bearer");
}

fn sub(user_id: u128, is_active: bool, expire_at: i64) -> Subscription {
    Subscription { user_id, is_active, is_deleted: false, expire_at }
}

#[test]
fn topic_access_by_subscription() {
    let subs = vec![sub(1, true, 500), sub(2, false, 900), sub(3, true, 50)];
    assert_eq!(check_topic_access(false, 9, &subs, 100), Ok(()));
    assert_eq!(check_topic_access(true, 1, &subs, 100), Ok(()));
    assert_eq!(check_topic_access(true, 2, &subs, 100), Err(ApiError::PaymentRequired));
    assert_eq!(check_topic_access(true, 3, &subs, 100), Err(ApiError::PaymentRequired));
    assert_eq!(check_topic_access(true, 9, &subs, 100), Err(ApiError::PaymentRequired));
}

#[test]
fn expiry_sweep() {
    let mut subs = vec![sub(1, true, 500), sub(2, true, 50), sub(3, false, 50)];
    subs.push(Subscription { user_id: 4, is_active: true, is_deleted: true, expire_at: 10 });
    disable_expired_subscriptions(&mut subs, 100);
    assert_eq!(subs.iter().map(|s| s.is_active).collect::<Vec<_>>(), vec![true, false, false, true]);
    assert_eq!(TasksEnum::default(), TasksEnum::CheckSubscriptions);
}

#[test]
fn registered_password_verifies() {
    let params = quiz_engine::users::AuthParams { email: "x@y.z".to_string(), password: "hunter2".to_string() };
    let user = Model::create_with_password(&vec![], 5, &params).ok().unwrap();
    assert_eq!(user.id, 5);
    assert_eq!(user.validate_password("hunter2".to_string()), Ok(()));
    let again = Model::create_with_password(&vec![user], 6, &params);
    assert_eq!(again.err(), Some(ApiError::DuplicateEntry));
    let short = quiz_engine::users::AuthParams { email: "a@b.c".to_string(), password: "ab".to_string() };
    assert_eq!(Model::create_with_password(&vec![], 7, &short).err(), Some(ApiError::ValidationFailed));
}
