use moolah::predictions::{NewPrediction, Prediction};
use moolah::session::ContextData;
use moolah::users::{UserLoginRequestForm, UserRegisterForm};

#[test]
fn prediction_getters_return_fields() {
    let p = Prediction::new(7, "alice".to_string(), "house".to_string());
    assert_eq!(p.id(), 7);
    assert_eq!(p.username(), "alice");
    assert_eq!(p.name(), "house");
}

#[test]
fn new_prediction_lowercases_owner_and_name() {
    let p = NewPrediction::new("ALICE".to_string(), "My House".to_string());
    assert_eq!(p.username(), "alice");
    assert_eq!(p.name(), "my house");
}

#[test]
fn register_form_lowercases_identity_but_not_passwords() {
    let form = UserRegisterForm::new(
        "JoHnDoe".to_string(),
        "John@Example.COM".to_string(),
        "Secret Pass1!".to_string(),
        "Secret Pass1!".to_string(),
    );
    assert_eq!(form.username(), "johndoe");
    assert_eq!(form.email(), "john@example.com");
    assert_eq!(form.password(), "Secret Pass1!");
    assert_eq!(form.confirm_password(), "Secret Pass1!");
}

#[test]
fn login_request_form_lowercases_username() {
    let form = UserLoginRequestForm::new("JoHnDoe".to_string());
    assert_eq!(form.username, "johndoe");
}

#[test]
fn context_starts_logged_out() {
    let mut ctx = ContextData::new();
    assert!(!ctx.is_logged_in(None));
    assert_eq!(ctx.username(None), None);
}

#[test]
fn context_recalls_stored_identity() {
    let mut ctx = ContextData::new();
    assert!(ctx.is_logged_in(Some("alice".to_string())));
    assert_eq!(ctx.username(None), Some("alice".to_string()));
}

#[test]
fn context_login_normalizes_and_remembers() {
    let mut ctx = ContextData::new();
    let remembered = ctx.login("ALICE".to_string());
    assert_eq!(remembered, "alice");
    assert!(ctx.is_logged_in(None));
    assert_eq!(ctx.username(None), Some("alice".to_string()));
}

#[test]
fn context_keeps_identity_over_recall() {
    let mut ctx = ContextData::new();
    ctx.login("alice".to_string());
    assert!(ctx.is_logged_in(Some("bob".to_string())));
    assert_eq!(ctx.username(Some("bob".to_string())), Some("alice".to_string()));
}

#[test]
fn context_logout_forgets() {
    let mut ctx = ContextData::new();
    ctx.login("alice".to_string());
    ctx.logout();
    assert!(!ctx.is_logged_in(None));
    assert_eq!(ctx.username(None), None);
}
