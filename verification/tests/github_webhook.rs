use gh_scaleset_pve::middleware::github_webhook::future::{validate_request, SignatureValidation, State, Step};
use gh_scaleset_pve::middleware::github_webhook::layer::ValidateGitHubWebhookLayer;
use gh_scaleset_pve::middleware::github_webhook::signature::{extract_signature, Rejection};
use hmac::{Hmac, Mac};
use sha2::Sha256;

fn sign(secret: &str, body: &[u8]) -> String {
    let mut hmac =
        Hmac::<Sha256>::new_from_slice(secret.as_bytes()).expect("Failed to parse webhook secret");
    hmac.update(body);
    format!("sha256={}", hex::encode(hmac.finalize().into_bytes()))
}

#[test]
fn gives_unauthorized_error_when_no_header() {
    let layer = ValidateGitHubWebhookLayer::new("123");
    let res = validate_request(layer.webhook_secret().as_bytes(), None, &vec![]);
    assert_eq!(res, Err(Rejection::MissingSignatureHeader));
}

#[test]
fn gives_unauthorized_error_when_wrong_signature() {
    let layer = ValidateGitHubWebhookLayer::new("123");
    let res = validate_request(
        layer.webhook_secret().as_bytes(),
        Some("sha256=fake".as_bytes()),
        &vec![],
    );
    assert!(res.is_err());
    assert_eq!(res, Err(Rejection::InvalidHeaderFormat));
}

#[test]
fn gives_ok_when_correct_signature() {
    let layer = ValidateGitHubWebhookLayer::new("123");
    let signature = sign("123", b"hello world");
    let res = validate_request(
        layer.webhook_secret().as_bytes(),
        Some(signature.as_bytes()),
        &vec![b"hello world".to_vec()],
    );
    assert_eq!(res, Ok(b"hello world".to_vec()));
}

#[test]
fn body_split_into_frames_is_reassembled() {
    let signature = sign("123", b"hello world");
    let res = validate_request(
        b"123",
        Some(signature.as_bytes()),
        &vec![b"hel".to_vec(), Vec::new(), b"lo wor".to_vec(), b"ld".to_vec()],
    );
    assert_eq!(res, Ok(b"hello world".to_vec()));
}

#[test]
fn signature_under_other_secret_is_refused() {
    let signature = sign("456", b"hello world");
    let res = validate_request(b"123", Some(signature.as_bytes()), &vec![b"hello world".to_vec()]);
    assert_eq!(res, Err(Rejection::InvalidSignature));
}

#[test]
fn signature_of_other_body_is_refused() {
    let signature = sign("123", b"hello world");
    let res = validate_request(b"123", Some(signature.as_bytes()), &vec![b"hello world!".to_vec()]);
    assert_eq!(res, Err(Rejection::InvalidSignature));
}

#[test]
fn upper_case_hex_signature_is_accepted() {
    let signature = sign("123", b"payload").to_uppercase();
    let res = validate_request(b"123", Some(signature.as_bytes()), &vec![b"payload".to_vec()]);
    assert_eq!(res, Ok(b"payload".to_vec()));
}

#[test]
fn header_without_equals_sign_is_malformed() {
    assert_eq!(extract_signature(Some(b"sha256")), Err(Rejection::InvalidHeaderFormat));
}

#[test]
fn odd_length_hex_is_malformed() {
    assert_eq!(extract_signature(Some(b"sha256=abc")), Err(Rejection::InvalidHeaderFormat));
}

#[test]
fn signature_is_taken_after_first_equals_sign() {
    assert_eq!(extract_signature(Some(b"x=0aFf")), Ok(vec![0x0a, 0xff]));
    assert_eq!(extract_signature(Some(b"a=b=00")), Err(Rejection::InvalidHeaderFormat));
    assert_eq!(extract_signature(Some(b"sha256=")), Ok(vec![]));
}

#[test]
fn empty_signature_never_matches() {
    let res = validate_request(b"123", Some(b"sha256="), &vec![b"x".to_vec()]);
    assert_eq!(res, Err(Rejection::InvalidSignature));
}

#[test]
fn rejection_messages() {
    assert_eq!(Rejection::MissingSignatureHeader.debug_message(), "Missing X-HUB-SIGNATURE-256 header");
    assert_eq!(Rejection::InvalidHeaderFormat.debug_message(), "Invalid header format");
    assert_eq!(Rejection::InvalidSignature.debug_message(), "Invalid signature");
}

#[test]
fn state_machine_steps() {
    assert!(matches!(State::new(), State::ExtractSignature));
    let signature = sign("k", b"ab");
    let mut check = SignatureValidation::new(b"k".to_vec(), 2);
    assert!(matches!(check.state(), State::ExtractSignature));
    assert!(matches!(check.on_signature_header(Some(signature.as_bytes())), Step::Rewake));
    assert!(matches!(check.state(), State::ExtractBody { .. }));
    assert!(matches!(check.on_body_frame(Some(b"a")), Step::Rewake));
    assert!(matches!(check.on_body_frame(None), Step::Rewake));
    assert!(matches!(check.on_body_frame(Some(b"b")), Step::Rewake));
    match check.on_body_end() {
        Step::Forward(body) => assert_eq!(body, b"ab".to_vec()),
        _ => panic!("expected the request to be forwarded"),
    }
    assert!(matches!(check.state(), State::Inner));
}

#[test]
fn state_machine_rejects_missing_header() {
    let mut check = SignatureValidation::new(b"k".to_vec(), 0);
    assert!(matches!(
        check.on_signature_header(None),
        Step::Reject(Rejection::MissingSignatureHeader)
    ));
    assert!(matches!(check.state(), State::ExtractSignature));
}

#[test]
fn state_machine_rejects_bad_signature_at_end_of_body() {
    let mut check = SignatureValidation::new(b"k".to_vec(), 0);
    assert!(matches!(check.on_signature_header(Some(b"sha256=00")), Step::Rewake));
    assert!(matches!(check.on_body_frame(Some(b"data")), Step::Rewake));
    assert!(matches!(check.on_body_end(), Step::Reject(Rejection::InvalidSignature)));
}
