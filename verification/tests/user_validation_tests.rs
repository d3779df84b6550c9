use moderated_records::profile::{is_image, validate_organization, validate_user, Organization, User, Verdict};

fn sample_user() -> User {
    User {
        name: "John Doe".to_string(),
        nickname: "John".to_string(),
        bio: "I am a software developer".to_string(),
        picture: None,
        user_type: "advocate".to_string(),
        skills: vec!["Rust".to_string(), "Holo".to_string()],
        email: "example@example.com".to_string(),
        phone: None,
        time_zone: "UTC".to_string(),
        location: "New York".to_string(),
    }
}

#[test]
fn test_user_is_valid() {
    let user = sample_user();
    let result = validate_user(&user);
    println!("result: {:?}", result);
    assert!(result == Verdict::Valid);
}

#[test]
fn test_user_with_invalid_name() {
    let mut user = sample_user();
    user.name = "".to_string();
    user.email = "x9e0r@example.com".to_string();
    let result = validate_user(&user);
    assert!(result == Verdict::Invalid(String::from("User name cannot be empty")));
}

#[test]
fn test_user_with_invalid_picture() {
    let mut user = sample_user();
    user.picture = Some(vec![1, 2, 3]);
    user.email = "x9e0r@example.com".to_string();
    let result = validate_user(&user);
    assert!(result == Verdict::Invalid(String::from("User picture must be a valid image")));
}

#[test]
fn test_user_with_invalid_user_type() {
    let mut user = sample_user();
    user.user_type = "invalid".to_string();
    user.email = "x9e0r@example.com".to_string();
    let result = validate_user(&user);
    assert!(
        result == Verdict::Invalid(String::from("User Type must be 'advocate' or 'creator'."))
    );
}

#[test]
fn test_user_with_invalid_email_format() {
    let mut user = sample_user();
    user.email = "invalid_email".to_string();
    let result = validate_user(&user);
    println!("result: {:?}", result);
    assert!(result == Verdict::Invalid(String::from("Email is not valid")));
}

#[test]
fn user_with_valid_picture_passes() {
    // an ascii bitmap: a format the image decoder accepts
    let mut user = sample_user();
    user.picture = Some(b"P1 2 2\n0 1\n1 0\n".to_vec());
    assert!(is_image(user.picture.as_ref().unwrap()));
    assert!(validate_user(&user) == Verdict::Valid);
}

fn sample_organization() -> Organization {
    Organization {
        name: "Holo community".to_string(),
        description: "A community of builders".to_string(),
        logo: None,
        email: "hello@example.com".to_string(),
        urls: vec!["https://example.com".to_string()],
        location: "New York".to_string(),
    }
}

#[test]
fn organization_validation_checks_logo_and_email() {
    assert!(validate_organization(&sample_organization()) == Verdict::Valid);

    let mut org = sample_organization();
    org.logo = Some(vec![9, 9, 9]);
    assert!(
        validate_organization(&org)
            == Verdict::Invalid(String::from("Organization logo must be a valid image"))
    );

    let mut org = sample_organization();
    org.email = "not-an-email".to_string();
    assert!(validate_organization(&org) == Verdict::Invalid(String::from("Email is not valid")));
}
