use mockserver::authentication::{
    basic_credentials_match, check_authentication, claims_satisfied, validate_auth, validate_claims,
};
use mockserver::config::{Authentication, Claim, Endpoint};
use mockserver::handler::default_status_code;

fn claim(name: &str, value: &str) -> Claim {
    Claim { name: name.to_string(), value: value.to_string() }
}

#[test]
fn check_authentication_without_requirement_passes() {
    assert!(check_authentication(&None, None).is_ok());
    assert!(check_authentication(&None, Some("Basic garbage".to_string())).is_ok());
}

#[test]
fn check_authentication_with_basic_requirement() {
    let auth = Some(Authentication::Basic { user: "admin".to_string(), password: "secret".to_string() });
    assert!(check_authentication(&auth, Some("Basic YWRtaW46c2VjcmV0".to_string())).is_ok());
    assert!(check_authentication(&auth, Some("Basic YWRtaW46c2VjcmV1".to_string())).is_err());
    assert!(check_authentication(&auth, None).is_err());
}

#[test]
fn validate_auth_decodes_base64() {
    let auth = Authentication::Basic { user: "admin".to_string(), password: "secret".to_string() };
    // The decoded text itself, not base64, must not pass.
    assert!(!validate_auth(&auth, Some("Basic admin:secret".to_string())));
    assert!(validate_auth(&auth, Some("Basic YWRtaW46c2VjcmV0".to_string())));
}

#[test]
fn basic_credentials_match_is_exact() {
    let user = "admin".to_string();
    let password = "secret".to_string();
    assert!(basic_credentials_match(&Some(b"admin:secret".to_vec()), &user, &password));
    assert!(!basic_credentials_match(&Some(b"admin:secret ".to_vec()), &user, &password));
    assert!(!basic_credentials_match(&Some(b"admin;secret".to_vec()), &user, &password));
    assert!(!basic_credentials_match(&Some(b"adminsecret".to_vec()), &user, &password));
    assert!(!basic_credentials_match(&None, &user, &password));
    assert!(basic_credentials_match(&Some(b":".to_vec()), &String::new(), &String::new()));
}

#[test]
fn claims_satisfied_looks_up_each_required_claim() {
    let members = Some(vec![
        ("role".to_string(), "\"admin\"".to_string()),
        ("level".to_string(), "3".to_string()),
    ]);
    assert!(claims_satisfied(&vec![], &members));
    assert!(claims_satisfied(&vec![claim("role", "\"admin\"")], &members));
    assert!(claims_satisfied(&vec![claim("role", "\"admin\""), claim("level", "3")], &members));
    assert!(!claims_satisfied(&vec![claim("level", "4")], &members));
    assert!(!claims_satisfied(&vec![claim("team", "1")], &members));
    assert!(claims_satisfied(&vec![claim("token", "1")], &members));
    assert!(!claims_satisfied(&vec![claim("role", "\"admin\"")], &None));
    assert!(claims_satisfied(&vec![claim("token", "\"x\"")], &None));
}

#[test]
fn validate_claims_reads_the_token_as_json() {
    let required = vec![claim("sub", "\"42\""), claim("scope", "[\"a\",\"b\"]")];
    assert!(validate_claims(&required, b"{\"scope\": [\"a\", \"b\"], \"sub\": \"42\", \"x\": 0}"));
    assert!(!validate_claims(&required, b"{\"scope\": [\"b\", \"a\"], \"sub\": \"42\"}"));
    assert!(!validate_claims(&required, b"{\"sub\": 42, \"scope\": [\"a\", \"b\"]}"));
    assert!(!validate_claims(&required, b"not json"));
    assert!(validate_claims(&vec![], b"not json"));
}

#[test]
fn default_status_code_per_method_and_override() {
    let mut e = Endpoint {
        method: vec![],
        file: "f".to_string(),
        status_code: None,
        authentication: None,
        delay: None,
        rate_limit: None,
    };
    assert_eq!(default_status_code(&e, &"GET".to_string()), 200);
    assert_eq!(default_status_code(&e, &"POST".to_string()), 201);
    assert_eq!(default_status_code(&e, &"PUT".to_string()), 201);
    assert_eq!(default_status_code(&e, &"DELETE".to_string()), 204);
    assert_eq!(default_status_code(&e, &"PATCH".to_string()), 405);
    assert_eq!(default_status_code(&e, &"get".to_string()), 405);
    e.status_code = Some(418);
    assert_eq!(default_status_code(&e, &"GET".to_string()), 418);
    assert_eq!(default_status_code(&e, &"PATCH".to_string()), 418);
}
