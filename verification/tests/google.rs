use sipster::google::{authorize_precheck, on_no_connection, redirect_uri, refresh_token_of, GoogleTokenResponse};
use sipster::google::{
    code_from_request_line, next_page_token, people_url, urlencoding_simple, AuthGeneration,
    GoogleContactsClient, GoogleUserInfo, Person, PersonPhone,
};
use sipster::model::{NumberType, RecordSource};

#[test]
fn starting_a_second_flow_invalidates_the_first() {
    let mut auth = AuthGeneration::new();
    let first = auth.begin();
    let second = auth.begin();

    assert_ne!(first, second, "each flow gets its own generation");
    assert!(auth.cancelled(first), "the first flow is abandoned");
    assert!(!auth.cancelled(second), "the newest flow is the live one");
}

#[test]
fn cancelling_abandons_the_flow_in_flight() {
    let mut auth = AuthGeneration { current: u64::MAX };
    let live = auth.begin();
    assert_eq!(live, 0);
    auth.cancel();
    assert!(auth.cancelled(live));
}

fn client(id: Option<&str>, secret: Option<&str>, token: &str) -> GoogleContactsClient {
    GoogleContactsClient::new(
        "acct".into(),
        "me@example.com".into(),
        token.into(),
        id.map(String::from),
        secret.map(String::from),
    )
}

#[test]
fn an_account_needs_all_three_credentials() {
    assert!(client(Some("id"), Some("secret"), "token").is_configured());
    assert!(!client(None, Some("secret"), "token").is_configured());
    assert!(!client(Some("id"), Some("  "), "token").is_configured());
    assert!(!client(Some("id"), Some("secret"), "").is_configured());
    let err = client(None, None, "t").refresh_form().unwrap_err();
    assert_eq!(
        err,
        "Google account me@example.com has no OAuth client id/secret \u{2014} add them in Settings"
    );
    let configured = client(Some("id"), Some("s"), "t");
    let form = configured.refresh_form().unwrap();
    assert_eq!(
        form,
        vec![("client_id", "id"), ("client_secret", "s"), ("refresh_token", "t"), ("grant_type", "refresh_token")]
    );
}

#[test]
fn the_consent_url_encodes_its_parameters() {
    let url = GoogleContactsClient::build_auth_url("cid", "http://localhost:8080");
    assert_eq!(
        url,
        "https://accounts.google.com/o/oauth2/v2/auth?response_type=code&client_id=cid\
         &redirect_uri=http%3A%2F%2Flocalhost%3A8080\
         &scope=https%3A%2F%2Fwww.googleapis.com%2Fauth%2Fcontacts.readonly%20https%3A%2F%2Fwww.googleapis.com%2Fauth%2Fuserinfo.email\
         &access_type=offline&prompt=consent"
    );
    assert_eq!(urlencoding_simple("a-b_c.d~é"), "a-b_c.d~%C3%A9");
    assert!(people_url(Some("x y")).ends_with("&pageSize=100&pageToken=x%20y"));
    assert_eq!(next_page_token(Some(String::new())), None);
    assert_eq!(next_page_token(Some("n".into())).as_deref(), Some("n"));
}

#[test]
fn the_redirect_carries_the_code() {
    assert_eq!(code_from_request_line("GET /?code=4/0Afge&scope=x HTTP/1.1\r\n").unwrap(), "4/0Afge");
    assert_eq!(code_from_request_line("GET /?code=abc HTTP/1.1").unwrap(), "abc");
    assert_eq!(code_from_request_line("GET /?code=abc").unwrap(), "abc");
    assert_eq!(
        code_from_request_line("GET /?error=access_denied HTTP/1.1").unwrap_err(),
        "no authorization code found in redirect URL"
    );
    assert_eq!(
        code_from_request_line("GET /?code=x&error=denied HTTP/1.1").unwrap_err(),
        "Google sign-in was denied or cancelled"
    );
    assert_eq!(
        GoogleContactsClient::email_from(GoogleUserInfo { email: None }).unwrap_err(),
        "no email found in user profile"
    );
}

#[test]
fn a_person_becomes_a_contact() {
    let person = Person {
        display_name: Some(" Ann ".into()),
        resource_name: Some("people/c1".into()),
        phones: vec![
            PersonPhone { value: Some("  ".into()), kind: Some("home".into()) },
            PersonPhone { value: Some(" 0301 ".into()), kind: Some("CELL".into()) },
            PersonPhone { value: Some("0302".into()), kind: None },
            PersonPhone { value: Some("0303".into()), kind: Some("Pager".into()) },
        ],
        emails: vec![Some(" a@b ".into()), None],
    };
    let c = client(Some("i"), Some("s"), "t").parse_person(&person).unwrap();
    assert_eq!(c.name, "Ann");
    assert_eq!(c.id, "google-acct-people/c1");
    assert_eq!(c.numbers.len(), 3);
    assert_eq!(c.numbers[0].number, "0301");
    assert_eq!(c.numbers[0].number_type, NumberType::Mobile);
    assert_eq!(c.numbers[0].priority, 1);
    assert_eq!(c.numbers[1].number_type, NumberType::Other("other".into()));
    assert_eq!(c.numbers[2].number_type, NumberType::Other("pager".into()));
    assert_eq!(c.numbers[2].priority, 2);
    assert_eq!(c.emails, vec!["a@b"]);
    assert_eq!(c.source, RecordSource::Google { email: "me@example.com".into() });
    let nameless = Person { display_name: Some(" ".into()), resource_name: None, phones: vec![], emails: vec![] };
    assert!(client(None, None, "").parse_person(&nameless).is_none());
}

#[test]
fn the_sign_in_flow_decides_what_to_wait_for() {
    assert_eq!(
        authorize_precheck(" ", "secret").unwrap_err(),
        "enter your Google OAuth client id and secret first"
    );
    assert!(authorize_precheck("id", "secret").is_ok());
    assert_eq!(redirect_uri(8123), "http://localhost:8123");
    assert_eq!(on_no_connection(true, true).as_deref(), Some("sign-in cancelled"));
    assert_eq!(
        on_no_connection(false, true).as_deref(),
        Some("timed out waiting for the Google sign-in to finish")
    );
    assert_eq!(on_no_connection(false, false), None);
    let token = GoogleTokenResponse {
        access_token: "a".into(),
        refresh_token: None,
        expires_in: Some(3600),
        token_type: Some("Bearer".into()),
    };
    assert!(refresh_token_of(&token).unwrap_err().starts_with("Google returned no refresh token"));
    let text = token.debug_text();
    assert!(!text.contains("\"a\""));
    assert_eq!(
        text,
        "GoogleTokenResponse { access_token: \"<redacted>\", refresh_token: None, expires_in: Some(3600), token_type: Some(\"Bearer\") }"
    );
    let client = GoogleContactsClient::new("1".into(), "e".into(), "tok".into(), Some("cid".into()), Some("sec".into()));
    let debug = client.debug_text();
    assert!(!debug.contains("\"tok\"") && !debug.contains("\"sec\""));
}

#[test]
fn phone_types_are_compared_in_unicode_lowercase() {
    let person = Person {
        display_name: Some("K".into()),
        resource_name: None,
        phones: vec![PersonPhone { value: Some("1".into()), kind: Some("\u{212A}ELVIN".into()) }],
        emails: vec![],
    };
    let c = client(None, None, "").parse_person(&person).unwrap();
    assert_eq!(c.numbers[0].number_type, NumberType::Other("kelvin".into()));
}
