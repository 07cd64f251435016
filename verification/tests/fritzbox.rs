use sipster::fritzbox::{SoapReply, SoapStep};
use sipster::fritzbox::digest::{digest_header_with, fresh_cnonce, parse_auth_header};
use sipster::fritzbox::xml::{
    decode_numeric_entity, escape_xml, extract_xml_tag, parse_call_list_xml,
    parse_duration_seconds, parse_phonebook_xml, unescape_xml,
};
use sipster::fritzbox::{
    account_numbers_from, call_list_url, client_count, country_code_from, phonebook_ids,
    phonebook_target, soap_action, soap_envelope, FritzBoxClient, FritzConfig, FritzError,
    PLAIN_PORT, TLS_PORT,
};
use sipster::model::{CallType, NumberType, RecordSource};

#[test]
fn fritzbox_parses_a_phonebook_entry_with_typed_numbers() {
    let xml = r#"<phonebook><contact><person><realName>Alice Smith</realName></person>
            <telephony><number type="mobile" prio="1">+4915112345</number>
            <number type="work">03012345</number></telephony>
            <uniqueid>42</uniqueid></contact></phonebook>"#;
    let contacts = parse_phonebook_xml(xml, 0, "Main");
    assert_eq!(contacts.len(), 1);
    assert_eq!(contacts[0].name, "Alice Smith");
    assert_eq!(contacts[0].numbers.len(), 2);
    assert_eq!(contacts[0].numbers[0].number_type, NumberType::Mobile);
    assert_eq!(contacts[0].numbers[0].priority, 1);
    assert_eq!(contacts[0].primary_number(), Some("+4915112345"));
}

#[test]
fn fritzbox_entities_in_names_are_decoded() {
    let xml = r"<contact><realName>M&#252;ller &amp; Sohn</realName>
            <number type='work'>123</number><uniqueid>1</uniqueid></contact>";
    let contacts = parse_phonebook_xml(xml, 0, "Main");
    assert_eq!(contacts[0].name, "Müller & Sohn");
}

#[test]
fn fritzbox_a_contact_without_a_name_is_skipped() {
    let xml = r"<contact><realName>  </realName><number>123</number></contact>";
    assert!(parse_phonebook_xml(xml, 0, "Main").is_empty());
}

#[test]
fn fritzbox_parses_the_call_list_types() {
    let xml = r"<root>
            <Call><Id>1</Id><Type>1</Type><Caller>0301</Caller><Called>620</Called>
                  <Date>01.01.26 10:00</Date><Duration>0:42</Duration></Call>
            <Call><Id>2</Id><Type>2</Type><Caller>0302</Caller><Called>620</Called>
                  <Date>01.01.26 11:00</Date><Duration>0:00</Duration></Call>
            <Call><Id>3</Id><Type>3</Type><Caller>620</Caller><Called>0303</Called>
                  <Date>01.01.26 12:00</Date><Duration>1:02:03</Duration></Call>
            </root>";
    let calls = parse_call_list_xml(xml);
    assert_eq!(calls.len(), 3);
    assert_eq!(calls[0].call_type, CallType::Incoming);
    assert_eq!(calls[0].duration_seconds, 42);
    assert_eq!(calls[1].call_type, CallType::Missed);
    assert_eq!(calls[2].call_type, CallType::Outgoing);
    assert_eq!(calls[2].remote_number, "0303");
    assert_eq!(calls[2].duration_seconds, 3723);
}

#[test]
fn fritzbox_duration_parsing_handles_both_shapes() {
    assert_eq!(parse_duration_seconds("0:42"), 42);
    assert_eq!(parse_duration_seconds("1:02:03"), 3723);
    assert_eq!(parse_duration_seconds(""), 0);
    assert_eq!(parse_duration_seconds("nonsense"), 0);
}

#[test]
fn fritzbox_xml_escaping_round_trips() {
    assert_eq!(escape_xml("a&b<c>\"d\""), "a&amp;b&lt;c&gt;&quot;d&quot;");
    assert_eq!(unescape_xml("a&amp;b&lt;c&gt;"), "a&b<c>");
    assert_eq!(unescape_xml("100 &unknown; 200"), "100 &unknown; 200");
    assert_eq!(unescape_xml("Tom & Jerry"), "Tom & Jerry");
}

#[test]
fn fritzbox_malformed_xml_does_not_panic() {
    let _ = parse_phonebook_xml("<contact><realName>Ünfinished", 0, "Main");
    let _ = parse_phonebook_xml("", 0, "Main");
    let _ = parse_call_list_xml("<Call><Id>1</Id>");
    let _ = unescape_xml("&#xZZZZ; &# ; &");
}

#[test]
fn fritzbox_client_nonces_differ_between_requests() {
    let (a, b) = (fresh_cnonce(), fresh_cnonce());
    assert_ne!(a, b);
    assert_eq!(a.len(), 16);
    assert!(a.chars().all(|c| c.is_ascii_hexdigit()));
}

#[test]
fn xml_parses_a_phonebook_entry_with_typed_numbers() {
    let xml = r#"<phonebook><contact><person><realName>Alice Smith</realName></person>
            <telephony><number type="mobile" prio="1">+4915112345</number>
            <number type="work">03012345</number></telephony>
            <uniqueid>42</uniqueid></contact></phonebook>"#;
    let contacts = parse_phonebook_xml(xml, 0, "Main");
    assert_eq!(contacts.len(), 1);
    assert_eq!(contacts[0].name, "Alice Smith");
    assert_eq!(contacts[0].numbers.len(), 2);
    assert_eq!(contacts[0].numbers[0].number_type, NumberType::Mobile);
    assert_eq!(contacts[0].numbers[0].priority, 1);
    assert_eq!(contacts[0].primary_number(), Some("+4915112345"));
}

#[test]
fn xml_entities_in_names_are_decoded() {
    let xml = r"<contact><realName>M&#252;ller &amp; Sohn</realName>
            <number type='work'>123</number><uniqueid>1</uniqueid></contact>";
    let contacts = parse_phonebook_xml(xml, 0, "Main");
    assert_eq!(contacts[0].name, "Müller & Sohn");
}

#[test]
fn xml_a_contact_without_a_name_is_skipped() {
    let xml = r"<contact><realName>  </realName><number>123</number></contact>";
    assert!(parse_phonebook_xml(xml, 0, "Main").is_empty());
}

#[test]
fn xml_parses_the_call_list_types() {
    let xml = r"<root>
            <Call><Id>1</Id><Type>1</Type><Caller>0301</Caller><Called>620</Called>
                  <Date>01.01.26 10:00</Date><Duration>0:42</Duration></Call>
            <Call><Id>2</Id><Type>2</Type><Caller>0302</Caller><Called>620</Called>
                  <Date>01.01.26 11:00</Date><Duration>0:00</Duration></Call>
            <Call><Id>3</Id><Type>3</Type><Caller>620</Caller><Called>0303</Called>
                  <Date>01.01.26 12:00</Date><Duration>1:02:03</Duration></Call>
            </root>";
    let calls = parse_call_list_xml(xml);
    assert_eq!(calls.len(), 3);
    assert_eq!(calls[0].call_type, CallType::Incoming);
    assert_eq!(calls[0].duration_seconds, 42);
    assert_eq!(calls[1].call_type, CallType::Missed);
    assert_eq!(calls[2].call_type, CallType::Outgoing);
    assert_eq!(calls[2].remote_number, "0303");
    assert_eq!(calls[2].duration_seconds, 3723);
}

#[test]
fn xml_duration_parsing_handles_both_shapes() {
    assert_eq!(parse_duration_seconds("0:42"), 42);
    assert_eq!(parse_duration_seconds("1:02:03"), 3723);
    assert_eq!(parse_duration_seconds(""), 0);
    assert_eq!(parse_duration_seconds("nonsense"), 0);
}

#[test]
fn xml_xml_escaping_round_trips() {
    assert_eq!(escape_xml("a&b<c>\"d\""), "a&amp;b&lt;c&gt;&quot;d&quot;");
    assert_eq!(unescape_xml("a&amp;b&lt;c&gt;"), "a&b<c>");
    assert_eq!(unescape_xml("100 &unknown; 200"), "100 &unknown; 200");
    assert_eq!(unescape_xml("Tom & Jerry"), "Tom & Jerry");
}

#[test]
fn xml_malformed_xml_does_not_panic() {
    let _ = parse_phonebook_xml("<contact><realName>Ünfinished", 0, "Main");
    let _ = parse_phonebook_xml("", 0, "Main");
    let _ = parse_call_list_xml("<Call><Id>1</Id>");
    let _ = unescape_xml("&#xZZZZ; &# ; &");
}

#[test]
fn digest_client_nonces_differ_between_requests() {
    let (a, b) = (fresh_cnonce(), fresh_cnonce());
    assert_ne!(a, b);
    assert_eq!(a.len(), 16);
    assert!(a.chars().all(|c| c.is_ascii_hexdigit()));
}

#[test]
fn the_tls_port_follows_the_transport_only_from_the_default() {
    let tls = FritzBoxClient::new(FritzConfig::default());
    assert_eq!(tls.config().port, TLS_PORT);
    let plain = FritzBoxClient::new(FritzConfig { tls: false, ..FritzConfig::default() });
    assert_eq!(plain.config().port, PLAIN_PORT);
    let custom = FritzBoxClient::new(FritzConfig { port: 8443, ..FritzConfig::default() });
    assert_eq!(custom.config().port, 8443);
    assert_eq!(tls.soap_url("/upnp/control/x_contact"), "https://fritz.box:49443/upnp/control/x_contact");
    assert_eq!(plain.soap_url("/x"), "http://fritz.box:49000/x");
}

#[test]
fn the_password_is_redacted_in_debug_output() {
    let config = FritzConfig { password: "hunter2".into(), username: "admin".into(), ..FritzConfig::default() };
    let text = config.debug_text();
    assert!(!text.contains("hunter2"));
    assert!(text.contains("<redacted>"));
    assert!(text.contains("\"admin\""));
}

#[test]
fn envelope_arguments_are_escaped() {
    let body = soap_envelope("urn:svc:1", "GetPhonebook", &[("NewPhonebookID", "<1&2>")]);
    assert!(body.contains("<u:GetPhonebook xmlns:u=\"urn:svc:1\">"));
    assert!(body.contains("<NewPhonebookID>&lt;1&amp;2&gt;</NewPhonebookID>"));
    assert!(body.ends_with("</u:GetPhonebook>\n  </s:Body>\n</s:Envelope>"));
    assert_eq!(soap_action("urn:svc:1", "GetCallList"), "urn:svc:1#GetCallList");
}

#[test]
fn tr064_answers_yield_their_values() {
    let ids = phonebook_ids("0, 1,x,,2 ");
    let ids: Vec<(u32, &str)> = ids.iter().map(|(n, t)| (*n, t.as_str())).collect();
    assert_eq!(ids, vec![(0, "0"), (1, "1"), (2, "2")]);
    assert_eq!(
        phonebook_target(3, "<NewPhonebookURL>http://x/pb</NewPhonebookURL>"),
        Some((3, "Phonebook 3".to_string(), "http://x/pb".to_string()))
    );
    assert_eq!(phonebook_target(3, "<NewPhonebookName>Main</NewPhonebookName>"), None);
    assert_eq!(call_list_url("<NewCallListURL> http://c </NewCallListURL>").unwrap(), "http://c");
    assert!(matches!(call_list_url("<x/>"), Err(FritzError::SoapAction { .. })));
    assert_eq!(client_count("<NewX_AVM-DE_NumberOfClients>4</NewX_AVM-DE_NumberOfClients>").unwrap(), 4);
    assert!(matches!(
        client_count("<NewX_AVM-DE_NumberOfClients>many</NewX_AVM-DE_NumberOfClients>"),
        Err(FritzError::SoapAction { .. })
    ));
    assert_eq!(
        client_count("<nothing/>").unwrap_err().message(),
        "SOAP action error (X_AVM-DE_GetNumberOfClients): response carried no client count"
    );
    assert_eq!(country_code_from("<NewVoIPCountryCode>0049</NewVoIPCountryCode>").unwrap(), "0049");
    assert!(country_code_from("").is_err());
    let client = "<NewX_AVM-DE_ClientUsername>sipster</NewX_AVM-DE_ClientUsername>\
        <NewX_AVM-DE_PhoneName>Blu-PC</NewX_AVM-DE_PhoneName>\
        <NewX_AVM-DE_InternalNumber>620</NewX_AVM-DE_InternalNumber>";
    let numbers = account_numbers_from(client).unwrap();
    assert_eq!(numbers.username, "sipster");
    assert_eq!(numbers.phone_name, "Blu-PC");
    assert_eq!(numbers.internal, "620");
    assert_eq!(numbers.external, "");
    assert_eq!(account_numbers_from("<NewX_AVM-DE_ClientUsername></NewX_AVM-DE_ClientUsername>"), None);
}

#[test]
fn numeric_entities_decode_to_scalar_values_only() {
    assert_eq!(decode_numeric_entity("#252"), Some('ü'));
    assert_eq!(decode_numeric_entity("#xFC"), Some('ü'));
    assert_eq!(decode_numeric_entity("#xD800"), None);
    assert_eq!(decode_numeric_entity("#X41"), None);
    assert_eq!(decode_numeric_entity("252"), None);
    assert_eq!(unescape_xml("&lt;&#65;&apos;&quot;&gt;"), "<A'\">");
    assert_eq!(unescape_xml("&averyverylongname;"), "&averyverylongname;");
    assert_eq!(extract_xml_tag("<a> x &amp; y </a>", "a").as_deref(), Some("x & y"));
    assert_eq!(extract_xml_tag("<a>x", "a"), None);
}

#[test]
fn escaping_then_unescaping_gives_the_text_back() {
    for text in ["", "plain", "a&b<c>\"d\"'e'", "&amp; already", "Müller & Söhne; 100%"] {
        assert_eq!(unescape_xml(&escape_xml(text)), text);
    }
}

#[test]
fn call_records_carry_names_devices_and_the_router_source() {
    let xml = "<Call><Id>9</Id><Type>10</Type><Caller>0301</Caller><Called>620</Called>\
        <Name> Bob </Name><Device> </Device><Date>d</Date><Duration>2:00</Duration></Call>";
    let calls = parse_call_list_xml(xml);
    assert_eq!(calls[0].id, "fritzbox-call-9");
    assert_eq!(calls[0].call_type, CallType::Rejected);
    assert_eq!(calls[0].remote_name.as_deref(), Some("Bob"));
    assert_eq!(calls[0].local_party.as_deref(), Some("620"));
    assert_eq!(calls[0].duration_seconds, 120);
    assert_eq!(
        calls[0].source,
        RecordSource::FritzBox { phonebook_id: 0, phonebook_name: "Router Call Log".into() }
    );
}

#[test]
fn phonebook_ids_fall_back_to_a_uuid() {
    let contacts = parse_phonebook_xml("<contact><realName>A</realName></contact>", 7, "Main");
    assert!(contacts[0].id.starts_with("fritzbox-7-"));
    assert_eq!(contacts[0].id.len(), "fritzbox-7-".len() + 36);
    let with_id = parse_phonebook_xml("<contact><realName>A</realName><uniqueid>5</uniqueid></contact>", 7, "Main");
    assert_eq!(with_id[0].id, "fritzbox-7-5");
}

#[test]
fn a_digest_answers_the_challenge_it_was_given() {
    let params = parse_auth_header(r#"Digest realm="F!Box", nonce="abc", qop="auth", realm="Box2""#);
    let find = |k: &str| params.iter().find(|(key, _)| key == k).map(|(_, v)| v.clone());
    assert_eq!(find("realm").as_deref(), Some("Box2"));
    assert_eq!(find("nonce").as_deref(), Some("abc"));
    assert_eq!(params.len(), 3);
    let header = digest_header_with("u", "p", "POST", "/x", &params, "0123456789abcdef");
    assert!(header.starts_with("Digest username=\"u\", realm=\"Box2\", nonce=\"abc\", uri=\"/x\", response=\""));
    assert!(header.ends_with("\", qop=auth, nc=00000001, cnonce=\"0123456789abcdef\""));
    let plain = digest_header_with("u", "p", "POST", "/x", &parse_auth_header("Digest realm=r, nonce=n"), "c");
    assert!(plain.ends_with("\""));
    assert!(!plain.contains("cnonce"));
}

#[test]
fn the_digest_response_is_the_rfc_2617_md5() {
    // RFC 2617 section 3.5 example, without qop.
    let params = parse_auth_header(
        "Digest realm=\"testrealm@host.com\", nonce=\"dcd98b7102dd2f0e8b11d0f600bfb0c093\"",
    );
    let header = digest_header_with("Mufasa", "Circle Of Life", "GET", "/dir/index.html", &params, "x");
    let ha1 = "939e7578ed9e3c518a452acee763bce9";
    let ha2 = "39aff3a2bab6126f332b942af96d3366";
    assert_eq!(ha1.len(), 32);
    assert_eq!(ha2.len(), 32);
    assert!(header.contains("response=\"670fd8c2df070c60b045671b8b24ff02\""));
    let with_qop = parse_auth_header(
        "Digest realm=\"testrealm@host.com\", qop=\"auth,auth-int\", nonce=\"dcd98b7102dd2f0e8b11d0f600bfb0c093\"",
    );
    let header = digest_header_with("Mufasa", "Circle Of Life", "GET", "/dir/index.html", &with_qop, "0a4f113b");
    assert!(header.contains("response=\"6629fae49393a05397450978507c4ef1\""));
}

#[test]
fn a_soap_call_answers_one_challenge_and_then_gives_up() {
    let client = FritzBoxClient::new(FritzConfig {
        username: "admin".into(),
        password: "pw".into(),
        tls: false,
        ..FritzConfig::default()
    });
    let (mut call, request) = client.soap_call("/upnp/control/x_contact", "urn:s:1", "GetCallList", &[], None);
    assert_eq!(request.url, "http://fritz.box:49000/upnp/control/x_contact");
    assert_eq!(request.soap_action, "urn:s:1#GetCallList");
    assert!(request.authorization.is_none());
    let step = call.on_reply(
        &client,
        SoapReply::Unauthorized { www_authenticate: "Digest realm=\"r\", nonce=\"n\"".into(), body: String::new() },
    );
    let SoapStep::Retry { authorization, challenge } = step else { panic!("expected a retry") };
    assert!(authorization.starts_with("Digest username=\"admin\", realm=\"r\", nonce=\"n\", uri=\"/upnp/control/x_contact\""));
    assert_eq!(challenge.len(), 2);
    let step = call.on_reply(
        &client,
        SoapReply::Unauthorized { www_authenticate: String::new(), body: "denied".into() },
    );
    match step {
        SoapStep::Done(Err(FritzError::AuthFailed { user, detail })) => {
            assert_eq!(user, "admin");
            assert_eq!(detail, "denied");
        }
        _ => panic!("expected an authentication failure"),
    }
    let (_, cached) = client.soap_call("/x", "urn:s:1", "A", &[], Some(&challenge));
    assert!(cached.authorization.is_some());
    let (mut fresh, _) = client.soap_call("/x", "urn:s:1", "A", &[], None);
    match fresh.on_reply(&client, SoapReply::Success("<ok/>".into())) {
        SoapStep::Done(Ok(body)) => assert_eq!(body, "<ok/>"),
        _ => panic!("expected success"),
    }
}

#[test]
fn errors_read_as_their_messages() {
    assert_eq!(FritzError::Network("timeout".into()).message(), "Network error: timeout");
    assert_eq!(FritzError::Io("eof".into()).message(), "I/O error: eof");
    assert_eq!(
        FritzError::AuthFailed { user: "admin".into(), detail: "401".into() }.message(),
        "Authentication failed for user 'admin': 401"
    );
    assert_eq!(
        FritzError::SoapAction { action: "GetCallList".into(), detail: "x".into() }.message(),
        "SOAP action error (GetCallList): x"
    );
}

#[test]
fn overlong_durations_are_capped_rather_than_overflowing() {
    assert_eq!(parse_duration_seconds("4294967295:00"), u32::MAX);
    assert_eq!(parse_duration_seconds("71582788:15"), 4294967295);
    let xml = "<Call><Id>1</Id><Type>1</Type><Duration>99999999:00</Duration></Call>";
    let calls = parse_call_list_xml(xml);
    assert_eq!(calls.len(), 1);
    assert_eq!(calls[0].duration_seconds, u32::MAX);
}
