//! FRITZ!Box TR-064 integration: phonebook and call list synchronization.
//!
//! What a TR-064 exchange says and decides is here: the SOAP envelope and
//! its address, and what each answer yields. The XML itself is read and
//! written in `xml`, and the digest authentication TR-064 demands is in
//! `digest`. Sending the requests is left to the caller.
use vstd::prelude::*;

pub mod digest;
pub mod xml;

use crate::text::{
    append_str, chars_of, concat_views, dec, joined, parse_u32, parse_u32_exec, push_dec, string_of, trim, trim_chars,
};
use crate::call::is_v4_uuid;
use digest::{
    cnonce_of,    build_digest_header, challenge_params, digest_header_text, parse_auth_header, params_view,
};
use crate::assoc::keys_distinct;
use xml::{
    escape_xml, escaped, extract_xml_tag, split_on, split_on_chars, tag_or_empty, tag_value,
};

verus! {

broadcast use vstd::string::group_string_axioms;

/// Errors originating from TR-064 router communication or its answers.
#[derive(Debug)]
pub enum FritzError {
    /// The HTTP exchange failed; the text says how.
    Network(String),
    /// Reading a response failed; the text says how.
    Io(String),
    AuthFailed { user: String, detail: String },
    SoapAction { action: String, detail: String },
}

impl FritzError {
    /// The error as shown to the user.
    pub fn message(&self) -> (s: String)
        ensures
            s@ == fritz_error_text(*self),
    {
        proof {
            reveal_with_fuel(concat_views, 6);
        }
        match self {
            FritzError::Network(e) => joined(&["Network error: ", e.as_str()]),
            FritzError::Io(e) => joined(&["I/O error: ", e.as_str()]),
            FritzError::AuthFailed { user, detail } => joined(
                &["Authentication failed for user '", user.as_str(), "': ", detail.as_str()],
            ),
            FritzError::SoapAction { action, detail } => joined(
                &["SOAP action error (", action.as_str(), "): ", detail.as_str()],
            ),
        }
    }
}

pub open spec fn fritz_error_text(e: FritzError) -> Seq<char> {
    match e {
        FritzError::Network(e) => "Network error: "@ + e@,
        FritzError::Io(e) => "I/O error: "@ + e@,
        FritzError::AuthFailed { user, detail } => "Authentication failed for user '"@ + user@
            + "': "@ + detail@,
        FritzError::SoapAction { action, detail } => "SOAP action error ("@ + action@ + "): "@
            + detail@,
    }
}

/// AVM's TR-064 TLS port. Fixed on the device and not the same as the plain
/// one, so it is not derived from the configured port.
pub const TLS_PORT: u16 = 49443;

/// AVM's plain-HTTP TR-064 port, and the historical default of the `port`
/// setting.
pub const PLAIN_PORT: u16 = 49000;

/// Configuration credentials to connect to a FRITZ!Box TR-064 interface.
#[derive(Clone)]
pub struct FritzConfig {
    pub host: String,
    pub port: u16,
    pub username: String,
    pub password: String,
    /// Talk to the router over TLS.
    pub tls: bool,
    /// The router certificate's fingerprint, learned on first use. Empty means
    /// "not learned yet"; the first TLS connection fills it in.
    pub cert_fingerprint: String,
}

impl Default for FritzConfig {
    fn default() -> (c: Self)
        ensures
            c.host@ == "fritz.box"@,
            c.port == PLAIN_PORT,
            c.username@.len() == 0,
            c.password@.len() == 0,
            c.tls,
            c.cert_fingerprint@.len() == 0,
    {
        FritzConfig {
            host: "fritz.box".to_string(),
            port: PLAIN_PORT,
            username: String::new(),
            password: String::new(),
            tls: true,
            cert_fingerprint: String::new(),
        }
    }
}

/// The debug rendering of a config: every field but the password, which on
/// a FRITZ!Box is also the admin password for the whole router.
pub open spec fn fritz_config_debug(c: FritzConfig, host: Seq<char>, fingerprint: Seq<char>, user: Seq<char>) -> Seq<char> {
    "FritzConfig { host: "@ + host + ", port: "@ + dec(c.port as nat) + ", tls: "@ + (if c.tls {
        "true"@
    } else {
        "false"@
    }) + ", cert_fingerprint: "@ + fingerprint + ", username: "@ + user
        + ", password: \"<redacted>\" }"@
}

impl FritzConfig {
    /// The config as `Debug` shows it, the password redacted.
    pub fn debug_text(&self) -> (s: String)
        ensures
            s@ == fritz_config_debug(
                *self,
                crate::config::account::debug_quoted(self.host@),
                crate::config::account::debug_quoted(self.cert_fingerprint@),
                crate::config::account::debug_quoted(self.username@),
            ),
    {
        let mut out: Vec<char> = Vec::new();
        append_str(&mut out, "FritzConfig { host: ");
        append_str(&mut out, crate::config::account::debug_str(self.host.as_str()).as_str());
        append_str(&mut out, ", port: ");
        push_dec(&mut out, self.port as u64);
        append_str(&mut out, ", tls: ");
        append_str(&mut out, if self.tls { "true" } else { "false" });
        append_str(&mut out, ", cert_fingerprint: ");
        append_str(&mut out, crate::config::account::debug_str(self.cert_fingerprint.as_str()).as_str());
        append_str(&mut out, ", username: ");
        append_str(&mut out, crate::config::account::debug_str(self.username.as_str()).as_str());
        append_str(&mut out, ", password: \"<redacted>\" }");
        string_of(&out)
    }
}

/// Client for FRITZ!Box TR-064 SOAP telephony and contact services.
///
/// Deliberately without `Debug`: its config holds the router password.
#[derive(Clone)]
pub struct FritzBoxClient {
    config: FritzConfig,
}

/// The port a client talks to: a port left at the plain default follows
/// the transport to TLS; an explicitly chosen port is left alone.
pub open spec fn effective_port(c: FritzConfig) -> u16 {
    if c.tls && c.port == PLAIN_PORT {
        TLS_PORT
    } else {
        c.port
    }
}

impl FritzBoxClient {
    /// The client's configuration.
    pub closed spec fn spec_config(&self) -> FritzConfig {
        self.config
    }

    /// A client for `config`. TR-064 listens on two ports, and the setting
    /// holds the plain one; switching to TLS without switching the port
    /// would just fail to connect, so a port left at the plain default
    /// follows the transport.
    pub fn new(config: FritzConfig) -> (c: Self)
        ensures
            c.spec_config() == (FritzConfig { port: effective_port(config), ..config }),
    {
        let mut config = config;
        if config.tls && config.port == PLAIN_PORT {
            config.port = TLS_PORT;
        }
        FritzBoxClient { config }
    }

    /// The configuration the client uses.
    pub fn config(&self) -> (c: &FritzConfig)
        ensures
            *c == self.spec_config(),
    {
        &self.config
    }

    /// The URL a SOAP request for `control_url` goes to.
    pub fn soap_url(&self, control_url: &str) -> (u: String)
        ensures
            u@ == (if self.spec_config().tls {
                "https://"@
            } else {
                "http://"@
            }) + self.spec_config().host@ + ":"@ + dec(self.spec_config().port as nat)
                + control_url@,
    {
        let mut out: Vec<char> = Vec::new();
        append_str(&mut out, if self.config.tls { "https://" } else { "http://" });
        append_str(&mut out, self.config.host.as_str());
        append_str(&mut out, ":");
        push_dec(&mut out, self.config.port as u64);
        append_str(&mut out, control_url);
        string_of(&out)
    }
}

/// The `SOAPAction` header of a request: `service#action`.
pub open spec fn soap_action_text(service_type: Seq<char>, action: Seq<char>) -> Seq<char> {
    service_type + "#"@ + action
}

/// The `SOAPAction` header of a request.
pub fn soap_action(service_type: &str, action: &str) -> (s: String)
    ensures
        s@ == soap_action_text(service_type@, action@),
{
    proof {
        reveal_with_fuel(concat_views, 4);
    }
    joined(&[service_type, "#", action])
}

/// The argument elements of a request, each value escaped.
pub open spec fn args_xml(args: Seq<(&str, &str)>) -> Seq<char>
    decreases args.len(),
{
    if args.len() == 0 {
        Seq::empty()
    } else {
        let (k, v) = args.last();
        args_xml(args.drop_last()) + "<"@ + k@ + ">"@ + escaped(v@) + "</"@ + k@ + ">"@
    }
}

/// The SOAP envelope of a request.
pub open spec fn envelope_text(service_type: Seq<char>, action: Seq<char>, args: Seq<char>) -> Seq<char> {
    "<?xml version=\"1.0\" encoding=\"utf-8\"?>\n<s:Envelope s:encodingStyle=\"http://schemas.xmlsoap.org/soap/encoding/\" xmlns:s=\"http://schemas.xmlsoap.org/soap/envelope/\">\n  <s:Body>\n    <u:"@
        + action + " xmlns:u=\""@ + service_type + "\">\n      "@ + args + "\n    </u:"@ + action
        + ">\n  </s:Body>\n</s:Envelope>"@
}

/// The SOAP envelope of a request. Argument values are escaped: they are
/// interpolated straight into the envelope, so an unescaped `<` or `&` would
/// corrupt the request (and a crafted value could inject elements).
pub fn soap_envelope(service_type: &str, action: &str, args: &[(&str, &str)]) -> (body: String)
    ensures
        body@ == envelope_text(service_type@, action@, args_xml(args@)),
{
    let mut a: Vec<char> = Vec::new();
    let mut i: usize = 0;
    while i < args.len()
        invariant
            i <= args.len(),
            a@ == args_xml(args@.take(i as int)),
        decreases args.len() - i,
    {
        assert(args@.take(i + 1).drop_last() == args@.take(i as int));
        let (k, v) = args[i];
        append_str(&mut a, "<");
        append_str(&mut a, k);
        append_str(&mut a, ">");
        append_str(&mut a, escape_xml(v).as_str());
        append_str(&mut a, "</");
        append_str(&mut a, k);
        append_str(&mut a, ">");
        i = i + 1;
    }
    assert(args@.take(args.len() as int) == args@);
    let args_text = string_of(&a);
    proof {
        reveal_with_fuel(concat_views, 10);
    }
    joined(
        &[
            "<?xml version=\"1.0\" encoding=\"utf-8\"?>\n<s:Envelope s:encodingStyle=\"http://schemas.xmlsoap.org/soap/encoding/\" xmlns:s=\"http://schemas.xmlsoap.org/soap/envelope/\">\n  <s:Body>\n    <u:",
            action,
            " xmlns:u=\"",
            service_type,
            "\">\n      ",
            args_text.as_str(),
            "\n    </u:",
            action,
            ">\n  </s:Body>\n</s:Envelope>",
        ],
    )
}

/// The phonebook ids a `NewPhonebookList` value names: each comma-separated
/// piece, trimmed, that reads as a number, with its text.
pub open spec fn phonebook_ids_of(parts: Seq<Seq<char>>) -> Seq<(u32, Seq<char>)>
    decreases parts.len(),
{
    if parts.len() == 0 {
        Seq::empty()
    } else {
        let rest = phonebook_ids_of(parts.drop_last());
        let t = trim(parts.last());
        match parse_u32(t) {
            Some(id) => rest.push((id, t)),
            None => rest,
        }
    }
}

/// The phonebooks a `GetPhonebookList` answer lists, each with its id's text.
pub fn phonebook_ids(list: &str) -> (ids: Vec<(u32, String)>)
    ensures
        ids@.map_values(|p: (u32, String)| (p.0, p.1@)) == phonebook_ids_of(split_on(list@, ',')),
{
    let s = chars_of(list);
    let parts = split_on_chars(&s, ',');
    let ghost pv = parts@.map_values(|p: Vec<char>| p@);
    let mut ids: Vec<(u32, String)> = Vec::new();
    let mut k: usize = 0;
    while k < parts.len()
        invariant
            k <= parts.len(),
            pv == parts@.map_values(|p: Vec<char>| p@),
            pv == split_on(list@, ','),
            ids@.map_values(|p: (u32, String)| (p.0, p.1@)) == phonebook_ids_of(pv.take(k as int)),
        decreases parts.len() - k,
    {
        assert(pv.take(k + 1).drop_last() == pv.take(k as int));
        assert(pv.take(k + 1).last() == parts@[k as int]@);
        let t = trim_chars(&parts[k]);
        if let Some(id) = parse_u32_exec(&t) {
            let ghost before = ids@;
            let text = string_of(&t);
            ids.push((id, text));
            assert(ids@.map_values(|p: (u32, String)| (p.0, p.1@)) =~= before.map_values(
                |p: (u32, String)| (p.0, p.1@),
            ).push((id, t@)));
        }
        k = k + 1;
    }
    assert(pv.take(parts.len() as int) == pv);
    ids
}

/// A phonebook's name and download URL from a `GetPhonebook` answer: the
/// name defaults to `Phonebook <id>`, and a phonebook without a URL is
/// skipped.
pub open spec fn phonebook_target_of(pbid: u32, xml: Seq<char>) -> Option<(u32, Seq<char>, Seq<char>)> {
    let name = match tag_value(xml, "NewPhonebookName"@) {
        Some(n) => n,
        None => "Phonebook "@ + dec(pbid as nat),
    };
    let url = tag_or_empty(xml, "NewPhonebookURL"@);
    if url.len() == 0 {
        None
    } else {
        Some((pbid, name, url))
    }
}

pub fn phonebook_target(pbid: u32, xml: &str) -> (r: Option<(u32, String, String)>)
    ensures
        match r {
            Some((id, name, url)) => phonebook_target_of(pbid, xml@) == Some((id, name@, url@)),
            None => phonebook_target_of(pbid, xml@) is None,
        },
{
    let name = match extract_xml_tag(xml, "NewPhonebookName") {
        Some(n) => n,
        None => {
            let mut out: Vec<char> = Vec::new();
            append_str(&mut out, "Phonebook ");
            push_dec(&mut out, pbid as u64);
            string_of(&out)
        },
    };
    let url = match extract_xml_tag(xml, "NewPhonebookURL") {
        Some(u) => u,
        None => String::new(),
    };
    if url.as_str().is_empty() {
        None
    } else {
        Some((pbid, name, url))
    }
}

/// The call list's download URL from a `GetCallList` answer.
pub fn call_list_url(xml: &str) -> (r: Result<String, FritzError>)
    ensures
        match r {
            Ok(u) => tag_value(xml@, "NewCallListURL"@) == Some(u@),
            Err(e) => tag_value(xml@, "NewCallListURL"@) is None && (e matches FritzError::SoapAction {
                action,
                detail,
            } && action@ == "GetCallList"@ && detail@ == "Missing NewCallListURL in response"@),
        },
{
    match extract_xml_tag(xml, "NewCallListURL") {
        Some(u) => Ok(u),
        None => Err(
            FritzError::SoapAction {
                action: "GetCallList".to_string(),
                detail: "Missing NewCallListURL in response".to_string(),
            },
        ),
    }
}

/// The number of telephony clients an `X_AVM-DE_GetNumberOfClients` answer
/// reports, when it carries one that reads as a number.
pub open spec fn client_count_of(xml: Seq<char>) -> Option<u32> {
    match tag_value(xml, "NewX_AVM-DE_NumberOfClients"@) {
        Some(raw) => parse_u32(raw),
        None => None,
    }
}

/// The client count of an `X_AVM-DE_GetNumberOfClients` answer. Fetching
/// the account numbers fails when it cannot be read.
pub fn client_count(xml: &str) -> (r: Result<u32, FritzError>)
    ensures
        match client_count_of(xml@) {
            Some(n) => r == Ok::<u32, FritzError>(n),
            None => r matches Err(FritzError::SoapAction { action, detail }) && action@
                == "X_AVM-DE_GetNumberOfClients"@ && detail@ == "response carried no client count"@,
        },
{
    let count = match extract_xml_tag(xml, "NewX_AVM-DE_NumberOfClients") {
        Some(raw) => parse_u32_exec(&chars_of(raw.as_str())),
        None => None,
    };
    match count {
        Some(n) => Ok(n),
        None => Err(
            FritzError::SoapAction {
                action: "X_AVM-DE_GetNumberOfClients".to_string(),
                detail: "response carried no client count".to_string(),
            },
        ),
    }
}

/// The numbers the router associates with one registered SIP client.
#[derive(Debug, Clone, PartialEq, Eq)]
pub struct AccountNumbers {
    /// SIP username, as configured on the router. The key to match an account.
    pub username: String,
    /// The router's own label for the device, such as `Blu-PC`.
    pub phone_name: String,
    /// The extension other phones on this router dial to reach it, `620`.
    /// Empty when the router has not assigned one.
    pub internal: String,
    /// The number presented to the outside world on outgoing calls.
    /// Empty when the client has no outgoing number of its own.
    pub external: String,
}

/// What an `X_AVM-DE_GetClient3` answer says of a client; nothing for a
/// configured but unused slot, which has no username.
pub fn account_numbers_from(xml: &str) -> (r: Option<AccountNumbers>)
    ensures
        tag_or_empty(xml@, "NewX_AVM-DE_ClientUsername"@).len() == 0 <==> r is None,
        r matches Some(a) ==> a.username@ == tag_or_empty(xml@, "NewX_AVM-DE_ClientUsername"@)
            && a.phone_name@ == tag_or_empty(xml@, "NewX_AVM-DE_PhoneName"@) && a.internal@
            == tag_or_empty(xml@, "NewX_AVM-DE_InternalNumber"@) && a.external@ == tag_or_empty(
            xml@,
            "NewX_AVM-DE_OutGoingNumber"@,
        ),
{
    let username = tag_text(xml, "NewX_AVM-DE_ClientUsername");
    if username.as_str().is_empty() {
        return None;
    }
    Some(
        AccountNumbers {
            username,
            phone_name: tag_text(xml, "NewX_AVM-DE_PhoneName"),
            internal: tag_text(xml, "NewX_AVM-DE_InternalNumber"),
            external: tag_text(xml, "NewX_AVM-DE_OutGoingNumber"),
        },
    )
}

fn tag_text(xml: &str, tag: &str) -> (s: String)
    ensures
        s@ == tag_or_empty(xml@, tag@),
{
    match extract_xml_tag(xml, tag) {
        Some(v) => v,
        None => String::new(),
    }
}

/// The country code a `GetVoIPCommonCountryCode` answer carries, as `0049`.
pub fn country_code_from(xml: &str) -> (r: Result<String, FritzError>)
    ensures
        match r {
            Ok(c) => tag_value(xml@, "NewVoIPCountryCode"@) == Some(c@),
            Err(e) => tag_value(xml@, "NewVoIPCountryCode"@) is None && (e matches FritzError::SoapAction {
                action,
                detail,
            } && action@ == "GetVoIPCommonCountryCode"@ && detail@ == "response carried no country code"@),
        },
{
    match extract_xml_tag(xml, "NewVoIPCountryCode") {
        Some(c) => Ok(c),
        None => Err(
            FritzError::SoapAction {
                action: "GetVoIPCommonCountryCode".to_string(),
                detail: "response carried no country code".to_string(),
            },
        ),
    }
}

// ─────────────────────────────── SOAP calls ───────────────────────────────

/// What one SOAP request sends.
pub struct SoapRequest {
    pub url: String,
    pub body: String,
    /// The `SOAPAction` header.
    pub soap_action: String,
    /// The `Authorization` header, when there is a challenge to answer.
    pub authorization: Option<String>,
}

/// How the router answered one request.
pub enum SoapReply {
    /// A success, with the response body.
    Success(String),
    /// A 401, with its `WWW-Authenticate` challenge and body.
    Unauthorized { www_authenticate: String, body: String },
    /// The request failed otherwise.
    Failed(FritzError),
}

/// What a SOAP exchange does next.
pub enum SoapStep {
    /// It is over.
    Done(Result<String, FritzError>),
    /// Send the request again with this `Authorization` header, and remember
    /// the challenge for later calls.
    Retry { authorization: String, challenge: Vec<(String, String)> },
}

/// A SOAP exchange in flight: TR-064 answers an unauthenticated request with
/// a 401 challenge, which is answered once with digest authentication.
pub struct SoapCall {
    pub control_url: String,
    /// Whether the challenge has been answered already.
    pub retried: bool,
}

impl FritzBoxClient {
    /// Starts a SOAP call: the request to send first. With a challenge held
    /// from an earlier call it is answered up front, so only the first call
    /// of a session pays for the 401 round trip.
    pub fn soap_call(
        &self,
        control_url: &str,
        service_type: &str,
        action: &str,
        args: &[(&str, &str)],
        cached_challenge: Option<&Vec<(String, String)>>,
    ) -> (r: (SoapCall, SoapRequest))
        requires
            cached_challenge matches Some(c) ==> keys_distinct(c@),
        ensures
            r.0.control_url@ == control_url@,
            !r.0.retried,
            r.1.url@ == (if self.spec_config().tls {
                "https://"@
            } else {
                "http://"@
            }) + self.spec_config().host@ + ":"@ + dec(self.spec_config().port as nat) + control_url@,
            r.1.body@ == envelope_text(service_type@, action@, args_xml(args@)),
            r.1.soap_action@ == soap_action_text(service_type@, action@),
            match cached_challenge {
                Some(c) => r.1.authorization matches Some(a) && exists|bits: u128|
                    is_v4_uuid(bits) && a@ == digest_header_text(
                        self.spec_config().username@,
                        self.spec_config().password@,
                        "POST"@,
                        control_url@,
                        params_view(c@),
                        cnonce_of(bits),
                    ),
                None => r.1.authorization is None,
            },
    {
        let authorization = match cached_challenge {
            Some(params) => Some(
                build_digest_header(
                    self.config.username.as_str(),
                    self.config.password.as_str(),
                    "POST",
                    control_url,
                    params,
                ),
            ),
            None => None,
        };
        let request = SoapRequest {
            url: self.soap_url(control_url),
            body: soap_envelope(service_type, action, args),
            soap_action: soap_action(service_type, action),
            authorization,
        };
        (SoapCall { control_url: control_url.to_string(), retried: false }, request)
    }
}

impl SoapCall {
    /// What the exchange does with the router's answer: a success or a
    /// failure ends it; the first 401 is answered with digest
    /// authentication, a second one means the credentials are wrong.
    pub fn on_reply(&mut self, client: &FritzBoxClient, reply: SoapReply) -> (step: SoapStep)
        ensures
            final(self).control_url == old(self).control_url,
            match reply {
                SoapReply::Success(b) => step == SoapStep::Done(Ok(b)) && final(self).retried == old(
                    self,
                ).retried,
                SoapReply::Failed(e) => step == SoapStep::Done(Err(e)) && final(self).retried == old(
                    self,
                ).retried,
                SoapReply::Unauthorized { www_authenticate, body } => if old(self).retried {
                    (step matches SoapStep::Done(Err(FritzError::AuthFailed { user, detail }))
                        && user@ == client.spec_config().username@ && detail == body)
                } else {
                    final(self).retried && (step matches SoapStep::Retry { authorization, challenge }
                        && keys_distinct(challenge@) && params_view(challenge@) == challenge_params(
                        www_authenticate@,
                    ) && exists|bits: u128|
                        is_v4_uuid(bits) && authorization@ == digest_header_text(
                            client.spec_config().username@,
                            client.spec_config().password@,
                            "POST"@,
                            old(self).control_url@,
                            challenge_params(www_authenticate@),
                            cnonce_of(bits),
                        ))
                },
            },
    {
        match reply {
            SoapReply::Success(b) => SoapStep::Done(Ok(b)),
            SoapReply::Failed(e) => SoapStep::Done(Err(e)),
            SoapReply::Unauthorized { www_authenticate, body } => {
                if self.retried {
                    SoapStep::Done(
                        Err(
                            FritzError::AuthFailed {
                                user: client.config().username.clone(),
                                detail: body,
                            },
                        ),
                    )
                } else {
                    let challenge = parse_auth_header(www_authenticate.as_str());
                    let authorization = build_digest_header(
                        client.config().username.as_str(),
                        client.config().password.as_str(),
                        "POST",
                        self.control_url.as_str(),
                        &challenge,
                    );
                    self.retried = true;
                    SoapStep::Retry { authorization, challenge }
                }
            },
        }
    }
}

} // verus!
