//! The settings of the JMAP server, with what stands in for each setting
//! that the configuration does not give.

use crate::registry::{Diagnostic, DiagnosticView};
use crate::settings::Setting;
use crate::text::{chars_of, find_chars, find_from, trim, trimmed};
use hyper::header::{HeaderName, HeaderValue, InvalidHeaderName, InvalidHeaderValue};
use rand::distributions::{Alphanumeric, DistString};
use std::str::FromStr;
use vstd::prelude::*;
use vstd::string::{StrSliceExecFns, StringExecFns};
use vstd::utf8::encode_utf8;

verus! {

/// So many requests in so much time. The time is in milliseconds.
#[derive(Debug, Clone, Copy, PartialEq, Eq, Structural)]
pub struct Rate {
    pub requests: u64,
    pub period: u64,
}

/// A time of the day or of the week at which something is done again.
#[derive(Debug, Clone, Copy, PartialEq, Eq, Structural)]
pub enum SimpleCron {
    Day { hour: u32, minute: u32 },
    Week { day: u32, hour: u32, minute: u32 },
    Hour { minute: u32 },
}

/// What the keys of the configuration hold. Times are in milliseconds.
pub struct JmapSettings {
    /// `storage.full-text.default-language`, as a language code that is
    /// known.
    pub default_language: Setting<String>,
    /// `jmap.protocol.query.max-results`
    pub query_max_results: Setting<usize>,
    /// `jmap.protocol.changes.max-results`
    pub changes_max_results: Setting<usize>,
    /// `jmap.protocol.search-snippet.max-results`
    pub snippet_max_results: Setting<usize>,
    /// `jmap.protocol.request.max-size`
    pub request_max_size: Setting<usize>,
    /// `jmap.protocol.request.max-calls`
    pub request_max_calls: Setting<usize>,
    /// `jmap.protocol.request.max-concurrent`
    pub request_max_concurrent: Setting<u64>,
    /// `jmap.protocol.get.max-objects`
    pub get_max_objects: Setting<usize>,
    /// `jmap.protocol.set.max-objects`
    pub set_max_objects: Setting<usize>,
    /// `jmap.protocol.upload.max-size`
    pub upload_max_size: Setting<usize>,
    /// `jmap.protocol.upload.max-concurrent`
    pub upload_max_concurrent: Setting<u64>,
    /// `jmap.protocol.upload.quota.size`
    pub upload_tmp_quota_size: Setting<usize>,
    /// `jmap.protocol.upload.quota.files`
    pub upload_tmp_quota_amount: Setting<usize>,
    /// `jmap.protocol.upload.ttl`
    pub upload_tmp_ttl: Setting<u64>,
    /// `jmap.mailbox.max-depth`
    pub mailbox_max_depth: Setting<usize>,
    /// `jmap.mailbox.max-name-length`
    pub mailbox_name_max_len: Setting<usize>,
    /// `jmap.email.max-attachment-size`
    pub mail_attachments_max_size: Setting<usize>,
    /// `jmap.email.parse.max-items`
    pub mail_parse_max_items: Setting<usize>,
    /// `jmap.email.max-size`
    pub mail_max_size: Setting<usize>,
    /// `sieve.untrusted.limits.name-length`
    pub sieve_max_script_name: Setting<usize>,
    /// `sieve.untrusted.limits.max-scripts`
    pub sieve_max_scripts: Setting<usize>,
    /// `cache.session.ttl`
    pub session_cache_ttl: Setting<u64>,
    /// `jmap.rate-limit.account`
    pub rate_authenticated: Setting<Rate>,
    /// `authentication.rate-limit`
    pub rate_authenticate_req: Setting<Rate>,
    /// `jmap.rate-limit.anonymous`
    pub rate_anonymous: Setting<Rate>,
    /// `jmap.rate-limit.use-forwarded`
    pub rate_use_forwarded: Setting<bool>,
    /// `jmap.event-source.throttle`
    pub event_source_throttle: Setting<u64>,
    /// `jmap.push.max-total`
    pub push_max_total: Setting<usize>,
    /// `jmap.push.attempts.interval`
    pub push_attempt_interval: Setting<u64>,
    /// `jmap.push.attempts.max`
    pub push_attempts_max: Setting<u32>,
    /// `jmap.push.retry.interval`
    pub push_retry_interval: Setting<u64>,
    /// `jmap.push.timeout.request`
    pub push_timeout: Setting<u64>,
    /// `jmap.push.timeout.verify`
    pub push_verify_timeout: Setting<u64>,
    /// `jmap.push.throttle`
    pub push_throttle: Setting<u64>,
    /// `jmap.web-socket.throttle`
    pub web_socket_throttle: Setting<u64>,
    /// `jmap.web-socket.timeout`
    pub web_socket_timeout: Setting<u64>,
    /// `jmap.web-socket.heartbeat`
    pub web_socket_heartbeat: Setting<u64>,
    /// `oauth.key`
    pub oauth_key: Option<String>,
    /// `oauth.expiry.user-code`
    pub oauth_expiry_user_code: Setting<u64>,
    /// `oauth.expiry.auth-code`
    pub oauth_expiry_auth_code: Setting<u64>,
    /// `oauth.expiry.token`
    pub oauth_expiry_token: Setting<u64>,
    /// `oauth.expiry.refresh-token`
    pub oauth_expiry_refresh_token: Setting<u64>,
    /// `oauth.expiry.refresh-token-renew`
    pub oauth_expiry_refresh_token_renew: Setting<u64>,
    /// `oauth.auth.max-attempts`
    pub oauth_max_auth_attempts: Setting<u32>,
    /// `spam.header.is-spam`
    pub spam_header: Option<String>,
    /// The values under `server.http.headers`, in their order.
    pub http_headers: Vec<String>,
    /// `storage.encryption.enable`
    pub encrypt: Setting<bool>,
    /// `storage.encryption.append`
    pub encrypt_append: Setting<bool>,
    /// `jmap.principal.allow-lookups`
    pub principal_allow_lookups: Setting<bool>,
    /// `jmap.session.purge.frequency`
    pub session_purge_frequency: Setting<SimpleCron>,
}

/// The settings of the JMAP server. Times are in milliseconds, but for the
/// lifetimes of uploads and of the OAuth codes and tokens, which are in
/// seconds.
pub struct JmapConfig {
    pub default_language: String,
    pub query_max_results: usize,
    pub changes_max_results: usize,
    pub snippet_max_results: usize,
    pub request_max_size: usize,
    pub request_max_calls: usize,
    pub request_max_concurrent: u64,
    pub get_max_objects: usize,
    pub set_max_objects: usize,
    pub upload_max_size: usize,
    pub upload_max_concurrent: u64,
    pub upload_tmp_quota_size: usize,
    pub upload_tmp_quota_amount: usize,
    pub upload_tmp_ttl: u64,
    pub mailbox_max_depth: usize,
    pub mailbox_name_max_len: usize,
    pub mail_attachments_max_size: usize,
    pub mail_parse_max_items: usize,
    pub mail_max_size: usize,
    pub sieve_max_script_name: usize,
    pub sieve_max_scripts: usize,
    pub session_cache_ttl: u64,
    pub rate_authenticated: Option<Rate>,
    pub rate_authenticate_req: Option<Rate>,
    pub rate_anonymous: Option<Rate>,
    pub rate_use_forwarded: bool,
    pub event_source_throttle: u64,
    pub push_max_total: usize,
    pub push_attempt_interval: u64,
    pub push_attempts_max: u32,
    pub push_retry_interval: u64,
    pub push_timeout: u64,
    pub push_verify_timeout: u64,
    pub push_throttle: u64,
    pub web_socket_throttle: u64,
    pub web_socket_timeout: u64,
    pub web_socket_heartbeat: u64,
    pub oauth_key: String,
    pub oauth_expiry_user_code: u64,
    pub oauth_expiry_auth_code: u64,
    pub oauth_expiry_token: u64,
    pub oauth_expiry_refresh_token: u64,
    pub oauth_expiry_refresh_token_renew: u64,
    pub oauth_max_auth_attempts: u32,
    /// The header that marks a message as spam, and the value it then has.
    pub spam_header: Option<(String, String)>,
    /// The headers that every HTTP response gets, each with its value.
    pub http_headers: Vec<(String, String)>,
    pub encrypt: bool,
    pub encrypt_append: bool,
    pub principal_allow_lookups: bool,
    pub session_purge_frequency: SimpleCron,
}

/// The whole seconds of a time in milliseconds.
pub open spec fn whole_seconds(time: u64) -> u64 {
    time / 1000
}

/// The lifetime in seconds that a setting gives, or `otherwise` where the
/// key is missing or cannot be read.
pub open spec fn seconds_of(setting: Setting<u64>, otherwise: u64) -> u64 {
    match setting {
        Setting::Value(time) => whole_seconds(time),
        _ => otherwise,
    }
}

/// The lifetime in seconds that a setting gives, or `otherwise` where the
/// key is missing or cannot be read.
pub fn seconds(setting: Setting<u64>, otherwise: u64) -> (lifetime: u64)
    ensures
        lifetime == seconds_of(setting, otherwise),
{
    match setting {
        Setting::Value(time) => time / 1000,
        _ => otherwise,
    }
}

/// The letters and digits of ASCII.
pub open spec fn is_ascii_alphanumeric(c: char) -> bool {
    ('0' <= c && c <= '9') || ('A' <= c && c <= 'Z') || ('a' <= c && c <= 'z')
}

/// `Alphanumeric.sample_string` of rand, drawn from the generator of the
/// thread: a string of `len` characters, each a letter or a digit of ASCII.
/// Which ones is left to chance.
#[verifier::external_body]
fn random_key(len: usize) -> (key: String)
    ensures
        key@.len() == len,
        forall|i: int| 0 <= i < key@.len() ==> is_ascii_alphanumeric(#[trigger] key@[i]),
{
    Alphanumeric.sample_string(&mut rand::thread_rng(), len)
}

/// Why hyper did not take a header name.
#[verifier::external_type_specification]
#[verifier::external_body]
pub struct ExInvalidHeaderName(InvalidHeaderName);

/// Why hyper did not take a header value.
#[verifier::external_type_specification]
#[verifier::external_body]
pub struct ExInvalidHeaderValue(InvalidHeaderValue);

/// A character that may stand in a header name: a letter or a digit of
/// ASCII, or one of ``!#$%&'*+-.^_`|~``.
pub open spec fn is_token_char(c: char) -> bool {
    c == '!' || ('#' <= c && c <= '\'') || c == '*' || c == '+' || c == '-' || c == '.' || (
    '0' <= c && c <= '9') || ('A' <= c && c <= 'Z') || ('^' <= c && c <= 'z') || c == '|' || c
        == '~'
}

/// A capital letter of ASCII as its small letter, any other character as
/// it is.
pub open spec fn lowered(c: char) -> char {
    if 'A' <= c && c <= 'Z' {
        ((c as u32) + 32) as char
    } else {
        c
    }
}

/// The longest header name that hyper takes, in bytes.
pub const MAX_HEADER_NAME_LEN: usize = 65535;

/// The form in which hyper holds a header name, if it takes the name: the
/// name in lower case. A name is taken if it is not empty, not longer than
/// hyper allows, and made of characters that may stand in a header name.
pub open spec fn http_header_name(name: Seq<char>) -> Option<Seq<char>> {
    if 1 <= name.len() <= MAX_HEADER_NAME_LEN && forall|i: int|
        0 <= i < name.len() ==> is_token_char(#[trigger] name[i]) {
        Some(name.map_values(|c: char| lowered(c)))
    } else {
        None
    }
}

/// A byte that may stand in a header value: anything from the space on but
/// the delete character, and the tabulator.
pub open spec fn is_value_byte(b: u8) -> bool {
    (b >= 32 && b != 127) || b == 9
}

/// Whether hyper takes the text as a header value.
pub open spec fn is_header_value(value: Seq<char>) -> bool {
    forall|i: int| 0 <= i < encode_utf8(value).len() ==> is_value_byte(#[trigger] encode_utf8(value)[i])
}

/// `HeaderName::from_str` of hyper: the name in the form in which hyper
/// holds it, or the reason why it is no header name.
#[verifier::external_body]
fn header_name(name: &str) -> (r: Result<String, InvalidHeaderName>)
    ensures
        match http_header_name(name@) {
            Some(held) => r matches Ok(text) && text@ == held,
            None => r is Err,
        },
{
    match HeaderName::from_str(name) {
        Ok(held) => Ok(held.as_str().to_string()),
        Err(reason) => Err(reason),
    }
}

/// `HeaderValue::from_str` of hyper: the value as it was given, if every
/// byte of it may stand in a header value, or the reason why it is none.
#[verifier::external_body]
fn header_value(value: &str) -> (r: Result<String, InvalidHeaderValue>)
    ensures
        r is Ok <==> is_header_value(value@),
        r matches Ok(text) ==> text@ == value@,
{
    match HeaderValue::from_str(value) {
        Ok(_) => Ok(value.to_string()),
        Err(reason) => Err(reason),
    }
}

/// The `Display` form of hyper's `InvalidHeaderName`, which is one fixed
/// sentence.
#[verifier::external_body]
fn name_reason(reason: &InvalidHeaderName) -> (text: String)
    ensures
        text@ == "invalid HTTP header name"@,
{
    format!("{}", reason)
}

/// The `Display` form of hyper's `InvalidHeaderValue`, which is one fixed
/// sentence.
#[verifier::external_body]
fn value_reason(reason: &InvalidHeaderValue) -> (text: String)
    ensures
        text@ == "failed to parse header value"@,
{
    format!("{}", reason)
}

/// Whether mail-parser takes the text as the name of a message header: it
/// is not empty and made of ASCII letters, digits, `_` and `-`.
pub open spec fn is_mail_header_name(name: Seq<char>) -> bool {
    name.len() > 0 && forall|i: int|
        0 <= i < name.len() ==> is_ascii_alphanumeric(#[trigger] name[i]) || name[i] == '_'
            || name[i] == '-'
}

/// `HeaderName::parse` of mail-parser, of which only whether it takes the
/// name is kept.
#[verifier::external_body]
fn mail_header_name_taken(name: &str) -> (taken: bool)
    ensures
        taken == is_mail_header_name(name@),
{
    mail_parser::HeaderName::parse(name).is_some()
}

/// What is said of an HTTP header that cannot be used, given the reason or
/// the line itself.
pub open spec fn invalid_header_message(detail: Seq<char>) -> Seq<char> {
    "Invalid header found in property \"server.http.headers\": "@ + detail
}

/// Puts together what is said of an HTTP header that cannot be used.
pub fn invalid_header(detail: &str) -> (message: String)
    ensures
        message@ == invalid_header_message(detail@),
{
    let mut message = "Invalid header found in property \"server.http.headers\": ".to_owned();
    message.append(detail);
    message
}

/// The two parts of a line around its first colon, each without the white
/// space around it.
pub open spec fn colon_parts(line: Seq<char>) -> Option<(Seq<char>, Seq<char>)> {
    match find_from(line, seq![':'], 0) {
        Some(at) => Some(
            (trimmed(line.subrange(0, at)), trimmed(line.subrange(at + 1, line.len() as int))),
        ),
        None => None,
    }
}

/// The two parts of a line around its first colon, each without the white
/// space around it.
pub fn split_at_colon(line: &str) -> (parts: Option<(&str, &str)>)
    ensures
        match colon_parts(line@) {
            Some((name, value)) => parts matches Some((n, v)) && n@ == name && v@ == value,
            None => parts is None,
        },
{
    let chars = chars_of(line);
    let mut colon: Vec<char> = Vec::new();
    colon.push(':');
    proof {
        assert(colon@ =~= seq![':']);
    }
    match find_chars(&chars, &colon) {
        Some(at) => {
            let name = trim(line.substring_char(0, at));
            let value = trim(line.substring_char(at + 1, chars.len()));
            Some((name, value))
        },
        None => None,
    }
}

/// The header that a line of `server.http.headers` gives, or what is wrong
/// with the line.
pub open spec fn header_of(line: Seq<char>) -> Result<(Seq<char>, Seq<char>), Seq<char>> {
    match colon_parts(line) {
        None => Err(invalid_header_message(line)),
        Some((name, value)) => match http_header_name(name) {
            None => Err(invalid_header_message("invalid HTTP header name"@)),
            Some(held) => if is_header_value(value) {
                Ok((held, value))
            } else {
                Err(invalid_header_message("failed to parse header value"@))
            },
        },
    }
}

/// The headers that the lines give, or what is wrong with the first line
/// that gives none.
pub open spec fn headers_of(lines: Seq<Seq<char>>) -> Result<Seq<(Seq<char>, Seq<char>)>, Seq<char>>
    decreases lines.len(),
{
    if lines.len() == 0 {
        Ok(Seq::empty())
    } else {
        match header_of(lines[0]) {
            Err(message) => Err(message),
            Ok(header) => match headers_of(lines.drop_first()) {
                Err(message) => Err(message),
                Ok(rest) => Ok(seq![header] + rest),
            },
        }
    }
}

/// The view of a list of headers.
pub open spec fn pairs_view(pairs: Seq<(String, String)>) -> Seq<(Seq<char>, Seq<char>)> {
    pairs.map_values(|pair: (String, String)| (pair.0@, pair.1@))
}

/// Reads one line of `server.http.headers`.
pub fn parse_http_header(line: &str) -> (r: Result<(String, String), String>)
    ensures
        match header_of(line@) {
            Ok((name, value)) => r matches Ok(pair) && pair.0@ == name && pair.1@ == value,
            Err(message) => r matches Err(text) && text@ == message,
        },
{
    match split_at_colon(line) {
        None => Err(invalid_header(line)),
        Some((name, value)) => {
            let held = match header_name(name) {
                Ok(held) => held,
                Err(reason) => {
                    let text = name_reason(&reason);
                    return Err(invalid_header(text.as_str()));
                },
            };
            match header_value(value) {
                Ok(kept) => Ok((held, kept)),
                Err(reason) => {
                    let text = value_reason(&reason);
                    Err(invalid_header(text.as_str()))
                },
            }
        },
    }
}

/// Reads the lines of `server.http.headers`. One line that gives no header
/// spoils them all.
pub fn parse_http_headers(lines: &Vec<String>) -> (r: Result<Vec<(String, String)>, String>)
    ensures
        match headers_of(lines.deep_view()) {
            Ok(headers) => r matches Ok(pairs) && pairs_view(pairs@) == headers,
            Err(message) => r matches Err(text) && text@ == message,
        },
{
    let ghost all = lines.deep_view();
    let mut pairs: Vec<(String, String)> = Vec::new();
    let mut i: usize = 0;
    proof {
        assert(all.skip(0) =~= all);
        assert(pairs_view(pairs@) =~= Seq::<(Seq<char>, Seq<char>)>::empty());
    }
    while i < lines.len()
        invariant
            i <= lines.len(),
            all == lines.deep_view(),
            headers_of(all) == match headers_of(all.skip(i as int)) {
                Ok(rest) => Ok::<Seq<(Seq<char>, Seq<char>)>, Seq<char>>(pairs_view(pairs@) + rest),
                Err(message) => Err(message),
            },
        decreases lines.len() - i,
    {
        proof {
            assert(all.skip(i as int)[0] == lines@[i as int]@);
            assert(all.skip(i as int).drop_first() =~= all.skip(i + 1));
        }
        match parse_http_header(lines[i].as_str()) {
            Ok(pair) => {
                let ghost before = pairs_view(pairs@);
                let ghost added = (pair.0@, pair.1@);
                pairs.push(pair);
                proof {
                    assert(pairs_view(pairs@) =~= before.push(added));
                    match headers_of(all.skip(i + 1)) {
                        Ok(rest) => {
                            assert(before + (seq![added] + rest) =~= before.push(added) + rest);
                        },
                        Err(_) => {},
                    }
                }
            },
            Err(message) => {
                return Err(message);
            },
        }
        i = i + 1;
    }
    proof {
        assert(all.skip(i as int) =~= Seq::<Seq<char>>::empty());
        assert(pairs_view(pairs@) + Seq::<(Seq<char>, Seq<char>)>::empty() =~= pairs_view(pairs@));
    }
    Ok(pairs)
}

/// Why the header that marks spam cannot be used.
#[derive(Debug, Clone, PartialEq, Eq)]
pub enum SpamHeaderError {
    /// What stands before the colon is no name of a message header.
    InvalidName(String),
}

/// The header that marks spam, as the setting gives it: nothing without a
/// colon, else the name before the colon and the value after it.
pub open spec fn spam_header_of(setting: Seq<char>) -> Result<
    Option<(Seq<char>, Seq<char>)>,
    Seq<char>,
> {
    match colon_parts(setting) {
        None => Ok(None),
        Some((name, value)) => if is_mail_header_name(name) {
            Ok(Some((name, value)))
        } else {
            Err(name)
        },
    }
}

/// Reads the header that marks a message as spam.
pub fn parse_spam_header(setting: &str) -> (r: Result<Option<(String, String)>, SpamHeaderError>)
    ensures
        match spam_header_of(setting@) {
            Ok(Some((name, value))) => r matches Ok(Some(pair)) && pair.0@ == name && pair.1@
                == value,
            Ok(None) => r matches Ok(None),
            Err(name) => r matches Err(SpamHeaderError::InvalidName(text)) && text@ == name,
        },
{
    match split_at_colon(setting) {
        None => Ok(None),
        Some((name, value)) => {
            if mail_header_name_taken(name) {
                Ok(Some((name.to_owned(), value.to_owned())))
            } else {
                Err(SpamHeaderError::InvalidName(name.to_owned()))
            }
        },
    }
}

impl JmapSettings {
    /// No key is set.
    pub open spec fn is_unset(&self) -> bool {
        &&& self.default_language is Missing
        &&& self.query_max_results is Missing
        &&& self.changes_max_results is Missing
        &&& self.snippet_max_results is Missing
        &&& self.request_max_size is Missing
        &&& self.request_max_calls is Missing
        &&& self.request_max_concurrent is Missing
        &&& self.get_max_objects is Missing
        &&& self.set_max_objects is Missing
        &&& self.upload_max_size is Missing
        &&& self.upload_max_concurrent is Missing
        &&& self.upload_tmp_quota_size is Missing
        &&& self.upload_tmp_quota_amount is Missing
        &&& self.upload_tmp_ttl is Missing
        &&& self.mailbox_max_depth is Missing
        &&& self.mailbox_name_max_len is Missing
        &&& self.mail_attachments_max_size is Missing
        &&& self.mail_parse_max_items is Missing
        &&& self.mail_max_size is Missing
        &&& self.sieve_max_script_name is Missing
        &&& self.sieve_max_scripts is Missing
        &&& self.session_cache_ttl is Missing
        &&& self.rate_authenticated is Missing
        &&& self.rate_authenticate_req is Missing
        &&& self.rate_anonymous is Missing
        &&& self.rate_use_forwarded is Missing
        &&& self.event_source_throttle is Missing
        &&& self.push_max_total is Missing
        &&& self.push_attempt_interval is Missing
        &&& self.push_attempts_max is Missing
        &&& self.push_retry_interval is Missing
        &&& self.push_timeout is Missing
        &&& self.push_verify_timeout is Missing
        &&& self.push_throttle is Missing
        &&& self.web_socket_throttle is Missing
        &&& self.web_socket_timeout is Missing
        &&& self.web_socket_heartbeat is Missing
        &&& self.oauth_key is None
        &&& self.oauth_expiry_user_code is Missing
        &&& self.oauth_expiry_auth_code is Missing
        &&& self.oauth_expiry_token is Missing
        &&& self.oauth_expiry_refresh_token is Missing
        &&& self.oauth_expiry_refresh_token_renew is Missing
        &&& self.oauth_max_auth_attempts is Missing
        &&& self.spam_header is None
        &&& self.http_headers@.len() == 0
        &&& self.encrypt is Missing
        &&& self.encrypt_append is Missing
        &&& self.principal_allow_lookups is Missing
        &&& self.session_purge_frequency is Missing
    }

    /// The settings of a configuration that sets no key.
    pub fn unset() -> (settings: JmapSettings)
        ensures
            settings.is_unset(),
    {
        JmapSettings {
            default_language: Setting::Missing,
            query_max_results: Setting::Missing,
            changes_max_results: Setting::Missing,
            snippet_max_results: Setting::Missing,
            request_max_size: Setting::Missing,
            request_max_calls: Setting::Missing,
            request_max_concurrent: Setting::Missing,
            get_max_objects: Setting::Missing,
            set_max_objects: Setting::Missing,
            upload_max_size: Setting::Missing,
            upload_max_concurrent: Setting::Missing,
            upload_tmp_quota_size: Setting::Missing,
            upload_tmp_quota_amount: Setting::Missing,
            upload_tmp_ttl: Setting::Missing,
            mailbox_max_depth: Setting::Missing,
            mailbox_name_max_len: Setting::Missing,
            mail_attachments_max_size: Setting::Missing,
            mail_parse_max_items: Setting::Missing,
            mail_max_size: Setting::Missing,
            sieve_max_script_name: Setting::Missing,
            sieve_max_scripts: Setting::Missing,
            session_cache_ttl: Setting::Missing,
            rate_authenticated: Setting::Missing,
            rate_authenticate_req: Setting::Missing,
            rate_anonymous: Setting::Missing,
            rate_use_forwarded: Setting::Missing,
            event_source_throttle: Setting::Missing,
            push_max_total: Setting::Missing,
            push_attempt_interval: Setting::Missing,
            push_attempts_max: Setting::Missing,
            push_retry_interval: Setting::Missing,
            push_timeout: Setting::Missing,
            push_verify_timeout: Setting::Missing,
            push_throttle: Setting::Missing,
            web_socket_throttle: Setting::Missing,
            web_socket_timeout: Setting::Missing,
            web_socket_heartbeat: Setting::Missing,
            oauth_key: None,
            oauth_expiry_user_code: Setting::Missing,
            oauth_expiry_auth_code: Setting::Missing,
            oauth_expiry_token: Setting::Missing,
            oauth_expiry_refresh_token: Setting::Missing,
            oauth_expiry_refresh_token_renew: Setting::Missing,
            oauth_max_auth_attempts: Setting::Missing,
            spam_header: None,
            http_headers: Vec::new(),
            encrypt: Setting::Missing,
            encrypt_append: Setting::Missing,
            principal_allow_lookups: Setting::Missing,
            session_purge_frequency: Setting::Missing,
        }
    }
}

/// The number of characters of a key that is made up.
pub const OAUTH_KEY_LEN: usize = 64;

/// What is used of the header that marks spam: the header that the setting
/// gives, or none where there is no setting or it names no header.
pub open spec fn spam_header_used(setting: Option<String>) -> Option<(Seq<char>, Seq<char>)> {
    match setting {
        Some(text) => match spam_header_of(text@) {
            Ok(header) => header,
            Err(_) => None,
        },
        None => None,
    }
}

/// The key under which a header that marks spam and cannot be used is
/// reported.
pub open spec fn spam_header_key() -> Seq<char> {
    "spam.header.is-spam"@
}

/// The key under which an HTTP header that cannot be used is reported.
pub open spec fn http_headers_key() -> Seq<char> {
    "server.http.headers"@
}

/// What is said of a header that marks spam and has no usable name, given
/// the name.
pub open spec fn spam_header_message(name: Seq<char>) -> Seq<char> {
    "Invalid header name: "@ + name
}

/// The diagnostics that the settings give rise to: one for the header that
/// marks spam, if its name is none, then one for the HTTP headers, if a
/// line among them gives none.
pub open spec fn jmap_reported(settings: JmapSettings) -> Seq<DiagnosticView> {
    let spam = match settings.spam_header {
        Some(text) => match spam_header_of(text@) {
            Err(name) => seq![
                DiagnosticView { key: spam_header_key(), message: spam_header_message(name) },
            ],
            Ok(_) => Seq::<DiagnosticView>::empty(),
        },
        None => Seq::<DiagnosticView>::empty(),
    };
    match headers_of(settings.http_headers.deep_view()) {
        Err(message) => spam.push(DiagnosticView { key: http_headers_key(), message }),
        Ok(_) => spam,
    }
}

impl JmapConfig {
    /// Every number, time and switch is the one that the settings give, or
    /// the one that stands in for it.
    pub open spec fn scalars_match(&self, settings: JmapSettings) -> bool {
        &&& self.query_max_results == settings.query_max_results.resolved(5000, 5000)
        &&& self.changes_max_results == settings.changes_max_results.resolved(5000, 5000)
        &&& self.snippet_max_results == settings.snippet_max_results.resolved(100, 100)
        &&& self.request_max_size == settings.request_max_size.resolved(10000000, 10000000)
        &&& self.request_max_calls == settings.request_max_calls.resolved(16, 16)
        &&& self.get_max_objects == settings.get_max_objects.resolved(500, 500)
        &&& self.set_max_objects == settings.set_max_objects.resolved(500, 500)
        &&& self.upload_max_size == settings.upload_max_size.resolved(50000000, 50000000)
        &&& self.upload_tmp_quota_size == settings.upload_tmp_quota_size.resolved(50000000, 50000000)
        &&& self.upload_tmp_quota_amount == settings.upload_tmp_quota_amount.resolved(1000, 1000)
        &&& self.mailbox_max_depth == settings.mailbox_max_depth.resolved(10, 10)
        &&& self.mailbox_name_max_len == settings.mailbox_name_max_len.resolved(255, 255)
        &&& self.mail_attachments_max_size == settings.mail_attachments_max_size.resolved(50000000, 50000000)
        &&& self.mail_max_size == settings.mail_max_size.resolved(75000000, 75000000)
        &&& self.mail_parse_max_items == settings.mail_parse_max_items.resolved(10, 10)
        &&& self.sieve_max_script_name == settings.sieve_max_script_name.resolved(512, 512)
        &&& self.sieve_max_scripts == settings.sieve_max_scripts.resolved(256, 256)
        &&& self.push_max_total == settings.push_max_total.resolved(100, 100)
        &&& self.request_max_concurrent == settings.request_max_concurrent.resolved(4, 4)
        &&& self.upload_max_concurrent == settings.upload_max_concurrent.resolved(4, 4)
        &&& self.session_cache_ttl == settings.session_cache_ttl.resolved(3600000, 3600000)
        &&& self.event_source_throttle == settings.event_source_throttle.resolved(1000, 1000)
        &&& self.push_attempt_interval == settings.push_attempt_interval.resolved(60000, 60000)
        &&& self.push_retry_interval == settings.push_retry_interval.resolved(1000, 1000)
        &&& self.push_timeout == settings.push_timeout.resolved(10000, 10000)
        &&& self.push_verify_timeout == settings.push_verify_timeout.resolved(60000, 60000)
        &&& self.push_throttle == settings.push_throttle.resolved(1000, 1000)
        &&& self.web_socket_throttle == settings.web_socket_throttle.resolved(1000, 1000)
        &&& self.web_socket_timeout == settings.web_socket_timeout.resolved(600000, 600000)
        &&& self.web_socket_heartbeat == settings.web_socket_heartbeat.resolved(60000, 60000)
        &&& self.upload_tmp_ttl == seconds_of(settings.upload_tmp_ttl, 3600)
        &&& self.oauth_expiry_user_code == seconds_of(settings.oauth_expiry_user_code, 1800)
        &&& self.oauth_expiry_auth_code == seconds_of(settings.oauth_expiry_auth_code, 600)
        &&& self.oauth_expiry_token == seconds_of(settings.oauth_expiry_token, 3600)
        &&& self.oauth_expiry_refresh_token == seconds_of(settings.oauth_expiry_refresh_token, 2592000)
        &&& self.oauth_expiry_refresh_token_renew == seconds_of(
            settings.oauth_expiry_refresh_token_renew,
            345600,
        )
        &&& self.rate_use_forwarded == settings.rate_use_forwarded.resolved(false, false)
        &&& self.encrypt == settings.encrypt.resolved(true, true)
        &&& self.encrypt_append == settings.encrypt_append.resolved(false, false)
        &&& self.principal_allow_lookups == settings.principal_allow_lookups.resolved(true, true)
        &&& self.rate_authenticated == settings.rate_authenticated.present(
            Rate { requests: 1000, period: 60000 },
        )
        &&& self.rate_authenticate_req == settings.rate_authenticate_req.present(
            Rate { requests: 10, period: 60000 },
        )
        &&& self.rate_anonymous == settings.rate_anonymous.present(
            Rate { requests: 100, period: 60000 },
        )
        &&& self.push_attempts_max == settings.push_attempts_max.resolved(3, 3)
        &&& self.oauth_max_auth_attempts == settings.oauth_max_auth_attempts.resolved(3, 10)
        &&& self.session_purge_frequency == settings.session_purge_frequency.resolved(
            SimpleCron::Hour { minute: 15 },
            SimpleCron::Hour { minute: 15 },
        )
    }

    /// The settings of the server, from what the keys of the configuration
    /// hold, and what is to be reported of keys that cannot be used. The
    /// language is English where none is set. A key for OAuth that is not
    /// set is made up of sixty-four letters and digits. HTTP headers of
    /// which one cannot be used are left out altogether.
    pub fn parse(settings: JmapSettings) -> (out: (JmapConfig, Vec<Diagnostic>))
        ensures
            out.0.scalars_match(settings),
            out.0.default_language@ == match settings.default_language {
                Setting::Value(code) => code@,
                _ => "en"@,
            },
            match settings.oauth_key {
                Some(key) => out.0.oauth_key@ == key@,
                None => out.0.oauth_key@.len() == OAUTH_KEY_LEN && forall|i: int|
                    0 <= i < out.0.oauth_key@.len() ==> is_ascii_alphanumeric(
                        #[trigger] out.0.oauth_key@[i],
                    ),
            },
            match spam_header_used(settings.spam_header) {
                Some((name, value)) => out.0.spam_header matches Some(pair) && pair.0@ == name
                    && pair.1@ == value,
                None => out.0.spam_header is None,
            },
            pairs_view(out.0.http_headers@) == match headers_of(settings.http_headers.deep_view()) {
                Ok(headers) => headers,
                Err(_) => Seq::empty(),
            },
            out.1@.map_values(|diagnostic: Diagnostic| diagnostic@) == jmap_reported(settings),
    {
        let drawn = if settings.oauth_key.is_none() {
            random_key(OAUTH_KEY_LEN)
        } else {
            String::new()
        };
        JmapConfig::parse_with_key(settings, drawn)
    }

    /// The settings of the server as [`JmapConfig::parse`] gives them, with
    /// `drawn` as the key for OAuth where none is set.
    pub fn parse_with_key(settings: JmapSettings, drawn: String) -> (out: (
        JmapConfig,
        Vec<Diagnostic>,
    ))
        ensures
            out.0.scalars_match(settings),
            out.0.default_language@ == match settings.default_language {
                Setting::Value(code) => code@,
                _ => "en"@,
            },
            out.0.oauth_key@ == match settings.oauth_key {
                Some(key) => key@,
                None => drawn@,
            },
            match spam_header_used(settings.spam_header) {
                Some((name, value)) => out.0.spam_header matches Some(pair) && pair.0@ == name
                    && pair.1@ == value,
                None => out.0.spam_header is None,
            },
            pairs_view(out.0.http_headers@) == match headers_of(settings.http_headers.deep_view()) {
                Ok(headers) => headers,
                Err(_) => Seq::empty(),
            },
            out.1@.map_values(|diagnostic: Diagnostic| diagnostic@) == jmap_reported(settings),
    {
        let ghost given = settings;
        let mut diagnostics: Vec<Diagnostic> = Vec::new();
        proof {
            assert(diagnostics@.map_values(|diagnostic: Diagnostic| diagnostic@)
                =~= Seq::<DiagnosticView>::empty());
        }
        let query_max_results = settings.query_max_results.or(5000, 5000);
        let changes_max_results = settings.changes_max_results.or(5000, 5000);
        let snippet_max_results = settings.snippet_max_results.or(100, 100);
        let request_max_size = settings.request_max_size.or(10000000, 10000000);
        let request_max_calls = settings.request_max_calls.or(16, 16);
        let get_max_objects = settings.get_max_objects.or(500, 500);
        let set_max_objects = settings.set_max_objects.or(500, 500);
        let upload_max_size = settings.upload_max_size.or(50000000, 50000000);
        let upload_tmp_quota_size = settings.upload_tmp_quota_size.or(50000000, 50000000);
        let upload_tmp_quota_amount = settings.upload_tmp_quota_amount.or(1000, 1000);
        let mailbox_max_depth = settings.mailbox_max_depth.or(10, 10);
        let mailbox_name_max_len = settings.mailbox_name_max_len.or(255, 255);
        let mail_attachments_max_size = settings.mail_attachments_max_size.or(50000000, 50000000);
        let mail_max_size = settings.mail_max_size.or(75000000, 75000000);
        let mail_parse_max_items = settings.mail_parse_max_items.or(10, 10);
        let sieve_max_script_name = settings.sieve_max_script_name.or(512, 512);
        let sieve_max_scripts = settings.sieve_max_scripts.or(256, 256);
        let push_max_total = settings.push_max_total.or(100, 100);
        let request_max_concurrent = settings.request_max_concurrent.or(4, 4);
        let upload_max_concurrent = settings.upload_max_concurrent.or(4, 4);
        let session_cache_ttl = settings.session_cache_ttl.or(3600000, 3600000);
        let event_source_throttle = settings.event_source_throttle.or(1000, 1000);
        let push_attempt_interval = settings.push_attempt_interval.or(60000, 60000);
        let push_retry_interval = settings.push_retry_interval.or(1000, 1000);
        let push_timeout = settings.push_timeout.or(10000, 10000);
        let push_verify_timeout = settings.push_verify_timeout.or(60000, 60000);
        let push_throttle = settings.push_throttle.or(1000, 1000);
        let web_socket_throttle = settings.web_socket_throttle.or(1000, 1000);
        let web_socket_timeout = settings.web_socket_timeout.or(600000, 600000);
        let web_socket_heartbeat = settings.web_socket_heartbeat.or(60000, 60000);
        let upload_tmp_ttl = seconds(settings.upload_tmp_ttl, 3600);
        let oauth_expiry_user_code = seconds(settings.oauth_expiry_user_code, 1800);
        let oauth_expiry_auth_code = seconds(settings.oauth_expiry_auth_code, 600);
        let oauth_expiry_token = seconds(settings.oauth_expiry_token, 3600);
        let oauth_expiry_refresh_token = seconds(settings.oauth_expiry_refresh_token, 2592000);
        let oauth_expiry_refresh_token_renew = seconds(
            settings.oauth_expiry_refresh_token_renew,
            345600,
        );
        let rate_use_forwarded = settings.rate_use_forwarded.or(false, false);
        let encrypt = settings.encrypt.or(true, true);
        let encrypt_append = settings.encrypt_append.or(false, false);
        let principal_allow_lookups = settings.principal_allow_lookups.or(true, true);
        let rate_authenticated = settings.rate_authenticated.or_missing(
            Rate { requests: 1000, period: 60000 },
        );
        let rate_authenticate_req = settings.rate_authenticate_req.or_missing(
            Rate { requests: 10, period: 60000 },
        );
        let rate_anonymous = settings.rate_anonymous.or_missing(
            Rate { requests: 100, period: 60000 },
        );
        let push_attempts_max = settings.push_attempts_max.or(3, 3);
        let oauth_max_auth_attempts = settings.oauth_max_auth_attempts.or(3, 10);
        let session_purge_frequency = settings.session_purge_frequency.or(
            SimpleCron::Hour { minute: 15 },
            SimpleCron::Hour { minute: 15 },
        );
        let default_language = match settings.default_language {
            Setting::Value(code) => code,
            _ => "en".to_owned(),
        };
        let oauth_key = match settings.oauth_key {
            Some(key) => key,
            None => drawn,
        };
        let spam_header = match settings.spam_header {
            Some(text) => match parse_spam_header(text.as_str()) {
                Ok(header) => header,
                Err(SpamHeaderError::InvalidName(name)) => {
                    let mut message = "Invalid header name: ".to_owned();
                    message.append(name.as_str());
                    let ghost before = diagnostics@.map_values(|diagnostic: Diagnostic| diagnostic@);
                    diagnostics.push(Diagnostic { key: "spam.header.is-spam".to_owned(), message });
                    proof {
                        assert(diagnostics@.map_values(|diagnostic: Diagnostic| diagnostic@)
                            =~= before.push(
                            DiagnosticView {
                                key: spam_header_key(),
                                message: spam_header_message(name@),
                            },
                        ));
                    }
                    None
                },
            },
            None => None,
        };
        let http_headers = match parse_http_headers(&settings.http_headers) {
            Ok(headers) => headers,
            Err(message) => {
                let ghost before = diagnostics@.map_values(|diagnostic: Diagnostic| diagnostic@);
                let ghost said = message@;
                diagnostics.push(Diagnostic { key: "server.http.headers".to_owned(), message });
                proof {
                    assert(diagnostics@.map_values(|diagnostic: Diagnostic| diagnostic@)
                        =~= before.push(DiagnosticView { key: http_headers_key(), message: said }));
                }
                let none: Vec<(String, String)> = Vec::new();
                proof {
                    assert(pairs_view(none@) =~= Seq::<(Seq<char>, Seq<char>)>::empty());
                }
                none
            },
        };
        let config = JmapConfig {
            default_language,
            query_max_results,
            changes_max_results,
            snippet_max_results,
            request_max_size,
            request_max_calls,
            get_max_objects,
            set_max_objects,
            upload_max_size,
            upload_tmp_quota_size,
            upload_tmp_quota_amount,
            mailbox_max_depth,
            mailbox_name_max_len,
            mail_attachments_max_size,
            mail_max_size,
            mail_parse_max_items,
            sieve_max_script_name,
            sieve_max_scripts,
            push_max_total,
            request_max_concurrent,
            upload_max_concurrent,
            session_cache_ttl,
            event_source_throttle,
            push_attempt_interval,
            push_retry_interval,
            push_timeout,
            push_verify_timeout,
            push_throttle,
            web_socket_throttle,
            web_socket_timeout,
            web_socket_heartbeat,
            upload_tmp_ttl,
            oauth_expiry_user_code,
            oauth_expiry_auth_code,
            oauth_expiry_token,
            oauth_expiry_refresh_token,
            oauth_expiry_refresh_token_renew,
            rate_use_forwarded,
            encrypt,
            encrypt_append,
            principal_allow_lookups,
            rate_authenticated,
            rate_authenticate_req,
            rate_anonymous,
            push_attempts_max,
            oauth_max_auth_attempts,
            session_purge_frequency,
            oauth_key,
            spam_header,
            http_headers,
        };
        (config, diagnostics)
    }
}

} // verus!
