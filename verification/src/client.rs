//! How a mining client names itself to a pool.

use vstd::prelude::*;
use vstd::string::*;
use crate::error::{Error, ErrorKind, ErrorKindView};
use crate::text::{decimal, push_decimal};

verus! {

/// User name and password, as given in `user[:password]`.
pub struct UserInfo<'a> {
    pub user: &'a str,
    pub password: Option<&'a str>,
}

/// The character between user name and password.
pub const DELIMITER: char = ':';

/// Whether `k` is the place of the last delimiter in `value`.
pub open spec fn is_last_delimiter(value: Seq<char>, k: int) -> bool {
    &&& 0 <= k < value.len()
    &&& value[k] == DELIMITER
    &&& forall|j: int| k < j < value.len() ==> value[j] != DELIMITER
}

/// Whether `value` holds a delimiter.
pub open spec fn has_delimiter(value: Seq<char>) -> bool {
    exists|k: int| 0 <= k < value.len() && value[k] == DELIMITER
}

impl<'a> UserInfo<'a> {
    pub fn new(user: &'a str, password: Option<&'a str>) -> (info: Self)
        ensures
            info.user == user,
            info.password == password,
    {
        UserInfo { user, password }
    }

    /// Splits `value` at its last delimiter: what stands before it is the
    /// user name, what stands behind it the password. Without a delimiter
    /// all of `value` is the user name and there is no password.
    pub fn parse(value: &'a str) -> (info: Self)
        ensures
            !has_delimiter(value@) ==> info.user@ == value@ && info.password is None,
            forall|k: int|
                is_last_delimiter(value@, k) ==> info.user@ == value@.subrange(0, k)
                    && info.password is Some && info.password->0@ == value@.subrange(
                    k + 1,
                    value@.len() as int,
                ),
    {
        let len = value.unicode_len();
        let mut i: usize = len;
        while i > 0
            invariant
                i <= len,
                len == value@.len(),
                forall|j: int| i <= j < len ==> value@[j] != DELIMITER,
            decreases i,
        {
            if value.get_char(i - 1) == DELIMITER {
                let user = value.substring_char(0, i - 1);
                let password = value.substring_char(i, len);
                assert(is_last_delimiter(value@, i - 1));
                assert forall|k: int| is_last_delimiter(value@, k) implies k == i - 1 by {
                    if k < i - 1 {
                        assert(value@[i - 1] != DELIMITER);
                    }
                }
                return UserInfo { user, password: Some(password) };
            }
            i -= 1;
        }
        UserInfo { user: value, password: None }
    }
}

/// Whether two strings hold the same characters.
pub fn same_text(a: &str, b: &str) -> (same: bool)
    ensures
        same == (a@ == b@),
{
    let len = a.unicode_len();
    if b.unicode_len() != len {
        return false;
    }
    let mut i: usize = 0;
    while i < len
        invariant
            i <= len,
            len == a@.len(),
            len == b@.len(),
            a@.subrange(0, i as int) == b@.subrange(0, i as int),
        decreases len - i,
    {
        if a.get_char(i) != b.get_char(i) {
            assert(a@[i as int] != b@[i as int]);
            return false;
        }
        assert(a@.subrange(0, i + 1) =~= a@.subrange(0, i as int).push(a@[i as int]));
        assert(b@.subrange(0, i + 1) =~= b@.subrange(0, i as int).push(b@[i as int]));
        i += 1;
    }
    assert(a@ =~= a@.subrange(0, len as int));
    assert(b@ =~= b@.subrange(0, len as int));
    true
}

/// Whether `needle` stands in `hay` from place `at` on.
pub open spec fn occurs_at(hay: Seq<char>, needle: Seq<char>, at: int) -> bool {
    0 <= at && at + needle.len() <= hay.len() && hay.subrange(at, at + needle.len()) == needle
}

/// Whether `needle` stands somewhere in `hay`.
pub open spec fn spec_contains_text(hay: Seq<char>, needle: Seq<char>) -> bool {
    exists|at: int| occurs_at(hay, needle, at)
}

/// The characters of a string.
fn characters(text: &str) -> (chars: Vec<char>)
    ensures
        chars@ == text@,
{
    let len = text.unicode_len();
    let mut chars: Vec<char> = Vec::new();
    let mut i: usize = 0;
    while i < len
        invariant
            i <= len,
            len == text@.len(),
            chars@ == text@.subrange(0, i as int),
        decreases len - i,
    {
        chars.push(text.get_char(i));
        assert(chars@ =~= text@.subrange(0, i + 1));
        i += 1;
    }
    assert(chars@ =~= text@);
    chars
}

/// Whether `needle` stands somewhere in `hay`.
pub fn contains_text(hay: &str, needle: &str) -> (found: bool)
    ensures
        found == spec_contains_text(hay@, needle@),
{
    let hay_chars = characters(hay);
    let needle_chars = characters(needle);
    let n = hay_chars.len();
    let m = needle_chars.len();
    if m > n {
        assert forall|at: int| !occurs_at(hay@, needle@, at) by {}
        return false;
    }
    let mut at: usize = 0;
    while at <= n - m
        invariant
            m <= n,
            at <= n - m + 1,
            n == hay@.len(),
            m == needle@.len(),
            hay_chars@ == hay@,
            needle_chars@ == needle@,
            forall|earlier: int| 0 <= earlier < at ==> !occurs_at(hay@, needle@, earlier),
        decreases n - m + 1 - at,
    {
        let mut j: usize = 0;
        while j < m && hay_chars[at + j] == needle_chars[j]
            invariant
                j <= m,
                at + m <= n,
                n == hay_chars@.len(),
                m == needle_chars@.len(),
                forall|k: int| 0 <= k < j ==> hay_chars@[at + k] == needle_chars@[k],
            decreases m - j,
        {
            j += 1;
        }
        if j == m {
            assert(hay@.subrange(at as int, at + m) =~= needle@);
            assert(occurs_at(hay@, needle@, at as int));
            return true;
        }
        assert(!occurs_at(hay@, needle@, at as int)) by {
            if occurs_at(hay@, needle@, at as int) {
                assert(hay@.subrange(at as int, at + m)[j as int] == needle@[j as int]);
            }
        }
        at += 1;
    }
    assert forall|place: int| !occurs_at(hay@, needle@, place) by {}
    false
}

/// How a client talks to its pool.
#[derive(Debug)]
pub enum Protocol {
    /// Work is made up and results are thrown away
    Drain,
    StratumV1,
    /// Stratum V2 over a secured connection; the pool's authority shows
    /// itself by this public key, kept as it is written in the URL
    StratumV2(String),
    StratumV2Insecure,
}

/// A [`Protocol`] with its key as a sequence of characters.
pub enum ProtocolView {
    Drain,
    StratumV1,
    StratumV2(Seq<char>),
    StratumV2Insecure,
}

impl View for Protocol {
    type V = ProtocolView;

    open spec fn view(&self) -> ProtocolView {
        match *self {
            Protocol::Drain => ProtocolView::Drain,
            Protocol::StratumV1 => ProtocolView::StratumV1,
            Protocol::StratumV2(key) => ProtocolView::StratumV2(key@),
            Protocol::StratumV2Insecure => ProtocolView::StratumV2Insecure,
        }
    }
}

/// URL scheme of a drain.
pub const SCHEME_DRAIN: &'static str = "drain";

/// URL scheme of Stratum V1.
pub const SCHEME_STRATUM_V1: &'static str = "stratum+tcp";

/// URL scheme of Stratum V2.
pub const SCHEME_STRATUM_V2: &'static str = "stratum2+tcp";

/// URL scheme of Stratum V2 without security.
pub const SCHEME_STRATUM_V2_INSECURE: &'static str = "stratum2+tcp+insecure";

/// Port of a drain.
pub const DEFAULT_PORT_DRAIN: u16 = 0;

/// Port of Stratum V1 unless the URL names one.
pub const DEFAULT_PORT_STRATUM_V1: u16 = 3333;

/// Port of Stratum V2 unless the URL names one.
pub const DEFAULT_PORT_STRATUM_V2: u16 = 3336;

/// Port of Stratum V2 without security unless the URL names one.
pub const DEFAULT_PORT_STRATUM_V2_INSECURE: u16 = 3336;

impl ProtocolView {
    /// The port of the protocol unless the URL names one.
    pub open spec fn default_port(self) -> u16 {
        match self {
            ProtocolView::Drain => DEFAULT_PORT_DRAIN,
            ProtocolView::StratumV1 => DEFAULT_PORT_STRATUM_V1,
            ProtocolView::StratumV2(_) => DEFAULT_PORT_STRATUM_V2,
            ProtocolView::StratumV2Insecure => DEFAULT_PORT_STRATUM_V2_INSECURE,
        }
    }

    /// The URL scheme of the protocol.
    pub open spec fn scheme(self) -> Seq<char> {
        match self {
            ProtocolView::Drain => SCHEME_DRAIN@,
            ProtocolView::StratumV1 => SCHEME_STRATUM_V1@,
            ProtocolView::StratumV2(_) => SCHEME_STRATUM_V2@,
            ProtocolView::StratumV2Insecure => SCHEME_STRATUM_V2_INSECURE@,
        }
    }

    /// How the protocol is named to the user.
    pub open spec fn text(self) -> Seq<char> {
        match self {
            ProtocolView::Drain => "Drain"@,
            ProtocolView::StratumV1 => "Stratum V1"@,
            ProtocolView::StratumV2(key) => "Stratum V2 (authority key: "@ + key + ")"@,
            ProtocolView::StratumV2Insecure => "Stratum V2 Insecure"@,
        }
    }
}

/// Whether `scheme` is the scheme of a protocol.
pub open spec fn known_scheme(scheme: Seq<char>) -> bool {
    scheme == SCHEME_DRAIN@ || scheme == SCHEME_STRATUM_V1@ || scheme == SCHEME_STRATUM_V2@
        || scheme == SCHEME_STRATUM_V2_INSECURE@
}

/// Whether the path of a URL holds a key behind its first character: there
/// is a first character, and it takes one byte.
pub open spec fn path_holds_key(path: Seq<char>) -> bool {
    path.len() > 0 && (path[0] as u32) < 0x80
}

/// The message for a scheme that no protocol has.
pub open spec fn unknown_protocol(scheme: Seq<char>) -> Seq<char> {
    "unknown protocol '"@ + scheme + "'"@
}

/// The message for a Stratum V2 URL without a key.
pub open spec fn missing_authority_key(scheme: Seq<char>) -> Seq<char> {
    "missing upstream authority key for securing "@ + scheme + " connection"@
}

impl Clone for Protocol {
    fn clone(&self) -> (copy: Self)
        ensures
            copy@ == self@,
    {
        match self {
            Protocol::Drain => Protocol::Drain,
            Protocol::StratumV1 => Protocol::StratumV1,
            Protocol::StratumV2(key) => Protocol::StratumV2(key.clone()),
            Protocol::StratumV2Insecure => Protocol::StratumV2Insecure,
        }
    }
}

impl Protocol {
    /// Whether scheme and path of a URL name a protocol.
    pub open spec fn parse_succeeds(scheme: Seq<char>, path: Seq<char>) -> bool {
        known_scheme(scheme) && (scheme == SCHEME_STRATUM_V2@ ==> path_holds_key(path))
    }

    /// The port of the protocol unless the URL names one.
    pub fn default_port(&self) -> (port: u16)
        ensures
            port == self@.default_port(),
    {
        match self {
            Protocol::Drain => DEFAULT_PORT_DRAIN,
            Protocol::StratumV1 => DEFAULT_PORT_STRATUM_V1,
            Protocol::StratumV2(_) => DEFAULT_PORT_STRATUM_V2,
            Protocol::StratumV2Insecure => DEFAULT_PORT_STRATUM_V2_INSECURE,
        }
    }

    /// The URL scheme of the protocol.
    pub fn scheme(&self) -> (scheme: &'static str)
        ensures
            scheme@ == self@.scheme(),
    {
        match self {
            Protocol::Drain => SCHEME_DRAIN,
            Protocol::StratumV1 => SCHEME_STRATUM_V1,
            Protocol::StratumV2(_) => SCHEME_STRATUM_V2,
            Protocol::StratumV2Insecure => SCHEME_STRATUM_V2_INSECURE,
        }
    }

    /// The protocol that the scheme of a URL names. For Stratum V2 the path
    /// of the URL holds, behind its first character, the public key of the
    /// pool's authority. The key is taken as it stands: whether it is a key
    /// is for the one to find out who opens the connection.
    pub fn parse(scheme: &str, path: &str) -> (protocol: Result<Self, Error>)
        ensures
            protocol is Ok <==> known_scheme(scheme@) && (scheme@ == SCHEME_STRATUM_V2@
                ==> path_holds_key(path@)),
            protocol is Ok ==> protocol->Ok_0@.scheme() == scheme@,
            protocol is Ok && scheme@ == SCHEME_STRATUM_V2@ ==> protocol->Ok_0@
                == ProtocolView::StratumV2(path@.subrange(1, path@.len() as int)),
            !known_scheme(scheme@) ==> protocol is Err && protocol->Err_0.spec_kind()
                == ErrorKindView::Client(unknown_protocol(scheme@)),
            scheme@ == SCHEME_STRATUM_V2@ && !path_holds_key(path@) ==> protocol is Err
                && protocol->Err_0.spec_kind() == ErrorKindView::Client(
                missing_authority_key(scheme@),
            ),
    {
        proof {
            reveal_strlit("drain");
            reveal_strlit("stratum+tcp");
            reveal_strlit("stratum2+tcp");
            reveal_strlit("stratum2+tcp+insecure");
            assert(SCHEME_DRAIN@.len() == 5);
            assert(SCHEME_STRATUM_V1@.len() == 11);
            assert(SCHEME_STRATUM_V2@.len() == 12);
            assert(SCHEME_STRATUM_V2_INSECURE@.len() == 21);
        }
        if same_text(scheme, SCHEME_DRAIN) {
            Ok(Protocol::Drain)
        } else if same_text(scheme, SCHEME_STRATUM_V1) {
            Ok(Protocol::StratumV1)
        } else if same_text(scheme, SCHEME_STRATUM_V2) {
            let len = path.unicode_len();
            if len > 0 && (path.get_char(0) as u32) < 0x80 {
                let key = path.substring_char(1, len);
                Ok(Protocol::StratumV2(String::from_str(key)))
            } else {
                let mut message = String::from_str("missing upstream authority key for securing ");
                message.append(scheme);
                message.append(" connection");
                Err(Error::new(ErrorKind::Client(message)))
            }
        } else if same_text(scheme, SCHEME_STRATUM_V2_INSECURE) {
            Ok(Protocol::StratumV2Insecure)
        } else {
            let mut message = String::from_str("unknown protocol '");
            message.append(scheme);
            message.append("'");
            Err(Error::new(ErrorKind::Client(message)))
        }
    }

    /// The protocol as it is named to the user.
    pub fn to_string(&self) -> (text: String)
        ensures
            text@ == self@.text(),
    {
        match self {
            Protocol::Drain => String::from_str("Drain"),
            Protocol::StratumV1 => String::from_str("Stratum V1"),
            Protocol::StratumV2(key) => {
                let mut text = String::from_str("Stratum V2 (authority key: ");
                text.append(key.as_str());
                text.append(")");
                text
            },
            Protocol::StratumV2Insecure => String::from_str("Stratum V2 Insecure"),
        }
    }
}

/// The parts of a URL that a descriptor is made of.
pub struct UrlParts {
    pub scheme: String,
    pub path: String,
    pub host: Option<String>,
    pub port: Option<u16>,
    pub fragment: Option<String>,
}

/// [`UrlParts`] with sequences of characters for strings.
pub struct UrlPartsView {
    pub scheme: Seq<char>,
    pub path: Seq<char>,
    pub host: Option<Seq<char>>,
    pub port: Option<u16>,
    pub fragment: Option<Seq<char>>,
}

/// The characters of a string that may be missing.
pub open spec fn text_of(text: Option<String>) -> Option<Seq<char>> {
    match text {
        Some(t) => Some(t@),
        None => None,
    }
}

impl View for UrlParts {
    type V = UrlPartsView;

    open spec fn view(&self) -> UrlPartsView {
        UrlPartsView {
            scheme: self.scheme@,
            path: self.path@,
            host: text_of(self.host),
            port: self.port,
            fragment: text_of(self.fragment),
        }
    }
}

/// The error of the URL parser.
#[verifier::external_type_specification]
#[verifier::external_body]
pub struct ExParseError(url::ParseError);

/// The parts of `input` read as an absolute URL, or `None` where `input` is
/// none. This is what the URL parser finds; the library takes it as given.
pub uninterp spec fn url_parts(input: Seq<char>) -> Option<UrlPartsView>;

/// Reads `input` as an absolute URL with `url::Url::parse` and takes scheme,
/// path, host, port and fragment from the result by its methods of these
/// names. The contract only gives the outcome its name, [`url_parts`]:
/// nothing is claimed about which strings are URLs or what their parts are.
#[verifier::external_body]
fn parse_url(input: &str) -> (parts: Result<UrlParts, url::ParseError>)
    ensures
        parts is Ok <==> url_parts(input@) is Some,
        parts is Ok ==> url_parts(input@) == Some(parts->Ok_0@),
{
    let url = url::Url::parse(input)?;
    Ok(
        UrlParts {
            scheme: url.scheme().to_string(),
            path: url.path().to_string(),
            host: url.host().map(|host| host.to_string()),
            port: url.port(),
            fragment: url.fragment().map(|fragment| fragment.to_string()),
        },
    )
}

/// What a client needs to know to get work: where its pool is, how to talk
/// to it, and as whom.
#[derive(Debug)]
pub struct Descriptor {
    pub protocol: Protocol,
    pub enabled: bool,
    pub user: String,
    pub password: Option<String>,
    pub host: String,
    pub port: Option<u16>,
    /// What stands behind `#` in the URL
    pub fragment: Option<String>,
}

/// A [`Descriptor`] with sequences of characters for strings.
pub struct DescriptorView {
    pub protocol: ProtocolView,
    pub enabled: bool,
    pub user: Seq<char>,
    pub password: Option<Seq<char>>,
    pub host: Seq<char>,
    pub port: Option<u16>,
    pub fragment: Option<Seq<char>>,
}

impl View for Descriptor {
    type V = DescriptorView;

    open spec fn view(&self) -> DescriptorView {
        DescriptorView {
            protocol: self.protocol@,
            enabled: self.enabled,
            user: self.user@,
            password: text_of(self.password),
            host: self.host@,
            port: self.port,
            fragment: text_of(self.fragment),
        }
    }
}

/// Message for a string that is no URL.
pub const INVALID_URL: &'static str = "invalid URL";

/// Message for a URL without a host.
pub const MISSING_HOSTNAME: &'static str = "missing hostname";

/// Part of a host name that asks for extranonce subscription.
pub const XNSUB_HOST: &'static str = ".nicehash.com";

/// Fragment that asks for extranonce subscription.
pub const XNSUB_FRAGMENT: &'static str = "xnsub";

/// What is wrong with `url` as the URL of a pool, if anything: it is no URL,
/// its scheme is that of no protocol, it lacks the key that its protocol
/// needs, or it has no host.
pub open spec fn descriptor_error(url: Seq<char>) -> Option<Seq<char>> {
    match url_parts(url) {
        None => Some(INVALID_URL@),
        Some(parts) => if !known_scheme(parts.scheme) {
            Some(unknown_protocol(parts.scheme))
        } else if parts.scheme == SCHEME_STRATUM_V2@ && !path_holds_key(parts.path) {
            Some(missing_authority_key(parts.scheme))
        } else if parts.host is None {
            Some(MISSING_HOSTNAME@)
        } else {
            None
        },
    }
}

/// A copy of a string that may be missing.
fn clone_text(text: &Option<String>) -> (copy: Option<String>)
    ensures
        text_of(copy) == text_of(*text),
{
    match text {
        Some(t) => Some(t.clone()),
        None => None,
    }
}

/// A string that may be missing as an owned string.
fn own_text(text: Option<&str>) -> (owned: Option<String>)
    ensures
        owned is Some <==> text is Some,
        owned is Some ==> owned->0@ == text->0@,
{
    match text {
        Some(t) => Some(String::from_str(t)),
        None => None,
    }
}

impl DescriptorView {
    /// The port that the client connects to.
    pub open spec fn port(self) -> u16 {
        match self.port {
            Some(port) => port,
            None => self.protocol.default_port(),
        }
    }

    /// The URL of the pool, with the parts asked for: the scheme, the user
    /// name, and the port where the descriptor names one.
    pub open spec fn url(self, protocol: bool, port: bool, user: bool) -> Seq<char> {
        (if protocol {
            self.protocol.scheme() + "://"@
        } else {
            Seq::<char>::empty()
        }) + (if user {
            self.user + "@"@
        } else {
            Seq::<char>::empty()
        }) + self.host + (if port && self.port is Some {
            ":"@ + decimal(self.port->0 as nat)
        } else {
            Seq::<char>::empty()
        })
    }

    /// Whether the pool is to be asked for extranonce subscription: its host
    /// is one of nicehash, or the fragment of the URL says so.
    pub open spec fn detect_xnsub(self) -> bool {
        spec_contains_text(self.host, XNSUB_HOST@) || (self.fragment matches Some(fragment)
            && spec_contains_text(fragment, XNSUB_FRAGMENT@))
    }
}

impl Clone for Descriptor {
    fn clone(&self) -> (copy: Self)
        ensures
            copy@ == self@,
    {
        Descriptor {
            protocol: self.protocol.clone(),
            enabled: self.enabled,
            user: self.user.clone(),
            password: clone_text(&self.password),
            host: self.host.clone(),
            port: self.port,
            fragment: clone_text(&self.fragment),
        }
    }
}

impl Descriptor {
    /// The port that the client connects to.
    pub fn port(&self) -> (port: u16)
        ensures
            port == self@.port(),
    {
        match self.port {
            Some(value) => value,
            None => self.protocol.default_port(),
        }
    }

    /// The URL of the pool, with the parts asked for.
    pub fn get_url(&self, protocol: bool, port: bool, user: bool) -> (url: String)
        ensures
            url@ == self@.url(protocol, port, user),
    {
        let mut result = String::new();
        if protocol {
            result.append(self.protocol.scheme());
            result.append("://");
        }
        if user {
            result.append(self.user.as_str());
            result.append("@");
        }
        result.append(self.host.as_str());
        match self.port {
            Some(value) => {
                if port {
                    result.append(":");
                    push_decimal(&mut result, value as u64);
                }
            },
            None => {},
        }
        assert(result@ =~= self@.url(protocol, port, user));
        result
    }

    /// The URL of the pool with all its parts.
    pub fn get_full_url(&self) -> (url: String)
        ensures
            url@ == self@.url(true, true, true),
    {
        self.get_url(true, true, true)
    }

    /// The descriptor for the URL `parts` and `user_info`.
    pub fn from_parts(parts: UrlParts, user_info: &UserInfo, enabled: bool) -> (descriptor: Result<
        Self,
        Error,
    >)
        ensures
            descriptor is Ok <==> Protocol::parse_succeeds(parts.scheme@, parts.path@)
                && parts.host is Some,
            descriptor is Ok ==> descriptor->Ok_0@ == (DescriptorView {
                protocol: descriptor->Ok_0@.protocol,
                enabled,
                user: user_info.user@,
                password: match user_info.password {
                    Some(p) => Some(p@),
                    None => None,
                },
                host: parts.host->0@,
                port: parts.port,
                fragment: text_of(parts.fragment),
            }) && descriptor->Ok_0@.protocol.scheme() == parts.scheme@ && (parts.scheme@
                == SCHEME_STRATUM_V2@ ==> descriptor->Ok_0@.protocol == ProtocolView::StratumV2(
                parts.path@.subrange(1, parts.path@.len() as int),
            )),
            Protocol::parse_succeeds(parts.scheme@, parts.path@) && parts.host is None
                ==> descriptor is Err && descriptor->Err_0.spec_kind() == ErrorKindView::Client(
                MISSING_HOSTNAME@,
            ),
            !known_scheme(parts.scheme@) ==> descriptor is Err && descriptor->Err_0.spec_kind()
                == ErrorKindView::Client(unknown_protocol(parts.scheme@)),
            parts.scheme@ == SCHEME_STRATUM_V2@ && !path_holds_key(parts.path@) ==> descriptor is Err
                && descriptor->Err_0.spec_kind() == ErrorKindView::Client(
                missing_authority_key(parts.scheme@),
            ),
    {
        let protocol = match Protocol::parse(parts.scheme.as_str(), parts.path.as_str()) {
            Ok(protocol) => protocol,
            Err(e) => return Err(e),
        };
        let host = match parts.host {
            Some(host) => host,
            None => {
                return Err(Error::new(ErrorKind::Client(String::from_str(MISSING_HOSTNAME))));
            },
        };
        Ok(
            Descriptor {
                protocol,
                enabled,
                user: String::from_str(user_info.user),
                password: own_text(user_info.password),
                host,
                port: parts.port,
                fragment: parts.fragment,
            },
        )
    }

    /// The descriptor for `url` and `user_info`. The URL has to be one that
    /// the URL parser reads, with the scheme of a protocol and with a host.
    pub fn create(url: &str, user_info: &UserInfo, enabled: bool) -> (descriptor: Result<
        Self,
        Error,
    >)
        ensures
            descriptor is Ok <==> descriptor_error(url@) is None,
            descriptor is Ok ==> ({
                let parts = url_parts(url@)->0;
                &&& descriptor->Ok_0@.enabled == enabled
                &&& descriptor->Ok_0@.user == user_info.user@
                &&& descriptor->Ok_0@.password == match user_info.password {
                    Some(p) => Some(p@),
                    None => None,
                }
                &&& descriptor->Ok_0@.host == parts.host->0
                &&& descriptor->Ok_0@.port == parts.port
                &&& descriptor->Ok_0@.fragment == parts.fragment
                &&& descriptor->Ok_0@.protocol.scheme() == parts.scheme
                &&& parts.scheme == SCHEME_STRATUM_V2@ ==> descriptor->Ok_0@.protocol
                    == ProtocolView::StratumV2(parts.path.subrange(1, parts.path.len() as int))
            }),
            descriptor is Err ==> descriptor->Err_0.spec_kind() == ErrorKindView::Client(
                descriptor_error(url@)->0,
            ),
    {
        match parse_url(url) {
            Ok(parts) => Self::from_parts(parts, user_info, enabled),
            Err(_) => Err(Error::new(ErrorKind::Client(String::from_str(INVALID_URL)))),
        }
    }

    /// Whether the pool is to be asked for extranonce subscription.
    pub fn detect_xnsub(&self) -> (xnsub: bool)
        ensures
            xnsub == self@.detect_xnsub(),
    {
        if contains_text(self.host.as_str(), XNSUB_HOST) {
            return true;
        }
        match &self.fragment {
            Some(fragment) => contains_text(fragment.as_str(), XNSUB_FRAGMENT),
            None => false,
        }
    }
}

/// Why a change to the clients of a group is refused.
#[derive(Clone, Copy, Debug, PartialEq, Eq, Structural)]
pub enum ClientError {
    /// There is no client at the index
    Missing,
}

/// Takes the client at `index` out of the list of a group.
pub fn remove_client_at<T>(clients: &mut Vec<T>, index: usize) -> (removed: Result<T, ClientError>)
    ensures
        removed is Ok <==> index < old(clients)@.len(),
        removed is Ok ==> removed->Ok_0 == old(clients)@[index as int] && final(clients)@ == old(
            clients,
        )@.remove(index as int),
        removed is Err ==> removed->Err_0 == ClientError::Missing && final(clients)@ == old(
            clients,
        )@,
{
    if index >= clients.len() {
        Err(ClientError::Missing)
    } else {
        Ok(clients.remove(index))
    }
}

/// Moves the client at `index_from` to `index_to` in the list of a group;
/// the clients between the two places move up by one. Returns the new place.
pub fn move_client_to<T>(clients: &mut Vec<T>, index_from: usize, index_to: usize) -> (moved:
    Result<usize, ClientError>)
    ensures
        moved is Ok <==> index_from < old(clients)@.len() && index_to < old(clients)@.len(),
        moved is Ok ==> moved->Ok_0 == index_to && final(clients)@ == old(clients)@.remove(
            index_from as int,
        ).insert(index_to as int, old(clients)@[index_from as int]),
        moved is Err ==> moved->Err_0 == ClientError::Missing && final(clients)@ == old(clients)@,
{
    let len = clients.len();
    if index_from >= len || index_to >= len {
        return Err(ClientError::Missing);
    }
    let client = clients.remove(index_from);
    clients.insert(index_to, client);
    Ok(index_to)
}

} // verus!
