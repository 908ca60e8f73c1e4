//! Authentication in both directions: of the proxy by its servers, and of clients by the proxy.
use vstd::prelude::*;
use vstd::string::StrSliceExecFns;

use crate::buffer::{
    be_at, be_bytes4, buffer_bytes, buffer_from, buffer_len, frozen_slice, new_buffer, put_bytes,
    find_zero, put_i32, put_u8, read_be32, wrap_i32, zero_at,
};
use crate::config::{AuthConfig, AuthFailureMessageMode, AuthMode};
use crate::crypto::{
    base64_bytes, base64_decode, base64_encode, base64_text, constant_time_eq, hmac_of, hmac_sha256,
    md5_digest, md5_of, pbkdf2_of, pbkdf2_sha256, random_bytes, sha256_digest, sha256_of,
};
use crate::secrets::{
    read_md5_secret, read_verifier, Md5Secret, ScramFacts, ScramVerifier, SecretFacts, UserSecret,
    UserStore,
};
use crate::text::{
    decimal, eq_ignore_ascii_case, has_prefix, join2, join3, join4, join5, lines, lines_of,
    opt_text, parse_unsigned, push_char, read_unsigned, same_ignoring_case, same_text, shown_text,
    shown_text_of, split, split_on, split_once, split_once_on, starts_with, strip_prefix,
    text_from_utf8, texts, trim, trim_matches, trimmed, trimmed_of, u64_text, usize_text,
    utf8_bytes, utf8_text,
};
use crate::wire::{
    frame_of, invalid_length_text, parse_frontend_frame, scan_frame, tagged_message, Frame,
    FrameScan, FrontendFrame,
};

verus! {

/// The SQL state of a refused login.
pub const AUTH_FAILURE_SQLSTATE: &'static str = "28P01";

/// The tag of every message by which a client proves who it is.
pub const PASSWORD_MESSAGE_TAG: u8 = 112;

// ---------------------------------------------------------------------------
// The proxy's own credentials
// ---------------------------------------------------------------------------

/// A name and a password for servers.
#[derive(Clone, PartialEq, Eq)]
pub struct BackendCredentials {
    username: String,
    password: String,
}

impl BackendCredentials {
    /// The name.
    pub closed spec fn user(self) -> Seq<char> {
        self.username@
    }

    /// The password.
    pub closed spec fn secret(self) -> Seq<char> {
        self.password@
    }

    /// A name and a password.
    pub fn new(username: String, password: String) -> (r: BackendCredentials)
        ensures
            r.user() == username@,
            r.secret() == password@,
    {
        BackendCredentials { username, password }
    }

    /// The name.
    pub fn username(&self) -> (r: &str)
        ensures
            r@ == self.user(),
    {
        self.username.as_str()
    }

    /// The password.
    pub fn password(&self) -> (r: &str)
        ensures
            r@ == self.secret(),
    {
        self.password.as_str()
    }

    /// The credentials as they are shown.
    pub open spec fn shown_as(self) -> Seq<char> {
        "BackendCredentials { username: "@ + shown_text_of(self.user())
            + ", password: \"[REDACTED]\" }"@
    }

    /// The credentials as they are shown: with the name, and without the password.
    pub fn shown(&self) -> (r: String)
        ensures
            r@ == self.shown_as(),
    {
        join3(
            "BackendCredentials { username: ",
            shown_text(self.username.as_str()).as_str(),
            ", password: \"[REDACTED]\" }",
        )
    }

    /// What is shown tells nothing of the password: it is the same for every password.
    pub proof fn law_shown_hides_password(a: BackendCredentials, b: BackendCredentials)
        requires
            a.user() == b.user(),
        ensures
            a.shown_as() == b.shown_as(),
    {
    }

    /// The credentials to use now: what the provider has just given, where there is a provider,
    /// and these otherwise.
    pub fn resolve(self, provided: Option<Result<BackendCredentials, AuthError>>) -> (r: Result<
        BackendCredentials,
        AuthError,
    >)
        ensures
            r == match provided {
                Some(given) => given,
                None => Ok(self),
            },
    {
        match provided {
            Some(given) => given,
            None => Ok(self),
        }
    }
}

/// Why there are no credentials.
#[derive(Clone, Copy, Debug, PartialEq, Eq, Structural)]
pub enum AuthError {
    MissingPasswordEnvironmentVariableName,
    MissingBackendUser,
    PassThroughCredentials,
    Environment,
    EmptyPassword,
}

impl AuthError {
    /// What the error says.
    pub open spec fn text(self) -> Seq<char> {
        match self {
            AuthError::MissingPasswordEnvironmentVariableName => "auth.backend_user requires auth.backend_password_env_var_name"@,
            AuthError::MissingBackendUser => "auth.backend_password_env_var_name requires auth.backend_user"@,
            AuthError::PassThroughCredentials => "backend service credentials are incompatible with auth_mode=pass_through"@,
            AuthError::Environment => "read backend service password from environment"@,
            AuthError::EmptyPassword => "backend service password from environment is empty"@,
        }
    }

    /// What the error says.
    pub fn message(self) -> (r: &'static str)
        ensures
            r@ == self.text(),
    {
        match self {
            AuthError::MissingPasswordEnvironmentVariableName => "auth.backend_user requires auth.backend_password_env_var_name",
            AuthError::MissingBackendUser => "auth.backend_password_env_var_name requires auth.backend_user",
            AuthError::PassThroughCredentials => "backend service credentials are incompatible with auth_mode=pass_through",
            AuthError::Environment => "read backend service password from environment",
            AuthError::EmptyPassword => "backend service password from environment is empty",
        }
    }
}

/// Something that can be asked for the proxy's credentials.
pub trait BackendCredentialProvider {
    fn credentials(&self) -> Result<BackendCredentials, AuthError>;
}

/// A provider that takes the password from the environment.
#[derive(Clone, Debug, PartialEq, Eq)]
pub struct EnvironmentCredentialProvider {
    username: String,
    password_env_var_name: String,
}

impl EnvironmentCredentialProvider {
    /// The name that the credentials are for.
    pub closed spec fn user(self) -> Seq<char> {
        self.username@
    }

    /// The environment variable that holds the password.
    pub closed spec fn variable(self) -> Seq<char> {
        self.password_env_var_name@
    }

    /// A provider for a name, and the variable that holds its password.
    pub fn new(username: &str, password_env_var_name: &str) -> (r: EnvironmentCredentialProvider)
        ensures
            r.user() == username@,
            r.variable() == password_env_var_name@,
    {
        EnvironmentCredentialProvider {
            username: username.to_owned(),
            password_env_var_name: password_env_var_name.to_owned(),
        }
    }

    /// The environment variable that holds the password.
    pub fn password_env_var_name(&self) -> (r: &str)
        ensures
            r@ == self.variable(),
    {
        self.password_env_var_name.as_str()
    }

    /// The credentials, given the text that the variable holds, where it holds any.
    pub fn credentials_from(&self, value: Option<String>) -> (r: Result<
        BackendCredentials,
        AuthError,
    >)
        ensures
            match r {
                Ok(credentials) => {
                    &&& value is Some
                    &&& value->Some_0@.len() > 0
                    &&& credentials.user() == self.user()
                    &&& credentials.secret() == value->Some_0@
                },
                Err(error) => error == (if value is None {
                    AuthError::Environment
                } else {
                    AuthError::EmptyPassword
                }) && (value is None || value->Some_0@.len() == 0),
            },
            r is Ok <==> value is Some && value->Some_0@.len() > 0,
    {
        match value {
            None => Err(AuthError::Environment),
            Some(password) => {
                if password.as_str().is_empty() {
                    Err(AuthError::EmptyPassword)
                } else {
                    Ok(BackendCredentials { username: self.username.clone(), password })
                }
            },
        }
    }
}

/// The provider that the settings ask for: none where they name neither a user nor a variable,
/// and an error where they name one without the other, or both beside a mode that has no use for
/// them.
pub fn load_backend_credential_provider(auth: &AuthConfig) -> (r: Result<
    Option<EnvironmentCredentialProvider>,
    AuthError,
>)
    ensures
        match r {
            Ok(None) => auth.backend_user is None && auth.backend_password_env_var_name is None,
            Ok(Some(provider)) => {
                &&& auth.auth_mode != AuthMode::PassThrough
                &&& Some(provider.user()) == opt_text(auth.backend_user)
                &&& Some(provider.variable()) == opt_text(auth.backend_password_env_var_name)
            },
            Err(AuthError::MissingPasswordEnvironmentVariableName) => auth.backend_user is Some
                && auth.backend_password_env_var_name is None,
            Err(AuthError::MissingBackendUser) => auth.backend_user is None
                && auth.backend_password_env_var_name is Some,
            Err(AuthError::PassThroughCredentials) => auth.backend_user is Some
                && auth.backend_password_env_var_name is Some && auth.auth_mode
                == AuthMode::PassThrough,
            Err(_) => false,
        },
{
    match (&auth.backend_user, &auth.backend_password_env_var_name) {
        (None, None) => Ok(None),
        (Some(_), None) => Err(AuthError::MissingPasswordEnvironmentVariableName),
        (None, Some(_)) => Err(AuthError::MissingBackendUser),
        (Some(user), Some(variable)) => {
            if auth.auth_mode == AuthMode::PassThrough {
                Err(AuthError::PassThroughCredentials)
            } else {
                Ok(Some(EnvironmentCredentialProvider::new(user.as_str(), variable.as_str())))
            }
        },
    }
}

/// The provider loads exactly where the settings pass their own check of the credentials.
pub proof fn law_provider_matches_check(auth: AuthConfig)
    requires
        !auth.auth_query_enabled,
    ensures
        auth.auth_complaint() is None <==> {
            ||| auth.backend_user is None && auth.backend_password_env_var_name is None
            ||| auth.backend_user is Some && auth.backend_password_env_var_name is Some
                && auth.auth_mode != AuthMode::PassThrough
        },
{
}

// ---------------------------------------------------------------------------
// Pieces of messages
// ---------------------------------------------------------------------------

/// The hexadecimal digit of a number below sixteen.
pub open spec fn hex_digit(n: int) -> char {
    if n < 10 {
        (48 + n) as char
    } else {
        (87 + n) as char
    }
}

/// Two hexadecimal digits for each byte.
pub open spec fn hex_text(bytes: Seq<u8>) -> Seq<char> {
    Seq::new(
        2 * bytes.len(),
        |i: int|
            if i % 2 == 0 {
                hex_digit(bytes[i / 2] as int / 16)
            } else {
                hex_digit(bytes[i / 2] as int % 16)
            },
    )
}

fn hex_char(n: u8) -> (r: char)
    requires
        n < 16,
    ensures
        r == hex_digit(n as int),
{
    if n < 10 {
        (48u8 + n) as char
    } else {
        (87u8 + n) as char
    }
}

/// The bytes in hexadecimal, in small letters.
pub fn hex_lower(bytes: &[u8]) -> (r: String)
    ensures
        r@ == hex_text(bytes@),
{
    let mut out = String::new();
    let mut i: usize = 0;
    while i < bytes.len()
        invariant
            i <= bytes@.len(),
            out@ == hex_text(bytes@.take(i as int)),
        decreases bytes@.len() - i,
    {
        push_char(&mut out, hex_char(bytes[i] / 16));
        push_char(&mut out, hex_char(bytes[i] % 16));
        i += 1;
        proof {
            let now = hex_text(bytes@.take(i as int));
            assert(out@.len() == now.len());
            assert forall|k: int| 0 <= k < now.len() implies out@[k] == now[k] by {
                if k < 2 * (i - 1) {
                    assert(bytes@.take(i as int)[k / 2] == bytes@.take(i - 1)[k / 2]);
                }
            }
            assert(out@ =~= now);
        }
    }
    assert(bytes@.take(i as int) =~= bytes@);
    out
}

/// The bitwise exclusive or of two sequences of bytes, as far as both go.
pub open spec fn xor_seq(a: Seq<u8>, b: Seq<u8>) -> Seq<u8> {
    Seq::new(
        if a.len() <= b.len() {
            a.len()
        } else {
            b.len()
        },
        |i: int| a[i] ^ b[i],
    )
}

/// Taking the same bytes in twice gives the first bytes back.
pub proof fn law_xor_twice(a: Seq<u8>, b: Seq<u8>)
    requires
        a.len() == b.len(),
    ensures
        xor_seq(xor_seq(a, b), b) == a,
{
    assert forall|i: int| 0 <= i < a.len() implies xor_seq(xor_seq(a, b), b)[i] == a[i] by {
        let x = a[i];
        let y = b[i];
        assert((x ^ y) ^ y == x) by (bit_vector);
    }
    assert(xor_seq(xor_seq(a, b), b) =~= a);
}

/// The exclusive or of two keys.
pub fn xor_bytes(left: &[u8], right: &[u8]) -> (r: Vec<u8>)
    requires
        left@.len() == right@.len(),
    ensures
        r@ == xor_seq(left@, right@),
{
    let mut out: Vec<u8> = Vec::new();
    let mut i: usize = 0;
    while i < left.len()
        invariant
            i <= left@.len(),
            left@.len() == right@.len(),
            out@.len() == i,
            forall|j: int| 0 <= j < i ==> out@[j] == left@[j] ^ right@[j],
        decreases left@.len() - i,
    {
        out.push(left[i] ^ right[i]);
        i += 1;
    }
    assert(out@ =~= xor_seq(left@, right@));
    out
}

/// A message by which a client proves who it is.
pub fn password_message(payload: &[u8]) -> (r: bytes::BytesMut)
    ensures
        buffer_bytes(r) == (Frame { tag: PASSWORD_MESSAGE_TAG, payload: payload@ }).encoded(),
{
    tagged_message(PASSWORD_MESSAGE_TAG, payload)
}

/// The value of an attribute in the items of a SCRAM message: what follows the key and an equals
/// sign in the first item that begins with them.
pub open spec fn attribute_in(items: Seq<Seq<char>>, key: char) -> Option<Seq<char>>
    decreases items.len(),
{
    if items.len() == 0 {
        None
    } else if has_prefix(items[0], seq![key, '=']) {
        Some(items[0].skip(2))
    } else {
        attribute_in(items.drop_first(), key)
    }
}

/// The value of an attribute in a SCRAM message.
pub open spec fn attribute_of(message: Seq<char>, key: char) -> Option<Seq<char>> {
    attribute_in(split_on(message, ','), key)
}

/// What is said of a SCRAM message without an attribute.
pub open spec fn missing_attribute(key: char) -> Seq<char> {
    "SCRAM message is missing "@ + seq![key] + " attribute"@
}

/// Finds an attribute in a SCRAM message.
pub fn scram_attribute(message: &str, key: char) -> (r: Result<String, String>)
    ensures
        match r {
            Ok(value) => attribute_of(message@, key) == Some(value@),
            Err(error) => attribute_of(message@, key) is None && error@ == missing_attribute(key),
        },
{
    let items = split(message, ',');
    let mut name = String::new();
    push_char(&mut name, key);
    assert(name@ =~= seq![key]);
    let mut prefix = name.clone();
    push_char(&mut prefix, '=');
    assert(prefix@ =~= seq![key, '=']);
    let mut i: usize = 0;
    assert(texts(items@).skip(0) =~= texts(items@));
    while i < items.len()
        invariant
            i <= items@.len(),
            prefix@ == seq![key, '='],
            texts(items@) == split_on(message@, ','),
            attribute_in(texts(items@).skip(i as int), key) == attribute_of(message@, key),
        decreases items@.len() - i,
    {
        let ghost rest = texts(items@).skip(i as int);
        assert(rest[0] == items@[i as int]@);
        assert(rest.drop_first() =~= texts(items@).skip(i + 1));
        if let Some(value) = strip_prefix(items[i].as_str(), prefix.as_str()) {
            return Ok(value);
        }
        i += 1;
    }
    assert(texts(items@).skip(i as int) =~= Seq::empty());
    Err(join3("SCRAM message is missing ", name.as_str(), " attribute"))
}

/// A character of a name as SCRAM writes it.
pub open spec fn escaped_char(c: char) -> Seq<char> {
    if c == '=' {
        seq!['=', '3', 'D']
    } else if c == ',' {
        seq!['=', '2', 'C']
    } else {
        seq![c]
    }
}

/// A name as SCRAM writes it: without commas, and with an equals sign only before a code.
pub open spec fn escaped(name: Seq<char>) -> Seq<char>
    decreases name.len(),
{
    if name.len() == 0 {
        Seq::empty()
    } else {
        escaped(name.drop_last()) + escaped_char(name.last())
    }
}

/// Writes a name for SCRAM.
pub fn scram_escape(value: &str) -> (r: String)
    ensures
        r@ == escaped(value@),
{
    let chars = crate::text::chars_of(value);
    let mut out = String::new();
    let mut i: usize = 0;
    while i < chars.len()
        invariant
            i <= chars@.len(),
            chars@ == value@,
            out@ == escaped(value@.take(i as int)),
        decreases chars@.len() - i,
    {
        let c = chars[i];
        if c == '=' {
            push_char(&mut out, '=');
            push_char(&mut out, '3');
            push_char(&mut out, 'D');
        } else if c == ',' {
            push_char(&mut out, '=');
            push_char(&mut out, '2');
            push_char(&mut out, 'C');
        } else {
            push_char(&mut out, c);
        }
        i += 1;
        proof {
            let now = value@.take(i as int);
            assert(now.drop_last() =~= value@.take(i - 1));
            assert(now.last() == c);
            assert(out@ =~= escaped(now.drop_last()) + escaped_char(c));
        }
    }
    assert(value@.take(i as int) =~= value@);
    out
}

/// The name that a SCRAM text writes, read from the left.
pub open spec fn unescaped(text: Seq<char>) -> Result<Seq<char>, Seq<char>>
    decreases text.len(),
{
    if text.len() == 0 {
        Ok(Seq::empty())
    } else if text[0] != '=' {
        match unescaped(text.skip(1)) {
            Ok(rest) => Ok(seq![text[0]] + rest),
            Err(error) => Err(error),
        }
    } else if text.len() < 3 {
        Err("SCRAM escape sequence is incomplete"@)
    } else {
        let code = if text[1] == '2' && text[2] == 'C' {
            Some(',')
        } else if text[1] == '3' && text[2] == 'D' {
            Some('=')
        } else {
            None
        };
        match (code, unescaped(text.skip(3))) {
            (None, _) => Err("SCRAM escape sequence is invalid"@),
            (Some(c), Ok(rest)) => Ok(seq![c] + rest),
            (Some(c), Err(error)) => Err(error),
        }
    }
}

/// Whether an exec result says what a spec result says.
pub open spec fn says(r: Result<String, String>, model: Result<Seq<char>, Seq<char>>) -> bool {
    match (r, model) {
        (Ok(value), Ok(expected)) => value@ == expected,
        (Err(error), Err(expected)) => error@ == expected,
        _ => false,
    }
}

/// Reads a name that SCRAM wrote.
pub fn scram_unescape(value: &str) -> (r: Result<String, String>)
    ensures
        says(r, unescaped(value@)),
{
    let chars = crate::text::chars_of(value);
    let mut out = String::new();
    let mut i: usize = 0;
    assert(value@.skip(0) =~= value@);
    assert(unescaped(value@) matches Ok(t) ==> out@ + t =~= t);
    while i < chars.len()
        invariant
            i <= chars@.len(),
            chars@ == value@,
            match unescaped(value@.skip(i as int)) {
                Ok(rest) => unescaped(value@) == Ok::<Seq<char>, Seq<char>>(out@ + rest),
                Err(error) => unescaped(value@) == Err::<Seq<char>, Seq<char>>(error),
            },
        decreases chars@.len() - i,
    {
        let ghost rest = value@.skip(i as int);
        let ghost before = out@;
        let c = chars[i];
        if c != '=' {
            push_char(&mut out, c);
            i += 1;
            proof {
                assert(rest.skip(1) =~= value@.skip(i as int));
                if let Ok(t) = unescaped(value@.skip(i as int)) {
                    assert(before + (seq![c] + t) =~= out@ + t);
                }
            }
        } else if chars.len() - i < 3 {
            return Err("SCRAM escape sequence is incomplete".to_owned());
        } else {
            let first = chars[i + 1];
            let second = chars[i + 2];
            let code = if first == '2' && second == 'C' {
                ','
            } else if first == '3' && second == 'D' {
                '='
            } else {
                return Err("SCRAM escape sequence is invalid".to_owned());
            };
            push_char(&mut out, code);
            i += 3;
            proof {
                assert(rest.skip(3) =~= value@.skip(i as int));
                if let Ok(t) = unescaped(value@.skip(i as int)) {
                    assert(before + (seq![code] + t) =~= out@ + t);
                }
            }
        }
    }
    assert(value@.skip(i as int) =~= Seq::empty());
    assert(out@ + Seq::<char>::empty() =~= out@);
    Ok(out)
}

proof fn lemma_unescape_prefix(name: Seq<char>, tail: Seq<char>)
    requires
        unescaped(tail) is Ok,
    ensures
        unescaped(escaped(name) + tail) == Ok::<Seq<char>, Seq<char>>(name + unescaped(tail)->Ok_0),
    decreases name.len(),
{
    if name.len() == 0 {
        assert(escaped(name) + tail =~= tail);
        assert(name + unescaped(tail)->Ok_0 =~= unescaped(tail)->Ok_0);
    } else {
        let c = name.last();
        let longer = escaped_char(c) + tail;
        if c == '=' || c == ',' {
            assert(longer.skip(3) =~= tail);
        } else {
            assert(longer.skip(1) =~= tail);
        }
        assert(unescaped(longer) == Ok::<Seq<char>, Seq<char>>(
            seq![c] + unescaped(tail)->Ok_0,
        ));
        lemma_unescape_prefix(name.drop_last(), longer);
        assert(escaped(name) + tail =~= escaped(name.drop_last()) + longer);
        assert(name + unescaped(tail)->Ok_0 =~= name.drop_last() + (seq![c]
            + unescaped(tail)->Ok_0));
    }
}

/// Every name survives being written for SCRAM and read back.
pub proof fn law_escape_round_trip(name: Seq<char>)
    ensures
        unescaped(escaped(name)) == Ok::<Seq<char>, Seq<char>>(name),
{
    lemma_unescape_prefix(name, Seq::empty());
    assert(escaped(name) + Seq::<char>::empty() =~= escaped(name));
    assert(name + Seq::<char>::empty() =~= name);
}

/// A name as SCRAM writes it holds no comma, so it never ends an attribute.
pub proof fn law_escaped_has_no_comma(name: Seq<char>)
    ensures
        !escaped(name).contains(','),
    decreases name.len(),
{
    if name.len() > 0 {
        law_escaped_has_no_comma(name.drop_last());
        assert forall|i: int| 0 <= i < escaped(name).len() implies escaped(name)[i] != ',' by {
            let front = escaped(name.drop_last());
            if i < front.len() {
                assert(escaped(name)[i] == front[i]);
                assert(front.contains(front[i]));
            } else {
                assert(escaped(name)[i] == escaped_char(name.last())[i - front.len()]);
            }
        }
    }
}

// ---------------------------------------------------------------------------
// The proxy as a client of its servers
// ---------------------------------------------------------------------------

/// The digest that MD5 authentication sends: of password and name, then of that digest's text
/// and the salt.
pub open spec fn md5_answer(user: Seq<char>, password: Seq<char>, salt: Seq<u8>) -> Seq<char> {
    salted_md5(hex_text(md5_of(utf8_bytes(password + user))), salt)
}

/// The digest of a stored digest's text and a salt, in hexadecimal.
pub open spec fn salted_md5(stored_hex: Seq<char>, salt: Seq<u8>) -> Seq<char> {
    hex_text(md5_of(utf8_bytes(stored_hex) + salt))
}

/// The first SCRAM message of a client, without its header.
pub open spec fn client_first_text(user: Seq<char>, nonce: Seq<char>) -> Seq<char> {
    "n="@ + escaped(user) + ",r="@ + nonce
}

/// The payload that offers SCRAM-SHA-256 and a first message.
pub open spec fn sasl_initial_payload(first: Seq<char>) -> Seq<u8> {
    utf8_bytes("SCRAM-SHA-256"@) + seq![0u8] + be_bytes4(utf8_bytes(first).len() as int)
        + utf8_bytes(first)
}

/// What a server's first SCRAM message asks for.
pub struct Challenge {
    pub nonce: Seq<char>,
    pub salt: Seq<u8>,
    pub iterations: u32,
    pub first_bare: Seq<char>,
}

/// What a server's first message asks for, or the first thing that is wrong with it.
/// `salt` is what decoding the salt attribute gives.
pub open spec fn read_challenge(
    server_first: Seq<char>,
    client_nonce: Seq<char>,
    salt: Option<Seq<u8>>,
    first_bare: Option<Seq<char>>,
) -> Result<Challenge, Seq<char>> {
    match attribute_of(server_first, 'r') {
        None => Err(missing_attribute('r')),
        Some(nonce) => if !has_prefix(nonce, client_nonce) {
            Err("SCRAM server nonce does not extend the client nonce"@)
        } else if attribute_of(server_first, 's') is None {
            Err(missing_attribute('s'))
        } else if salt is None {
            Err("decode SCRAM salt"@)
        } else {
            match attribute_of(server_first, 'i') {
                None => Err(missing_attribute('i')),
                Some(count) => match read_unsigned(count, u32::MAX as nat) {
                    Err(_) => Err("parse SCRAM iteration count"@),
                    Ok(iterations) => if iterations == 0 {
                        Err("SCRAM iteration count must be positive"@)
                    } else if first_bare is None {
                        Err("received SCRAM server-first before client-first"@)
                    } else {
                        Ok(
                            Challenge {
                                nonce,
                                salt: salt->Some_0,
                                iterations: iterations as u32,
                                first_bare: first_bare->Some_0,
                            },
                        )
                    },
                },
            }
        },
    }
}

/// The salt attribute's bytes, where there is such an attribute and it can be decoded.
pub open spec fn challenge_salt(server_first: Seq<char>) -> Option<Seq<u8>> {
    match attribute_of(server_first, 's') {
        Some(text) => base64_bytes(text),
        None => None,
    }
}

/// A server's first message, checked.
#[derive(Debug)]
pub struct ServerFirst {
    pub nonce: String,
    pub salt: Vec<u8>,
    pub iterations: u32,
    pub first_bare: String,
}

impl ServerFirst {
    /// The message as plain values.
    pub open spec fn facts(self) -> Challenge {
        Challenge {
            nonce: self.nonce@,
            salt: self.salt@,
            iterations: self.iterations,
            first_bare: self.first_bare@,
        }
    }
}

/// Checks a server's first message, given what decoding its salt attribute gave.
pub fn check_server_first(
    server_first: &str,
    client_nonce: &str,
    salt: Option<Vec<u8>>,
    first_bare: &Option<String>,
) -> (r: Result<ServerFirst, String>)
    ensures
        match (
            r,
            read_challenge(
                server_first@,
                client_nonce@,
                match salt {
                    Some(bytes) => Some(bytes@),
                    None => None,
                },
                opt_text(*first_bare),
            ),
        ) {
            (Ok(first), Ok(expected)) => first.facts() == expected,
            (Err(error), Err(expected)) => error@ == expected,
            _ => false,
        },
{
    let nonce = match scram_attribute(server_first, 'r') {
        Ok(value) => value,
        Err(error) => {
            return Err(error);
        },
    };
    if !starts_with(nonce.as_str(), client_nonce) {
        return Err("SCRAM server nonce does not extend the client nonce".to_owned());
    }
    if let Err(error) = scram_attribute(server_first, 's') {
        return Err(error);
    }
    let salt = match salt {
        Some(bytes) => bytes,
        None => {
            return Err("decode SCRAM salt".to_owned());
        },
    };
    let count = match scram_attribute(server_first, 'i') {
        Ok(value) => value,
        Err(error) => {
            return Err(error);
        },
    };
    let iterations: u32 = match parse_unsigned(count.as_str(), u32::MAX as u64) {
        Ok(n) => n as u32,
        Err(_) => {
            return Err("parse SCRAM iteration count".to_owned());
        },
    };
    if iterations == 0 {
        return Err("SCRAM iteration count must be positive".to_owned());
    }
    match first_bare {
        Some(bare) => Ok(ServerFirst { nonce, salt, iterations, first_bare: bare.clone() }),
        None => Err("received SCRAM server-first before client-first".to_owned()),
    }
}

/// A client's last message without its proof.
pub open spec fn final_without_proof(nonce: Seq<char>) -> Seq<char> {
    "c=biws,r="@ + nonce
}

/// What both sides sign: all messages but the proof.
pub open spec fn signed_text(
    first_bare: Seq<char>,
    server_first: Seq<char>,
    final_bare: Seq<char>,
) -> Seq<char> {
    first_bare + ","@ + server_first + ","@ + final_bare
}

/// The key that a password gives under a salt.
pub open spec fn salted_password(password: Seq<char>, salt: Seq<u8>, iterations: u32) -> Seq<u8> {
    pbkdf2_of(utf8_bytes(password), salt, iterations)
}

/// The key that a client proves to know.
pub open spec fn client_key_of(salted: Seq<u8>) -> Seq<u8> {
    hmac_of(salted, utf8_bytes("Client Key"@))
}

/// The key by which a server proves to know the password.
pub open spec fn server_key_of(salted: Seq<u8>) -> Seq<u8> {
    hmac_of(salted, utf8_bytes("Server Key"@))
}

/// A client's proof that it knows its key.
pub open spec fn proof_of(client_key: Seq<u8>, signed: Seq<char>) -> Seq<u8> {
    xor_seq(client_key, hmac_of(sha256_of(client_key), utf8_bytes(signed)))
}

/// What the proxy answers a challenge.
pub open spec fn challenge_reply(
    challenge: Challenge,
    password: Seq<char>,
    server_first: Seq<char>,
) -> Seq<char> {
    let final_bare = final_without_proof(challenge.nonce);
    let signed = signed_text(challenge.first_bare, server_first, final_bare);
    let salted = salted_password(password, challenge.salt, challenge.iterations);
    final_bare + ",p="@ + base64_text(proof_of(client_key_of(salted), signed))
}

/// The signature that the proxy then expects of the server.
pub open spec fn expected_signature(
    challenge: Challenge,
    password: Seq<char>,
    server_first: Seq<char>,
) -> Seq<u8> {
    let final_bare = final_without_proof(challenge.nonce);
    let signed = signed_text(challenge.first_bare, server_first, final_bare);
    let salted = salted_password(password, challenge.salt, challenge.iterations);
    hmac_of(server_key_of(salted), utf8_bytes(signed))
}

/// What is wrong with a server's last message, where `signature` is what decoding its signature
/// attribute gives, and `expected` the signature that was expected.
pub open spec fn server_final_complaint(
    server_final: Seq<char>,
    expected: Option<Seq<u8>>,
    signature: Option<Seq<u8>>,
) -> Option<Seq<char>> {
    if has_prefix(server_final, "e="@) {
        Some("backend rejected SCRAM authentication: "@ + server_final)
    } else if expected is None {
        Some("received SCRAM server-final before client-final"@)
    } else if attribute_of(server_final, 'v') is None {
        Some(missing_attribute('v'))
    } else if signature is None {
        Some("decode SCRAM server signature"@)
    } else if signature != expected {
        Some("backend SCRAM server signature mismatch"@)
    } else {
        None
    }
}

/// The bytes of the signature attribute, where there is one and it can be decoded.
pub open spec fn final_signature(server_final: Seq<char>) -> Option<Seq<u8>> {
    match attribute_of(server_final, 'v') {
        Some(text) => base64_bytes(text),
        None => None,
    }
}

/// The bytes of an optional vector.
pub open spec fn opt_bytes(value: Option<Vec<u8>>) -> Option<Seq<u8>> {
    match value {
        Some(bytes) => Some(bytes@),
        None => None,
    }
}

/// The bytes of an optional key.
pub open spec fn opt_key(value: Option<[u8; 32]>) -> Option<Seq<u8>> {
    match value {
        Some(key) => Some(key@),
        None => None,
    }
}

/// Checks a server's last message, given what decoding its signature attribute gave.
pub fn check_server_final(
    server_final: &str,
    expected: Option<[u8; 32]>,
    signature: Option<Vec<u8>>,
) -> (r: Result<(), String>)
    ensures
        crate::config::complaint(r) == server_final_complaint(
            server_final@,
            opt_key(expected),
            opt_bytes(signature),
        ),
{
    if starts_with(server_final, "e=") {
        return Err(join2("backend rejected SCRAM authentication: ", server_final));
    }
    let expected = match expected {
        Some(key) => key,
        None => {
            return Err("received SCRAM server-final before client-final".to_owned());
        },
    };
    if let Err(error) = scram_attribute(server_final, 'v') {
        return Err(error);
    }
    let actual = match signature {
        Some(bytes) => bytes,
        None => {
            return Err("decode SCRAM server signature".to_owned());
        },
    };
    if !constant_time_eq(actual.as_slice(), expected.as_slice()) {
        return Err("backend SCRAM server signature mismatch".to_owned());
    }
    Ok(())
}

/// One login of the proxy at a server.
pub struct BackendAuthSession {
    credentials: BackendCredentials,
    client_nonce: String,
    client_first_bare: Option<String>,
    expected_server_signature: Option<[u8; 32]>,
}

/// How far a login has come, as plain values.
pub struct LoginState {
    pub user: Seq<char>,
    pub password: Seq<char>,
    pub nonce: Seq<char>,
    pub first_bare: Option<Seq<char>>,
    pub signature: Option<Seq<u8>>,
}

impl View for BackendAuthSession {
    type V = LoginState;

    closed spec fn view(&self) -> LoginState {
        LoginState {
            user: self.credentials.user(),
            password: self.credentials.secret(),
            nonce: self.client_nonce@,
            first_bare: opt_text(self.client_first_bare),
            signature: opt_key(self.expected_server_signature),
        }
    }
}

/// A password message around a payload.
pub open spec fn password_frame(payload: Seq<u8>) -> Seq<u8> {
    (Frame { tag: PASSWORD_MESSAGE_TAG, payload }).encoded()
}

/// What a login answers a server's request, and how far it has come then.
pub struct LoginStep {
    pub reply: Result<Option<Seq<u8>>, Seq<char>>,
    pub state: LoginState,
}

/// The answer to each kind of request. The request starts with the number of its kind.
pub open spec fn login_step(state: LoginState, request: Seq<u8>, tls: bool) -> LoginStep {
    let code = be_at(request, 0);
    let body = utf8_text(request.skip(4));
    if request.len() < 4 {
        LoginStep { reply: Err("read backend authentication code"@), state }
    } else if code == 0 {
        LoginStep { reply: Ok(None), state }
    } else if code == 3 {
        if tls {
            LoginStep {
                reply: Ok(Some(password_frame(utf8_bytes(state.password) + seq![0u8]))),
                state,
            }
        } else {
            LoginStep { reply: Err("backend requested a cleartext password without TLS"@), state }
        }
    } else if code == 5 {
        if request.len() != 8 {
            LoginStep { reply: Err("MD5 authentication request has invalid length"@), state }
        } else {
            let text = "md5"@ + md5_answer(state.user, state.password, request.skip(4));
            LoginStep { reply: Ok(Some(password_frame(utf8_bytes(text) + seq![0u8]))), state }
        }
    } else if code == 10 {
        match body {
            None => LoginStep { reply: Err("parse SCRAM authentication mechanisms"@), state },
            Some(mechanisms) => if !split_on(mechanisms, '\0').contains("SCRAM-SHA-256"@) {
                LoginStep { reply: Err("backend does not support SCRAM-SHA-256"@), state }
            } else {
                let bare = client_first_text(state.user, state.nonce);
                LoginStep {
                    reply: Ok(Some(password_frame(sasl_initial_payload("n,,"@ + bare)))),
                    state: LoginState { first_bare: Some(bare), ..state },
                }
            },
        }
    } else if code == 11 {
        match body {
            None => LoginStep { reply: Err("parse SCRAM server-first message"@), state },
            Some(server_first) => match read_challenge(
                server_first,
                state.nonce,
                challenge_salt(server_first),
                state.first_bare,
            ) {
                Err(error) => LoginStep { reply: Err(error), state },
                Ok(challenge) => LoginStep {
                    reply: Ok(
                        Some(
                            password_frame(
                                utf8_bytes(
                                    challenge_reply(challenge, state.password, server_first),
                                ),
                            ),
                        ),
                    ),
                    state: LoginState {
                        signature: Some(
                            expected_signature(challenge, state.password, server_first),
                        ),
                        ..state
                    },
                },
            },
        }
    } else if code == 12 {
        match body {
            None => LoginStep { reply: Err("parse SCRAM server-final message"@), state },
            Some(server_final) => LoginStep {
                reply: match server_final_complaint(
                    server_final,
                    state.signature,
                    final_signature(server_final),
                ) {
                    None => Ok(None),
                    Some(error) => Err(error),
                },
                state: if has_prefix(server_final, "e="@) {
                    state
                } else {
                    LoginState { signature: None, ..state }
                },
            },
        }
    } else {
        LoginStep {
            reply: Err(
                "unsupported backend authentication request code "@ + crate::text::decimal_int(
                    code,
                ),
            ),
            state,
        }
    }
}

/// Whether a reply says what a step says.
pub open spec fn reply_says(
    r: Result<Option<bytes::BytesMut>, String>,
    model: Result<Option<Seq<u8>>, Seq<char>>,
) -> bool {
    match (r, model) {
        (Ok(Some(message)), Ok(Some(expected))) => buffer_bytes(message) == expected,
        (Ok(None), Ok(None)) => true,
        (Err(error), Err(expected)) => error@ == expected,
        _ => false,
    }
}

impl BackendAuthSession {
    /// A login that has not begun, with the client's share of the nonce.
    pub fn with_nonce(credentials: BackendCredentials, client_nonce: String) -> (r: BackendAuthSession)
        ensures
            r@ == (LoginState {
                user: credentials.user(),
                password: credentials.secret(),
                nonce: client_nonce@,
                first_bare: None,
                signature: None,
            }),
    {
        BackendAuthSession {
            credentials,
            client_nonce,
            client_first_bare: None,
            expected_server_signature: None,
        }
    }

    /// The signature that the server has to give, once it is known.
    pub fn expected_server_signature(&self) -> (r: Option<[u8; 32]>)
        ensures
            opt_key(r) == self@.signature,
    {
        self.expected_server_signature
    }

    /// Answers a server's request, as `login_step` says.
    pub fn respond(&mut self, request: &[u8], backend_is_tls: bool) -> (r: Result<
        Option<bytes::BytesMut>,
        String,
    >)
        ensures
            reply_says(r, login_step(old(self)@, request@, backend_is_tls).reply),
            final(self)@ == login_step(old(self)@, request@, backend_is_tls).state,
    {
        if request.len() < 4 {
            return Err("read backend authentication code".to_owned());
        }
        let code: i32 = read_be32(request, 0);
        let body = vstd::slice::slice_subrange(request, 4, request.len());
        assert(body@ =~= request@.skip(4));
        if code == 0 {
            Ok(None)
        } else if code == 3 {
            if !backend_is_tls {
                return Err("backend requested a cleartext password without TLS".to_owned());
            }
            let mut password = buffer_from(self.credentials.password().as_bytes());
            put_u8(&mut password, 0);
            assert(buffer_bytes(password) =~= utf8_bytes(self@.password) + seq![0u8]);
            Ok(Some(password_message(crate::buffer::buffer_slice(&password))))
        } else if code == 5 {
            if request.len() != 8 {
                return Err("MD5 authentication request has invalid length".to_owned());
            }
            Ok(Some(self.md5_response(body)))
        } else if code == 10 {
            let mechanisms = match text_from_utf8(body) {
                Some(text) => text,
                None => {
                    return Err("parse SCRAM authentication mechanisms".to_owned());
                },
            };
            self.scram_initial_response(mechanisms.as_str())
        } else if code == 11 {
            let server_first = match text_from_utf8(body) {
                Some(text) => text,
                None => {
                    return Err("parse SCRAM server-first message".to_owned());
                },
            };
            self.scram_final_response(server_first.as_str())
        } else if code == 12 {
            let server_final = match text_from_utf8(body) {
                Some(text) => text,
                None => {
                    return Err("parse SCRAM server-final message".to_owned());
                },
            };
            match self.verify_scram_server_final(server_final.as_str()) {
                Ok(()) => Ok(None),
                Err(error) => Err(error),
            }
        } else {
            let number = crate::text::i64_text(code as i64);
            Err(join2("unsupported backend authentication request code ", number.as_str()))
        }
    }

    fn md5_response(&self, salt: &[u8]) -> (r: bytes::BytesMut)
        ensures
            buffer_bytes(r) == password_frame(
                utf8_bytes("md5"@ + md5_answer(self@.user, self@.password, salt@)) + seq![0u8],
            ),
    {
        let identity = join2(self.credentials.password(), self.credentials.username());
        let first_digest = md5_digest(identity.as_str().as_bytes());
        let first = hex_lower(first_digest.as_slice());
        let second = salted_digest(first.as_str(), salt);
        let text = join2("md5", second.as_str());
        let mut response = buffer_from(text.as_str().as_bytes());
        put_u8(&mut response, 0);
        assert(buffer_bytes(response) =~= utf8_bytes(text@) + seq![0u8]);
        password_message(crate::buffer::buffer_slice(&response))
    }

    fn scram_initial_response(&mut self, mechanisms: &str) -> (r: Result<
        Option<bytes::BytesMut>,
        String,
    >)
        ensures
            split_on(mechanisms@, '\0').contains("SCRAM-SHA-256"@) ==> {
                let bare = client_first_text(old(self)@.user, old(self)@.nonce);
                &&& reply_says(
                    r,
                    Ok(Some(password_frame(sasl_initial_payload("n,,"@ + bare)))),
                )
                &&& final(self)@ == (LoginState { first_bare: Some(bare), ..old(self)@ })
            },
            !split_on(mechanisms@, '\0').contains("SCRAM-SHA-256"@) ==> {
                &&& reply_says(r, Err("backend does not support SCRAM-SHA-256"@))
                &&& final(self)@ == old(self)@
            },
    {
        let offered = split(mechanisms, '\0');
        if !crate::config::holds_text(&offered, "SCRAM-SHA-256") {
            return Err("backend does not support SCRAM-SHA-256".to_owned());
        }
        let escaped_name = scram_escape(self.credentials.username());
        let bare = join4("n=", escaped_name.as_str(), ",r=", self.client_nonce.as_str());
        let first = join2("n,,", bare.as_str());
        let mut payload = new_buffer();
        put_bytes(&mut payload, "SCRAM-SHA-256".as_bytes());
        put_u8(&mut payload, 0);
        let first_bytes = first.as_str().as_bytes();
        put_i32(&mut payload, wrap_i32(first_bytes.len() as u128));
        put_bytes(&mut payload, first_bytes);
        proof {
            crate::wire::lemma_wrapped_field(first_bytes@.len() as int);
            assert(buffer_bytes(payload) =~= sasl_initial_payload(first@));
        }
        self.client_first_bare = Some(bare);
        Ok(Some(password_message(crate::buffer::buffer_slice(&payload))))
    }

    fn scram_final_response(&mut self, server_first: &str) -> (r: Result<
        Option<bytes::BytesMut>,
        String,
    >)
        ensures
            match read_challenge(
                server_first@,
                old(self)@.nonce,
                challenge_salt(server_first@),
                old(self)@.first_bare,
            ) {
                Err(error) => reply_says(r, Err(error)) && final(self)@ == old(self)@,
                Ok(challenge) => {
                    &&& reply_says(
                        r,
                        Ok(
                            Some(
                                password_frame(
                                    utf8_bytes(
                                        challenge_reply(
                                            challenge,
                                            old(self)@.password,
                                            server_first@,
                                        ),
                                    ),
                                ),
                            ),
                        ),
                    )
                    &&& final(self)@ == (LoginState {
                        signature: Some(
                            expected_signature(challenge, old(self)@.password, server_first@),
                        ),
                        ..old(self)@
                    })
                },
            },
    {
        let salt = match scram_attribute(server_first, 's') {
            Ok(text) => base64_decode(text.as_str()),
            Err(_) => None,
        };
        let first = match check_server_first(
            server_first,
            self.client_nonce.as_str(),
            salt,
            &self.client_first_bare,
        ) {
            Ok(first) => first,
            Err(error) => {
                return Err(error);
            },
        };
        let final_bare = join2("c=biws,r=", first.nonce.as_str());
        let signed = join5(
            first.first_bare.as_str(),
            ",",
            server_first,
            ",",
            final_bare.as_str(),
        );
        let signed_bytes = signed.as_str().as_bytes();
        let salted = pbkdf2_sha256(
            self.credentials.password().as_bytes(),
            first.salt.as_slice(),
            first.iterations,
        );
        let client_key = hmac_sha256(salted.as_slice(), "Client Key".as_bytes());
        let stored_key = sha256_digest(client_key.as_slice());
        let client_signature = hmac_sha256(stored_key.as_slice(), signed_bytes);
        let client_proof = xor_bytes(client_key.as_slice(), client_signature.as_slice());
        let server_key = hmac_sha256(salted.as_slice(), "Server Key".as_bytes());
        let signature = hmac_sha256(server_key.as_slice(), signed_bytes);
        self.expected_server_signature = Some(signature);
        let proof_text = base64_encode(client_proof.as_slice());
        let client_final = join3(final_bare.as_str(), ",p=", proof_text.as_str());
        Ok(Some(password_message(client_final.as_str().as_bytes())))
    }

    fn verify_scram_server_final(&mut self, server_final: &str) -> (r: Result<(), String>)
        ensures
            crate::config::complaint(r) == server_final_complaint(
                server_final@,
                old(self)@.signature,
                final_signature(server_final@),
            ),
            final(self)@ == if has_prefix(server_final@, "e="@) {
                old(self)@
            } else {
                LoginState { signature: None, ..old(self)@ }
            },
    {
        if starts_with(server_final, "e=") {
            return check_server_final(server_final, self.expected_server_signature, None);
        }
        let expected = self.expected_server_signature;
        self.expected_server_signature = None;
        let signature = match scram_attribute(server_final, 'v') {
            Ok(text) => base64_decode(text.as_str()),
            Err(_) => None,
        };
        check_server_final(server_final, expected, signature)
    }
}

/// The digest of a stored digest's text and a salt, in hexadecimal.
fn salted_digest(stored_hex: &str, salt: &[u8]) -> (r: String)
    ensures
        r@ == salted_md5(stored_hex@, salt@),
{
    let mut input = new_buffer();
    put_bytes(&mut input, stored_hex.as_bytes());
    put_bytes(&mut input, salt);
    assert(buffer_bytes(input) =~= utf8_bytes(stored_hex@) + salt@);
    let digest = md5_digest(crate::buffer::buffer_slice(&input));
    hex_lower(digest.as_slice())
}

/// A cleartext password is never sent over a connection without TLS.
pub proof fn law_cleartext_needs_tls(state: LoginState, request: Seq<u8>)
    requires
        request.len() >= 4,
        be_at(request, 0) == 3,
    ensures
        login_step(state, request, false).reply is Err,
        login_step(state, request, false).state == state,
{
}

/// A login that was refused an answer stays as it was, unless it was the server's signature that
/// failed, which is not waited for again.
pub proof fn law_failed_step_keeps_state(state: LoginState, request: Seq<u8>, tls: bool)
    requires
        login_step(state, request, tls).reply is Err,
        request.len() < 4 || be_at(request, 0) != 12,
    ensures
        login_step(state, request, tls).state == state,
{
}

/// The signature that was expected is accepted once; the same message is refused the second
/// time.
pub proof fn law_signature_accepted_once(state: LoginState, request: Seq<u8>, tls: bool)
    requires
        request.len() >= 4,
        be_at(request, 0) == 12,
        utf8_text(request.skip(4)) is Some,
        ({
            let server_final = utf8_text(request.skip(4))->Some_0;
            &&& !has_prefix(server_final, "e="@)
            &&& state.signature is Some
            &&& final_signature(server_final) == state.signature
        }),
    ensures
        login_step(state, request, tls).reply == Ok::<Option<Seq<u8>>, Seq<char>>(None),
        login_step(login_step(state, request, tls).state, request, tls).reply is Err,
{
}

// ---------------------------------------------------------------------------
// The proxy as a server of its clients
// ---------------------------------------------------------------------------

/// How a client's login ended.
#[derive(Clone, Copy, Debug, PartialEq, Eq, Structural)]
pub enum ClientAuthOutcome {
    PassThrough,
    Authenticated,
    Rejected,
}

/// What a refused client is told.
pub open spec fn rejection_text(
    mode: AuthFailureMessageMode,
    username: Seq<char>,
    reason: Seq<char>,
) -> Seq<char> {
    match mode {
        AuthFailureMessageMode::Generic => "password authentication failed"@,
        AuthFailureMessageMode::Detailed => "password authentication failed for user "@ + username
            + ": "@ + reason,
    }
}

/// What a refused client is told: only that it was refused, or by name and with the reason.
pub fn rejection_message(mode: AuthFailureMessageMode, username: &str, reason: &str) -> (r: String)
    ensures
        r@ == rejection_text(mode, username@, reason@),
{
    match mode {
        AuthFailureMessageMode::Generic => "password authentication failed".to_owned(),
        AuthFailureMessageMode::Detailed => join4(
            "password authentication failed for user ",
            username,
            ": ",
            reason,
        ),
    }
}

/// The generic refusal tells nothing of who was refused or why.
pub proof fn law_generic_refusal_tells_nothing(
    user_a: Seq<char>,
    user_b: Seq<char>,
    reason_a: Seq<char>,
    reason_b: Seq<char>,
)
    ensures
        rejection_text(AuthFailureMessageMode::Generic, user_a, reason_a) == rejection_text(
            AuthFailureMessageMode::Generic,
            user_b,
            reason_b,
        ),
{
}

/// How a client's login goes on from its name alone.
pub enum AuthStart<'a> {
    /// The client's messages go to the server as they are.
    PassThrough,
    /// The client is let in.
    Authenticated,
    /// The client is refused with this message.
    Rejected { message: String },
    /// The client has to prove that it knows the password of this verifier.
    Scram { verifier: &'a ScramVerifier },
    /// The client has to prove that it knows the password of this digest.
    Md5 { secret: &'a Md5Secret },
}

/// Decides how a client's login goes on: by the mode, and by what is known of the user.
pub fn authenticate_client<'a>(username: &str, auth: &AuthConfig, users: &'a UserStore) -> (r:
    AuthStart<'a>)
    ensures
        ({
            let known = users@.contains_key(username@);
            let secret = users@[username@];
            let mode = auth.auth_failure_message_mode;
            match auth.auth_mode {
                AuthMode::PassThrough => r is PassThrough,
                AuthMode::Trust => if !known {
                    r matches AuthStart::Rejected { message } && message@ == rejection_text(
                        mode,
                        username@,
                        "unknown user"@,
                    )
                } else if secret is Trust {
                    r is Authenticated
                } else {
                    r matches AuthStart::Rejected { message } && message@ == rejection_text(
                        mode,
                        username@,
                        "password required"@,
                    )
                },
                AuthMode::ScramSha256 => if known && secret is Scram {
                    r matches AuthStart::Scram { verifier } && verifier@ == secret->Scram_0
                } else {
                    r matches AuthStart::Rejected { message } && message@ == rejection_text(
                        mode,
                        username@,
                        "unknown user"@,
                    )
                },
                AuthMode::Md5 => if known && secret is Md5 {
                    r matches AuthStart::Md5 { secret: digest } && digest@ == secret->Md5_0
                } else {
                    r matches AuthStart::Rejected { message } && message@ == rejection_text(
                        mode,
                        username@,
                        "unknown user"@,
                    )
                },
            }
        }),
        r is PassThrough <==> auth.auth_mode is PassThrough,
        r is Authenticated <==> auth.auth_mode is Trust && users@.contains_key(username@)
            && users@[username@] is Trust,
        r is Scram <==> auth.auth_mode is ScramSha256 && users@.contains_key(username@)
            && users@[username@] is Scram,
        r is Md5 <==> auth.auth_mode is Md5 && users@.contains_key(username@) && users@[username@]
            is Md5,
{
    let mode = auth.auth_failure_message_mode;
    match auth.auth_mode {
        AuthMode::PassThrough => AuthStart::PassThrough,
        AuthMode::Trust => match users.get(username) {
            Some(UserSecret::Trust) => AuthStart::Authenticated,
            Some(_) => AuthStart::Rejected {
                message: rejection_message(mode, username, "password required"),
            },
            None => AuthStart::Rejected {
                message: rejection_message(mode, username, "unknown user"),
            },
        },
        AuthMode::ScramSha256 => match users.get(username) {
            Some(UserSecret::ScramSha256(verifier)) => AuthStart::Scram { verifier },
            _ => AuthStart::Rejected { message: rejection_message(mode, username, "unknown user") },
        },
        AuthMode::Md5 => match users.get(username) {
            Some(UserSecret::Md5(secret)) => AuthStart::Md5 { secret },
            _ => AuthStart::Rejected { message: rejection_message(mode, username, "unknown user") },
        },
    }
}

/// A tag in hexadecimal, as an error names it.
pub open spec fn tag_text(tag: u8) -> Seq<char> {
    "0x"@ + hex_text(seq![tag])
}

/// The payload of a frame by which a client proves who it is.
pub fn parse_password_frame(frame: &FrontendFrame) -> (r: Result<&[u8], String>)
    ensures
        match r {
            Ok(payload) => frame@.tag == PASSWORD_MESSAGE_TAG && payload@ == frame@.payload,
            Err(error) => frame@.tag != PASSWORD_MESSAGE_TAG && error@
                == "unexpected frontend authentication message tag "@ + tag_text(frame@.tag),
        },
{
    if frame.tag != PASSWORD_MESSAGE_TAG {
        let mut tags: Vec<u8> = Vec::new();
        tags.push(frame.tag);
        assert(tags@ =~= seq![frame.tag]);
        let hex = join2("0x", hex_lower(tags.as_slice()).as_str());
        return Err(join2("unexpected frontend authentication message tag ", hex.as_str()));
    }
    Ok(frozen_slice(&frame.payload))
}

/// The mechanism and first message in a client's first SASL payload, or the first thing that is
/// wrong with it.
pub open spec fn read_sasl_initial(payload: Seq<u8>) -> Result<(Seq<char>, Seq<char>), Seq<char>> {
    let end = zero_at(payload);
    if end >= payload.len() {
        Err("read SCRAM cstring terminator"@)
    } else if utf8_text(payload.take(end)) is None {
        Err("parse SCRAM cstring"@)
    } else if payload.len() < end + 5 {
        Err("read SCRAM initial response length"@)
    } else if be_at(payload, end + 1) < 0 {
        Err("SCRAM initial response length is invalid"@)
    } else {
        let start = end + 5;
        let length = be_at(payload, end + 1);
        if payload.len() < start + length {
            Err("SCRAM initial response is incomplete"@)
        } else if utf8_text(payload.subrange(start, start + length)) is None {
            Err("parse SCRAM initial response"@)
        } else {
            Ok(
                (
                    utf8_text(payload.take(end))->Some_0,
                    utf8_text(payload.subrange(start, start + length))->Some_0,
                ),
            )
        }
    }
}

/// Whether a pair says what a spec result says.
pub open spec fn pair_says(
    r: Result<(String, String), String>,
    model: Result<(Seq<char>, Seq<char>), Seq<char>>,
) -> bool {
    match (r, model) {
        (Ok((a, b)), Ok((x, y))) => a@ == x && b@ == y,
        (Err(error), Err(expected)) => error@ == expected,
        _ => false,
    }
}

/// Reads a client's first SASL payload.
pub fn parse_scram_initial_response(payload: &[u8]) -> (r: Result<(String, String), String>)
    ensures
        pair_says(r, read_sasl_initial(payload@)),
{
    let end = find_zero(payload);
    if end >= payload.len() {
        return Err("read SCRAM cstring terminator".to_owned());
    }
    let head = vstd::slice::slice_subrange(payload, 0, end);
    assert(head@ =~= payload@.take(end as int));
    let mechanism = match text_from_utf8(head) {
        Some(text) => text,
        None => {
            return Err("parse SCRAM cstring".to_owned());
        },
    };
    if payload.len() - end < 5 {
        return Err("read SCRAM initial response length".to_owned());
    }
    let length: i32 = read_be32(payload, end + 1);
    if length < 0 {
        return Err("SCRAM initial response length is invalid".to_owned());
    }
    let start: usize = end + 5;
    if payload.len() - start < length as usize {
        return Err("SCRAM initial response is incomplete".to_owned());
    }
    let body = vstd::slice::slice_subrange(payload, start, start + length as usize);
    match text_from_utf8(body) {
        Some(text) => Ok((mechanism, text)),
        None => Err("parse SCRAM initial response".to_owned()),
    }
}

/// The name and nonce among the items of a client's first message, or the first thing that is
/// wrong with an item. A later item takes the place of an earlier one.
pub open spec fn client_first_items(items: Seq<Seq<char>>) -> Result<
    (Option<Seq<char>>, Option<Seq<char>>),
    Seq<char>,
>
    decreases items.len(),
{
    if items.len() == 0 {
        Ok((None, None))
    } else {
        match client_first_items(items.drop_last()) {
            Err(error) => Err(error),
            Ok((name, nonce)) => match split_once_on(items.last(), '=') {
                None => Err("SCRAM client first item is malformed"@),
                Some((key, value)) => if key == "n"@ {
                    match unescaped(value) {
                        Ok(text) => Ok((Some(text), nonce)),
                        Err(error) => Err(error),
                    }
                } else if key == "r"@ {
                    Ok((name, Some(value)))
                } else {
                    Ok((name, nonce))
                },
            },
        }
    }
}

proof fn lemma_client_first_error_stays(items: Seq<Seq<char>>, k: int)
    requires
        0 <= k <= items.len(),
        client_first_items(items.take(k)) is Err,
    ensures
        client_first_items(items) == client_first_items(items.take(k)),
    decreases items.len() - k,
{
    if k < items.len() {
        assert(items.take(k + 1).drop_last() =~= items.take(k));
        lemma_client_first_error_stays(items, k + 1);
    } else {
        assert(items.take(k) =~= items);
    }
}

/// A client's first message as plain values.
pub struct ClientFirst {
    pub bare: Seq<char>,
    pub name: Seq<char>,
    pub nonce: Seq<char>,
}

/// What a client's first message says, or the first thing that is wrong with it.
pub open spec fn read_client_first(message: Seq<char>) -> Result<ClientFirst, Seq<char>> {
    if !has_prefix(message, "n,,"@) {
        Err("SCRAM client first message is malformed"@)
    } else {
        let bare = message.skip("n,,"@.len() as int);
        match client_first_items(split_on(bare, ',')) {
            Err(error) => Err(error),
            Ok((None, _)) => Err("SCRAM client first message is missing username"@),
            Ok((Some(_), None)) => Err("SCRAM client first message is missing nonce"@),
            Ok((Some(name), Some(nonce))) => Ok(ClientFirst { bare, name, nonce }),
        }
    }
}

/// Reads a client's first message: the message without its header, the name and the nonce.
pub fn parse_scram_client_first(message: &str) -> (r: Result<(String, String, String), String>)
    ensures
        match (r, read_client_first(message@)) {
            (Ok((bare, name, nonce)), Ok(first)) => bare@ == first.bare && name@ == first.name
                && nonce@ == first.nonce,
            (Err(error), Err(expected)) => error@ == expected,
            _ => false,
        },
{
    let bare = match strip_prefix(message, "n,,") {
        Some(bare) => bare,
        None => {
            return Err("SCRAM client first message is malformed".to_owned());
        },
    };
    let items = split(bare.as_str(), ',');
    let ghost model = texts(items@);
    let mut name: Option<String> = None;
    let mut nonce: Option<String> = None;
    let mut i: usize = 0;
    assert(model.take(0) =~= Seq::empty());
    while i < items.len()
        invariant
            i <= items@.len(),
            model == texts(items@),
            has_prefix(message@, "n,,"@),
            model == split_on(message@.skip("n,,"@.len() as int), ','),
            client_first_items(model.take(i as int)) == Ok::<
                (Option<Seq<char>>, Option<Seq<char>>),
                Seq<char>,
            >((opt_text(name), opt_text(nonce))),
        decreases items@.len() - i,
    {
        let ghost upto = model.take(i + 1);
        assert(upto.drop_last() =~= model.take(i as int));
        assert(upto.last() == items@[i as int]@);
        let (key, value) = match split_once(items[i].as_str(), '=') {
            Some(pair) => pair,
            None => {
                proof {
                    lemma_client_first_error_stays(model, i + 1);
                }
                return Err("SCRAM client first item is malformed".to_owned());
            },
        };
        if same_text(key.as_str(), "n") {
            match scram_unescape(value.as_str()) {
                Ok(text) => {
                    name = Some(text);
                },
                Err(error) => {
                    proof {
                        lemma_client_first_error_stays(model, i + 1);
                    }
                    return Err(error);
                },
            }
        } else if same_text(key.as_str(), "r") {
            nonce = Some(value);
        }
        i += 1;
    }
    assert(model.take(i as int) =~= model);
    match (name, nonce) {
        (None, _) => Err("SCRAM client first message is missing username".to_owned()),
        (Some(_), None) => Err("SCRAM client first message is missing nonce".to_owned()),
        (Some(name), Some(nonce)) => Ok((bare, name, nonce)),
    }
}

/// The attributes of a client's last message.
pub struct ClientFinalParts {
    pub binding: Option<Seq<char>>,
    pub nonce: Option<Seq<char>>,
    pub proof_text: Option<Seq<char>>,
}

/// The attributes among the items of a client's last message. A later item takes the place of an
/// earlier one.
pub open spec fn client_final_items(items: Seq<Seq<char>>) -> Result<ClientFinalParts, Seq<char>>
    decreases items.len(),
{
    if items.len() == 0 {
        Ok(ClientFinalParts { binding: None, nonce: None, proof_text: None })
    } else {
        match client_final_items(items.drop_last()) {
            Err(error) => Err(error),
            Ok(parts) => match split_once_on(items.last(), '=') {
                None => Err("SCRAM client final item is malformed"@),
                Some((key, value)) => if key == "c"@ {
                    Ok(ClientFinalParts { binding: Some(value), ..parts })
                } else if key == "r"@ {
                    Ok(ClientFinalParts { nonce: Some(value), ..parts })
                } else if key == "p"@ {
                    Ok(ClientFinalParts { proof_text: Some(value), ..parts })
                } else {
                    Ok(parts)
                },
            },
        }
    }
}

proof fn lemma_client_final_error_stays(items: Seq<Seq<char>>, k: int)
    requires
        0 <= k <= items.len(),
        client_final_items(items.take(k)) is Err,
    ensures
        client_final_items(items) == client_final_items(items.take(k)),
    decreases items.len() - k,
{
    if k < items.len() {
        assert(items.take(k + 1).drop_last() =~= items.take(k));
        lemma_client_final_error_stays(items, k + 1);
    } else {
        assert(items.take(k) =~= items);
    }
}

/// A client's last message as plain values.
pub struct ClientFinal {
    pub binding: Seq<char>,
    pub nonce: Seq<char>,
    pub proof_text: Seq<char>,
}

/// What a client's last message says, or the first thing that is wrong with it.
pub open spec fn read_client_final(message: Seq<char>) -> Result<ClientFinal, Seq<char>> {
    match client_final_items(split_on(message, ',')) {
        Err(error) => Err(error),
        Ok(parts) => if parts.binding is None {
            Err("SCRAM client final message is missing channel binding"@)
        } else if parts.nonce is None {
            Err("SCRAM client final message is missing nonce"@)
        } else if parts.proof_text is None {
            Err("SCRAM client final message is missing proof"@)
        } else {
            Ok(
                ClientFinal {
                    binding: parts.binding->Some_0,
                    nonce: parts.nonce->Some_0,
                    proof_text: parts.proof_text->Some_0,
                },
            )
        },
    }
}

/// Reads a client's last message: the channel binding, the nonce and the proof.
pub fn parse_scram_client_final(message: &str) -> (r: Result<(String, String, String), String>)
    ensures
        match (r, read_client_final(message@)) {
            (Ok((binding, nonce, text)), Ok(expected)) => binding@ == expected.binding && nonce@
                == expected.nonce && text@ == expected.proof_text,
            (Err(error), Err(expected)) => error@ == expected,
            _ => false,
        },
{
    let items = split(message, ',');
    let ghost model = texts(items@);
    let mut binding: Option<String> = None;
    let mut nonce: Option<String> = None;
    let mut proof_text: Option<String> = None;
    let mut i: usize = 0;
    assert(model.take(0) =~= Seq::empty());
    while i < items.len()
        invariant
            i <= items@.len(),
            model == texts(items@),
            model == split_on(message@, ','),
            client_final_items(model.take(i as int)) == Ok::<ClientFinalParts, Seq<char>>(
                ClientFinalParts {
                    binding: opt_text(binding),
                    nonce: opt_text(nonce),
                    proof_text: opt_text(proof_text),
                },
            ),
        decreases items@.len() - i,
    {
        let ghost upto = model.take(i + 1);
        assert(upto.drop_last() =~= model.take(i as int));
        assert(upto.last() == items@[i as int]@);
        let (key, value) = match split_once(items[i].as_str(), '=') {
            Some(pair) => pair,
            None => {
                proof {
                    lemma_client_final_error_stays(model, i + 1);
                }
                return Err("SCRAM client final item is malformed".to_owned());
            },
        };
        if same_text(key.as_str(), "c") {
            binding = Some(value);
        } else if same_text(key.as_str(), "r") {
            nonce = Some(value);
        } else if same_text(key.as_str(), "p") {
            proof_text = Some(value);
        }
        i += 1;
    }
    assert(model.take(i as int) =~= model);
    match (binding, nonce, proof_text) {
        (None, _, _) => Err("SCRAM client final message is missing channel binding".to_owned()),
        (Some(_), None, _) => Err("SCRAM client final message is missing nonce".to_owned()),
        (Some(_), Some(_), None) => Err("SCRAM client final message is missing proof".to_owned()),
        (Some(binding), Some(nonce), Some(text)) => Ok((binding, nonce, text)),
    }
}

/// Whether a proof shows that the client knows the key whose digest is stored.
pub open spec fn proof_accepted(
    stored_key: Seq<u8>,
    signed: Seq<char>,
    client_proof: Option<Seq<u8>>,
) -> bool {
    match client_proof {
        None => false,
        Some(bytes) => bytes.len() == 32 && sha256_of(
            xor_seq(bytes, hmac_of(stored_key, utf8_bytes(signed))),
        ) == stored_key,
    }
}

/// Checks a client's proof, given what decoding its text gave.
pub fn check_scram_proof(
    verifier: &ScramVerifier,
    auth_message: &str,
    client_proof: Option<Vec<u8>>,
) -> (r: Result<(), String>)
    ensures
        r is Ok <==> proof_accepted(verifier@.stored_key, auth_message@, opt_bytes(client_proof)),
        r matches Err(error) ==> error@ == (match client_proof {
            None => "decode SCRAM client proof"@,
            Some(bytes) => if bytes@.len() != 32 {
                "SCRAM client proof has invalid length"@
            } else {
                "SCRAM proof verification failed"@
            },
        }),
{
    let client_proof = match client_proof {
        Some(bytes) => bytes,
        None => {
            return Err("decode SCRAM client proof".to_owned());
        },
    };
    if client_proof.len() != 32 {
        return Err("SCRAM client proof has invalid length".to_owned());
    }
    let signature = hmac_sha256(verifier.stored_key.as_slice(), auth_message.as_bytes());
    let client_key = xor_bytes(client_proof.as_slice(), signature.as_slice());
    let derived = sha256_digest(client_key.as_slice());
    if constant_time_eq(derived.as_slice(), verifier.stored_key.as_slice()) {
        Ok(())
    } else {
        Err("SCRAM proof verification failed".to_owned())
    }
}

/// Checks the text of a client's proof.
pub fn verify_scram_proof(
    verifier: &ScramVerifier,
    auth_message: &str,
    client_proof_b64: &str,
) -> (r: Result<(), String>)
    ensures
        r is Ok <==> proof_accepted(
            verifier@.stored_key,
            auth_message@,
            base64_bytes(client_proof_b64@),
        ),
        r matches Err(error) ==> error@ == (match base64_bytes(client_proof_b64@) {
            None => "decode SCRAM client proof"@,
            Some(bytes) => if bytes.len() != 32 {
                "SCRAM client proof has invalid length"@
            } else {
                "SCRAM proof verification failed"@
            },
        }),
{
    check_scram_proof(verifier, auth_message, base64_decode(client_proof_b64))
}

/// The signature by which the proxy shows a client that it knows the password's verifier.
pub fn scram_server_signature(verifier: &ScramVerifier, auth_message: &str) -> (r: [u8; 32])
    ensures
        r@ == hmac_of(verifier@.server_key, utf8_bytes(auth_message@)),
{
    hmac_sha256(verifier.server_key.as_slice(), auth_message.as_bytes())
}

/// The proxy's first message to a client.
pub open spec fn server_first_text(
    client_nonce: Seq<char>,
    server_nonce: Seq<char>,
    salt: Seq<u8>,
    iterations: u32,
) -> Seq<char> {
    "r="@ + client_nonce + server_nonce + ",s="@ + base64_text(salt) + ",i="@ + decimal(
        iterations as nat,
    )
}

/// A client's login after the proxy's first message.
pub struct ScramExchange {
    client_first_bare: String,
    client_nonce: String,
    server_nonce: String,
    server_first: String,
}

/// A login after the proxy's first message, as plain values.
pub struct ExchangeState {
    pub first_bare: Seq<char>,
    pub client_nonce: Seq<char>,
    pub server_nonce: Seq<char>,
    pub server_first: Seq<char>,
}

impl View for ScramExchange {
    type V = ExchangeState;

    closed spec fn view(&self) -> ExchangeState {
        ExchangeState {
            first_bare: self.client_first_bare@,
            client_nonce: self.client_nonce@,
            server_nonce: self.server_nonce@,
            server_first: self.server_first@,
        }
    }
}

/// The login after a client's first frame, or the first thing that is wrong with the frame.
pub open spec fn scram_opening(
    frame: Frame,
    username: Seq<char>,
    server_nonce: Seq<char>,
    verifier: ScramFacts,
) -> Result<ExchangeState, Seq<char>> {
    if frame.tag != PASSWORD_MESSAGE_TAG {
        Err("unexpected frontend authentication message tag "@ + tag_text(frame.tag))
    } else {
        match read_sasl_initial(frame.payload) {
            Err(error) => Err(error),
            Ok((mechanism, message)) => if mechanism != "SCRAM-SHA-256"@ {
                Err("unsupported SCRAM mechanism "@ + mechanism)
            } else {
                match read_client_first(message) {
                    Err(error) => Err(error),
                    Ok(first) => if first.name != username {
                        Err("SCRAM client username does not match startup user"@)
                    } else {
                        Ok(
                            ExchangeState {
                                first_bare: first.bare,
                                client_nonce: first.nonce,
                                server_nonce,
                                server_first: server_first_text(
                                    first.nonce,
                                    server_nonce,
                                    verifier.salt,
                                    verifier.iterations,
                                ),
                            },
                        )
                    },
                }
            },
        }
    }
}

/// How a SCRAM login ends.
pub enum ScramVerdict {
    /// The client is let in, and is sent this message first.
    Accepted { server_final: String },
    /// The client is refused with this message.
    Rejected { message: String },
}

/// How a SCRAM login ends, as plain values.
pub enum VerdictFacts {
    Accepted(Seq<char>),
    Rejected(Seq<char>),
}

impl View for ScramVerdict {
    type V = VerdictFacts;

    open spec fn view(&self) -> VerdictFacts {
        match self {
            ScramVerdict::Accepted { server_final } => VerdictFacts::Accepted(server_final@),
            ScramVerdict::Rejected { message } => VerdictFacts::Rejected(message@),
        }
    }
}

/// How a login ends with a client's last frame, or the first thing that is wrong with the frame.
/// `decoded` is what decoding the proof gives.
pub open spec fn scram_closing(
    state: ExchangeState,
    frame: Frame,
    username: Seq<char>,
    mode: AuthFailureMessageMode,
    verifier: ScramFacts,
    decoded: Option<Seq<u8>>,
) -> Result<VerdictFacts, Seq<char>> {
    if frame.tag != PASSWORD_MESSAGE_TAG {
        Err("unexpected frontend authentication message tag "@ + tag_text(frame.tag))
    } else {
        match utf8_text(frame.payload) {
            None => Err("parse SCRAM final response"@),
            Some(message) => match read_client_final(message) {
                Err(error) => Err(error),
                Ok(last) => if last.binding != "biws"@ {
                    Err("unsupported SCRAM channel binding"@)
                } else if last.nonce != state.client_nonce + state.server_nonce {
                    Err("SCRAM nonce mismatch"@)
                } else {
                    let signed = signed_text(
                        state.first_bare,
                        state.server_first,
                        final_without_proof(last.nonce),
                    );
                    if proof_accepted(verifier.stored_key, signed, decoded) {
                        Ok(
                            VerdictFacts::Accepted(
                                "v="@ + base64_text(
                                    hmac_of(verifier.server_key, utf8_bytes(signed)),
                                ),
                            ),
                        )
                    } else {
                        Ok(
                            VerdictFacts::Rejected(
                                rejection_text(mode, username, "invalid password"@),
                            ),
                        )
                    }
                },
            },
        }
    }
}

/// The bytes of the proof in a client's last frame, where there is one and it can be decoded.
pub open spec fn final_proof(frame: Frame) -> Option<Seq<u8>> {
    match utf8_text(frame.payload) {
        None => None,
        Some(message) => match read_client_final(message) {
            Ok(last) => base64_bytes(last.proof_text),
            Err(_) => None,
        },
    }
}

impl ScramExchange {
    /// Reads a client's first frame and answers it. `server_nonce` is the proxy's share of the
    /// nonce.
    pub fn open(
        frame: &FrontendFrame,
        username: &str,
        server_nonce: String,
        verifier: &ScramVerifier,
    ) -> (r: Result<ScramExchange, String>)
        ensures
            match (r, scram_opening(frame@, username@, server_nonce@, verifier@)) {
                (Ok(exchange), Ok(expected)) => exchange@ == expected,
                (Err(error), Err(expected)) => error@ == expected,
                _ => false,
            },
    {
        let payload = match parse_password_frame(frame) {
            Ok(payload) => payload,
            Err(error) => {
                return Err(error);
            },
        };
        let (mechanism, message) = match parse_scram_initial_response(payload) {
            Ok(pair) => pair,
            Err(error) => {
                return Err(error);
            },
        };
        if !same_text(mechanism.as_str(), "SCRAM-SHA-256") {
            return Err(join2("unsupported SCRAM mechanism ", mechanism.as_str()));
        }
        let (bare, name, nonce) = match parse_scram_client_first(message.as_str()) {
            Ok(parts) => parts,
            Err(error) => {
                return Err(error);
            },
        };
        if !same_text(name.as_str(), username) {
            return Err("SCRAM client username does not match startup user".to_owned());
        }
        let salt = base64_encode(verifier.salt.as_slice());
        let head = join4("r=", nonce.as_str(), server_nonce.as_str(), ",s=");
        let count = u64_text(verifier.iterations as u64);
        let server_first = join4(head.as_str(), salt.as_str(), ",i=", count.as_str());
        Ok(
            ScramExchange {
                client_first_bare: bare,
                client_nonce: nonce,
                server_nonce,
                server_first,
            },
        )
    }

    /// The proxy's first message.
    pub fn server_first(&self) -> (r: &str)
        ensures
            r@ == self@.server_first,
    {
        self.server_first.as_str()
    }

    /// Reads a client's last frame and decides.
    pub fn close(
        &self,
        frame: &FrontendFrame,
        username: &str,
        mode: AuthFailureMessageMode,
        verifier: &ScramVerifier,
    ) -> (r: Result<ScramVerdict, String>)
        ensures
            match (
                r,
                scram_closing(self@, frame@, username@, mode, verifier@, final_proof(frame@)),
            ) {
                (Ok(verdict), Ok(expected)) => verdict@ == expected,
                (Err(error), Err(expected)) => error@ == expected,
                _ => false,
            },
    {
        let decoded = match parse_password_frame(frame) {
            Ok(payload) => match text_from_utf8(payload) {
                Some(message) => match parse_scram_client_final(message.as_str()) {
                    Ok((_, _, text)) => base64_decode(text.as_str()),
                    Err(_) => None,
                },
                None => None,
            },
            Err(_) => None,
        };
        self.close_with(frame, username, mode, verifier, decoded)
    }

    /// Reads a client's last frame and decides, given what decoding its proof gave.
    pub fn close_with(
        &self,
        frame: &FrontendFrame,
        username: &str,
        mode: AuthFailureMessageMode,
        verifier: &ScramVerifier,
        decoded: Option<Vec<u8>>,
    ) -> (r: Result<ScramVerdict, String>)
        ensures
            match (
                r,
                scram_closing(self@, frame@, username@, mode, verifier@, opt_bytes(decoded)),
            ) {
                (Ok(verdict), Ok(expected)) => verdict@ == expected,
                (Err(error), Err(expected)) => error@ == expected,
                _ => false,
            },
    {
        let payload = match parse_password_frame(frame) {
            Ok(payload) => payload,
            Err(error) => {
                return Err(error);
            },
        };
        let message = match text_from_utf8(payload) {
            Some(message) => message,
            None => {
                return Err("parse SCRAM final response".to_owned());
            },
        };
        let (binding, nonce, _) = match parse_scram_client_final(message.as_str()) {
            Ok(parts) => parts,
            Err(error) => {
                return Err(error);
            },
        };
        if !same_text(binding.as_str(), "biws") {
            return Err("unsupported SCRAM channel binding".to_owned());
        }
        let combined = join2(self.client_nonce.as_str(), self.server_nonce.as_str());
        if !same_text(nonce.as_str(), combined.as_str()) {
            return Err("SCRAM nonce mismatch".to_owned());
        }
        let final_bare = join2("c=biws,r=", nonce.as_str());
        let signed = join5(
            self.client_first_bare.as_str(),
            ",",
            self.server_first.as_str(),
            ",",
            final_bare.as_str(),
        );
        match check_scram_proof(verifier, signed.as_str(), decoded) {
            Ok(()) => {
                let signature = scram_server_signature(verifier, signed.as_str());
                let text = base64_encode(signature.as_slice());
                Ok(ScramVerdict::Accepted { server_final: join2("v=", text.as_str()) })
            },
            Err(_) => Ok(
                ScramVerdict::Rejected {
                    message: rejection_message(mode, username, "invalid password"),
                },
            ),
        }
    }
}

/// A proof that the proxy makes as a client, it accepts as a server: for any key of 32 bytes,
/// the proof that `proof_of` makes is accepted against the digest of that key.
pub proof fn law_own_proof_accepted(client_key: Seq<u8>, signed: Seq<char>)
    requires
        client_key.len() == 32,
        hmac_of(sha256_of(client_key), utf8_bytes(signed)).len() == 32,
    ensures
        proof_accepted(sha256_of(client_key), signed, Some(proof_of(client_key, signed))),
{
    law_xor_twice(client_key, hmac_of(sha256_of(client_key), utf8_bytes(signed)));
}

/// The signature that the proxy gives as a server is the one that it expects as a client, where
/// the verifier was made of the same password, salt and number of rounds.
pub proof fn law_own_signature_expected(
    challenge: Challenge,
    password: Seq<char>,
    server_first: Seq<char>,
    verifier: ScramFacts,
)
    requires
        verifier.server_key == server_key_of(
            salted_password(password, challenge.salt, challenge.iterations),
        ),
    ensures
        expected_signature(challenge, password, server_first) == hmac_of(
            verifier.server_key,
            utf8_bytes(
                signed_text(
                    challenge.first_bare,
                    server_first,
                    final_without_proof(challenge.nonce),
                ),
            ),
        ),
{
}

/// A payload without a zero byte at its end.
pub open spec fn without_final_zero(payload: Seq<u8>) -> Seq<u8> {
    if payload.len() > 0 && payload.last() == 0 {
        payload.drop_last()
    } else {
        payload
    }
}

/// Whether every byte is a digit in small hexadecimal.
pub open spec fn all_small_hex(bytes: Seq<u8>) -> bool {
    forall|i: int| 0 <= i < bytes.len() ==> is_small_hex_byte(#[trigger] bytes[i])
}

/// The digits of a client's MD5 answer: what follows `md5`, without a zero byte at the end, where
/// it is 32 digits in small hexadecimal.
pub open spec fn read_md5_answer(payload: Seq<u8>) -> Option<Seq<u8>> {
    let body = without_final_zero(payload);
    if has_prefix(body, seq![109u8, 100u8, 53u8]) && body.len() == 35 && all_small_hex(
        body.skip(3),
    ) {
        Some(body.skip(3))
    } else {
        None
    }
}

/// Whether a byte is a digit or one of the first six small letters.
pub open spec fn is_small_hex_byte(b: u8) -> bool {
    48 <= b <= 57 || 97 <= b <= 102
}

/// Reads the digits of a client's MD5 answer.
pub fn parse_md5_password_response(payload: &[u8]) -> (r: Option<&[u8]>)
    ensures
        match r {
            Some(digits) => read_md5_answer(payload@) == Some(digits@),
            None => read_md5_answer(payload@) is None,
        },
{
    let n: usize = payload.len();
    let end: usize = if n > 0 && payload[n - 1] == 0 {
        n - 1
    } else {
        n
    };
    let ghost body = without_final_zero(payload@);
    assert(body =~= payload@.take(end as int));
    if end != 35 {
        return None;
    }
    assert(body.take(3) =~= seq![body[0], body[1], body[2]]);
    if payload[0] != 109 || payload[1] != 100 || payload[2] != 53 {
        assert(!has_prefix(body, seq![109u8, 100u8, 53u8])) by {
            if body.take(3) == seq![109u8, 100u8, 53u8] {
                assert(body.take(3)[0] == 109 && body.take(3)[1] == 100 && body.take(3)[2] == 53);
            }
        }
        return None;
    }
    let digits = vstd::slice::slice_subrange(payload, 3, end);
    assert(digits@ =~= body.skip(3));
    let mut i: usize = 0;
    while i < digits.len()
        invariant
            i <= digits@.len() == 32,
            body == without_final_zero(payload@),
            digits@ == body.skip(3),
            has_prefix(body, seq![109u8, 100u8, 53u8]),
            body.len() == 35,
            forall|k: int| 0 <= k < i ==> is_small_hex_byte(#[trigger] digits@[k]),
        decreases digits@.len() - i,
    {
        let b: u8 = digits[i];
        if !((48 <= b && b <= 57) || (97 <= b && b <= 102)) {
            assert(!is_small_hex_byte(digits@[i as int]));
            return None;
        }
        i += 1;
    }
    Some(digits)
}

/// The digits that a client has to answer with.
pub fn expected_md5_client_hash(secret: &Md5Secret, salt: &[u8; 4]) -> (r: String)
    ensures
        r@ == salted_md5(secret@, salt@),
{
    salted_digest(secret.stored_hex(), salt.as_slice())
}

/// How an MD5 login ends with a client's frame.
pub enum Md5Verdict {
    Accepted,
    Rejected { message: String },
}

/// The salt of an MD5 login: four random bytes, or nothing where the system has none.
pub fn md5_salt() -> (r: Option<[u8; 4]>) {
    random_bytes::<4>()
}

/// Reads a client's frame and decides an MD5 login under a salt.
pub fn authenticate_md5(
    frame: &FrontendFrame,
    username: &str,
    mode: AuthFailureMessageMode,
    secret: &Md5Secret,
    salt: &[u8; 4],
) -> (r: Result<Md5Verdict, String>)
    ensures
        match r {
            Err(error) => frame@.tag != PASSWORD_MESSAGE_TAG && error@
                == "unexpected frontend authentication message tag "@ + tag_text(frame@.tag),
            Ok(Md5Verdict::Accepted) => {
                &&& frame@.tag == PASSWORD_MESSAGE_TAG
                &&& read_md5_answer(frame@.payload) == Some(
                    utf8_bytes(salted_md5(secret@, salt@)),
                )
            },
            Ok(Md5Verdict::Rejected { message }) => {
                &&& frame@.tag == PASSWORD_MESSAGE_TAG
                &&& read_md5_answer(frame@.payload) != Some(utf8_bytes(salted_md5(secret@, salt@)))
                &&& message@ == rejection_text(
                    mode,
                    username@,
                    if read_md5_answer(frame@.payload) is None {
                        "malformed md5 response"@
                    } else {
                        "invalid password"@
                    },
                )
            },
        },
        r matches Ok(Md5Verdict::Accepted) ==> exists|hex: Seq<u8>|
            {
                &&& hex == utf8_bytes(hex_text(md5_of(utf8_bytes(secret@) + salt@)))
                &&& #[trigger] read_md5_answer(frame@.payload) == Some(hex)
            },
        r is Ok <==> frame@.tag == 112u8,
{
    let payload = match parse_password_frame(frame) {
        Ok(payload) => payload,
        Err(error) => {
            return Err(error);
        },
    };
    let response = match parse_md5_password_response(payload) {
        Some(response) => response,
        None => {
            return Ok(
                Md5Verdict::Rejected {
                    message: rejection_message(mode, username, "malformed md5 response"),
                },
            );
        },
    };
    let expected = expected_md5_client_hash(secret, salt);
    if constant_time_eq(expected.as_str().as_bytes(), response) {
        Ok(Md5Verdict::Accepted)
    } else {
        Ok(
            Md5Verdict::Rejected {
                message: rejection_message(mode, username, "invalid password"),
            },
        )
    }
}

/// The digest that the proxy sends as a client is the one that it asks for as a server, where the
/// stored digest was made of the same name and password.
pub proof fn law_own_md5_answer_expected(
    user: Seq<char>,
    password: Seq<char>,
    stored_hex: Seq<char>,
    salt: Seq<u8>,
)
    requires
        stored_hex == hex_text(md5_of(utf8_bytes(password + user))),
    ensures
        md5_answer(user, password, salt) == salted_md5(stored_hex, salt),
{
}

/// What the proxy does after it has looked for a client's frame.
#[derive(Debug)]
pub enum AuthenticationRead {
    /// A whole frame has come.
    Frame(FrontendFrame),
    /// More bytes are needed.
    NeedMoreBytes,
}

/// Looks for a whole frame in what a client has sent so far, and takes it.
pub fn take_authentication_frame(
    buffer: &mut bytes::BytesMut,
    max_client_buffer_bytes: usize,
) -> (r: Result<AuthenticationRead, String>)
    ensures
        ({
            let bytes = buffer_bytes(*old(buffer));
            let left = buffer_bytes(*final(buffer));
            match scan_frame(bytes) {
                FrameScan::Complete(size) => {
                    &&& r matches Ok(AuthenticationRead::Frame(frame))
                    &&& frame@ == frame_of(bytes, size)
                    &&& left == bytes.skip(size)
                },
                FrameScan::Invalid(length) => {
                    &&& r matches Err(error)
                    &&& error@ == invalid_length_text(length)
                    &&& left == bytes
                },
                FrameScan::Incomplete => {
                    &&& left == bytes
                    &&& if bytes.len() >= max_client_buffer_bytes {
                        r matches Err(error) && error@
                            == "client authentication message exceeded buffer limit"@
                    } else {
                        r matches Ok(AuthenticationRead::NeedMoreBytes)
                    }
                },
            }
        }),
{
    match parse_frontend_frame(buffer) {
        Ok(Some(frame)) => Ok(AuthenticationRead::Frame(frame)),
        Ok(None) => {
            if buffer_len(buffer) >= max_client_buffer_bytes {
                Err("client authentication message exceeded buffer limit".to_owned())
            } else {
                Ok(AuthenticationRead::NeedMoreBytes)
            }
        },
        Err(error) => Err(error.message()),
    }
}

/// Checks a read of a client's bytes: that some came, and that the buffer is within its limit.
pub fn check_authentication_read(
    read: usize,
    buffered: usize,
    max_client_buffer_bytes: usize,
) -> (r: Result<(), String>)
    ensures
        crate::config::complaint(r) == if read == 0 {
            Some("client disconnected during authentication"@)
        } else if buffered > max_client_buffer_bytes {
            Some("client authentication message exceeded buffer limit"@)
        } else {
            None
        },
        r is Ok <==> read > 0 && buffered <= max_client_buffer_bytes,
{
    if read == 0 {
        return Err("client disconnected during authentication".to_owned());
    }
    if buffered > max_client_buffer_bytes {
        return Err("client authentication message exceeded buffer limit".to_owned());
    }
    Ok(())
}

// ---------------------------------------------------------------------------
// The file of users
// ---------------------------------------------------------------------------

/// What one line of the file says.
pub enum UserLine {
    /// Nothing: the line is blank or a comment.
    Nothing,
    /// The secret of a user.
    User(Seq<char>, SecretFacts),
    /// What is wrong with the line.
    Wrong(Seq<char>),
}

/// Where a line stands, as an error names it.
pub open spec fn line_place(path: Seq<char>, number: nat) -> Seq<char> {
    path + " line "@ + decimal(number)
}

/// What a line says. `number` counts from one.
pub open spec fn read_user_line(raw: Seq<char>, path: Seq<char>, number: nat) -> UserLine {
    let line = trimmed(raw);
    if line.len() == 0 || line[0] == '#' {
        UserLine::Nothing
    } else {
        match split_once_on(line, '=') {
            None => UserLine::Wrong("parse auth users file "@ + line_place(path, number)),
            Some((left, right)) => {
                let name = trimmed_of(trimmed(left), '"');
                let secret = trimmed_of(trimmed(right), '"');
                if same_ignoring_case(secret, "trust"@) {
                    UserLine::User(name, SecretFacts::Trust)
                } else if has_prefix(secret, "md5"@) {
                    match read_md5_secret(secret) {
                        Some(hex) => UserLine::User(name, SecretFacts::Md5(hex)),
                        None => UserLine::Wrong(
                            "parse MD5 verifier for user "@ + name + " in "@ + line_place(
                                path,
                                number,
                            ),
                        ),
                    }
                } else {
                    match read_verifier(secret) {
                        Some(facts) => UserLine::User(name, SecretFacts::Scram(facts)),
                        None => UserLine::Wrong(
                            "parse SCRAM verifier for user "@ + name + " in "@ + line_place(
                                path,
                                number,
                            ),
                        ),
                    }
                }
            },
        }
    }
}

/// The users of some lines, or what is wrong with the first line that is wrong.
pub open spec fn read_user_lines(lines: Seq<Seq<char>>, path: Seq<char>) -> Result<
    Map<Seq<char>, SecretFacts>,
    Seq<char>,
>
    decreases lines.len(),
{
    if lines.len() == 0 {
        Ok(Map::empty())
    } else {
        match read_user_lines(lines.drop_last(), path) {
            Err(error) => Err(error),
            Ok(users) => match read_user_line(lines.last(), path, lines.len()) {
                UserLine::Nothing => Ok(users),
                UserLine::User(name, secret) => Ok(users.insert(name, secret)),
                UserLine::Wrong(error) => Err(error),
            },
        }
    }
}

proof fn lemma_user_lines_error_stays(lines: Seq<Seq<char>>, path: Seq<char>, k: int)
    requires
        0 <= k <= lines.len(),
        read_user_lines(lines.take(k), path) is Err,
    ensures
        read_user_lines(lines, path) == read_user_lines(lines.take(k), path),
    decreases lines.len() - k,
{
    if k < lines.len() {
        assert(lines.take(k + 1).drop_last() =~= lines.take(k));
        lemma_user_lines_error_stays(lines, path, k + 1);
    } else {
        assert(lines.take(k) =~= lines);
    }
}

fn parse_user_line(raw: &str, path: &str, number: usize) -> (r: Result<
    Option<(String, UserSecret)>,
    String,
>)
    ensures
        match (r, read_user_line(raw@, path@, number as nat)) {
            (Ok(None), UserLine::Nothing) => true,
            (Ok(Some((name, secret))), UserLine::User(expected, facts)) => name@ == expected
                && secret@ == facts,
            (Err(error), UserLine::Wrong(expected)) => error@ == expected,
            _ => false,
        },
{
    let line = trim(raw);
    if line.as_str().is_empty() || line.as_str().get_char(0) == '#' {
        return Ok(None);
    }
    let place = join3(path, " line ", usize_text(number).as_str());
    let (left, right) = match split_once(line.as_str(), '=') {
        Some(pair) => pair,
        None => {
            return Err(join2("parse auth users file ", place.as_str()));
        },
    };
    let name = trim_matches(trim(left.as_str()).as_str(), '"');
    let secret = trim_matches(trim(right.as_str()).as_str(), '"');
    if eq_ignore_ascii_case(secret.as_str(), "trust") {
        Ok(Some((name, UserSecret::Trust)))
    } else if starts_with(secret.as_str(), "md5") {
        match Md5Secret::parse(secret.as_str()) {
            Some(digest) => Ok(Some((name, UserSecret::Md5(digest)))),
            None => Err(
                join4("parse MD5 verifier for user ", name.as_str(), " in ", place.as_str()),
            ),
        }
    } else {
        match ScramVerifier::parse(secret.as_str()) {
            Some(verifier) => Ok(Some((name, UserSecret::ScramSha256(verifier)))),
            None => Err(
                join4("parse SCRAM verifier for user ", name.as_str(), " in ", place.as_str()),
            ),
        }
    }
}

/// Reads the users of a file, given what the file at `path` holds: one `name = secret` on a line,
/// with blank lines and lines that begin with `#` left out.
pub fn load_user_store(contents: &str, path: &str) -> (r: Result<UserStore, String>)
    ensures
        match (r, read_user_lines(lines_of(contents@), path@)) {
            (Ok(store), Ok(users)) => store.wf() && store@ == users,
            (Err(error), Err(expected)) => error@ == expected,
            _ => false,
        },
{
    let all = lines(contents);
    let ghost model = texts(all@);
    let mut store = UserStore::new();
    let mut i: usize = 0;
    assert(model.take(0) =~= Seq::empty());
    while i < all.len()
        invariant
            i <= all@.len(),
            model == texts(all@),
            model == lines_of(contents@),
            store.wf(),
            read_user_lines(model.take(i as int), path@) == Ok::<
                Map<Seq<char>, SecretFacts>,
                Seq<char>,
            >(store@),
        decreases all@.len() - i,
    {
        let ghost upto = model.take(i + 1);
        assert(upto.drop_last() =~= model.take(i as int));
        assert(upto.last() == all@[i as int]@);
        match parse_user_line(all[i].as_str(), path, i + 1) {
            Ok(Some((name, secret))) => {
                store.insert(name, secret);
            },
            Ok(None) => {},
            Err(error) => {
                proof {
                    lemma_user_lines_error_stays(model, path@, i + 1);
                }
                return Err(error);
            },
        }
        i += 1;
    }
    assert(model.take(i as int) =~= model);
    Ok(store)
}

/// What is answered to each request of a server for a login, by the request's number. Nothing to 0.
/// To 3 the password itself, in TLS alone. To 5, with a salt of four bytes, `md5` and the digest of
/// the salt behind the digest of password and name.
pub proof fn law_password_answers(state: LoginState, request: Seq<u8>, tls: bool)
    requires
        request.len() >= 4,
    ensures
        be_at(request, 0) == 0 ==> login_step(state, request, tls).reply == Ok::<
            Option<Seq<u8>>,
            Seq<char>,
        >(None),
        be_at(request, 0) == 3 && tls ==> login_step(state, request, tls).reply == Ok::<
            Option<Seq<u8>>,
            Seq<char>,
        >(
            Some(
                (Frame { tag: 112u8, payload: utf8_bytes(state.password) + seq![0u8] }).encoded(),
            ),
        ),
        be_at(request, 0) == 3 && !tls ==> login_step(state, request, tls).reply is Err,
        be_at(request, 0) == 5 && request.len() == 8 ==> login_step(state, request, tls).reply
            == Ok::<Option<Seq<u8>>, Seq<char>>(
            Some(
                (Frame {
                    tag: 112u8,
                    payload: utf8_bytes(
                        "md5"@ + hex_text(
                            md5_of(
                                utf8_bytes(
                                    hex_text(md5_of(utf8_bytes(state.password + state.user))),
                                ) + request.skip(4),
                            ),
                        ),
                    ) + seq![0u8],
                }).encoded(),
            ),
        ),
        be_at(request, 0) == 5 && request.len() != 8 ==> login_step(state, request, tls).reply
            is Err,
        be_at(request, 0) == 0 || be_at(request, 0) == 3 || be_at(request, 0) == 5 ==> login_step(
            state,
            request,
            tls,
        ).state == state,
        be_at(request, 0) != 0 && be_at(request, 0) != 3 && be_at(request, 0) != 5 && be_at(
            request,
            0,
        ) != 10 && be_at(request, 0) != 11 && be_at(request, 0) != 12 ==> login_step(
            state,
            request,
            tls,
        ).reply is Err && login_step(state, request, tls).state == state,
{
}

/// How a login by SCRAM is opened: with the one mechanism that is known, where the server offers
/// it, without channel binding, under the user's escaped name and the session's own nonce.
pub proof fn law_scram_is_opened(state: LoginState, request: Seq<u8>, tls: bool)
    requires
        request.len() >= 4,
        be_at(request, 0) == 10,
        utf8_text(request.skip(4)) is Some,
    ensures
        ({
            let offered = split_on(utf8_text(request.skip(4))->0, '\0').contains(
                "SCRAM-SHA-256"@,
            );
            let step = login_step(state, request, tls);
            let bare = "n="@ + escaped(state.user) + ",r="@ + state.nonce;
            let first = utf8_bytes("n,,"@ + bare);
            &&& step.reply is Ok <==> offered
            &&& offered ==> step.state.first_bare == Some(bare) && step.state.user == state.user
                && step.state.password == state.password && step.state.nonce == state.nonce
                && step.state.signature == state.signature
            &&& offered ==> step.reply == Ok::<Option<Seq<u8>>, Seq<char>>(
                Some(
                    (Frame {
                        tag: 112u8,
                        payload: utf8_bytes("SCRAM-SHA-256"@) + seq![0u8] + be_bytes4(
                            first.len() as int,
                        ) + first,
                    }).encoded(),
                ),
            )
            &&& !offered ==> step.state == state
        }),
{
}

/// A server's challenge is answered exactly where its nonce goes on from the session's own, its
/// salt can be read, it asks for at least one iteration, and the login was opened. Then the answer
/// repeats the nonce, and the signature that the server must show later is remembered.
pub proof fn law_challenge_answered_exactly_where(
    state: LoginState,
    request: Seq<u8>,
    tls: bool,
    first: Seq<char>,
)
    requires
        request.len() >= 4,
        be_at(request, 0) == 11,
        utf8_text(request.skip(4)) == Some(first),
    ensures
        ({
            let step = login_step(state, request, tls);
            let nonce = attribute_of(first, 'r');
            let salt = attribute_of(first, 's');
            let count = attribute_of(first, 'i');
            &&& step.reply is Ok <==> {
                &&& nonce is Some && has_prefix(nonce->0, state.nonce)
                &&& salt is Some && base64_bytes(salt->0) is Some
                &&& count is Some && (read_unsigned(count->0, u32::MAX as nat) matches Ok(n) && n
                    > 0)
                &&& state.first_bare is Some
            }
            &&& step.reply is Err ==> step.state == state
            &&& step.reply is Ok ==> {
                let iterations = read_unsigned(count->0, u32::MAX as nat)->Ok_0 as u32;
                let salted = pbkdf2_of(
                    utf8_bytes(state.password),
                    base64_bytes(salt->0)->0,
                    iterations,
                );
                let bare = "c=biws,r="@ + nonce->0;
                let signed = utf8_bytes(state.first_bare->0 + ","@ + first + ","@ + bare);
                let client_key = hmac_of(salted, utf8_bytes("Client Key"@));
                &&& step.state.signature == Some(
                    hmac_of(hmac_of(salted, utf8_bytes("Server Key"@)), signed),
                )
                &&& step.state.first_bare == state.first_bare
                &&& step.state.user == state.user
                &&& step.state.password == state.password
                &&& step.state.nonce == state.nonce
                &&& step.reply == Ok::<Option<Seq<u8>>, Seq<char>>(
                    Some(
                        (Frame {
                            tag: 112u8,
                            payload: utf8_bytes(
                                bare + ",p="@ + base64_text(
                                    xor_seq(client_key, hmac_of(sha256_of(client_key), signed)),
                                ),
                            ),
                        }).encoded(),
                    ),
                )
            }
        }),
{
}

/// A server's last word is believed exactly where it shows the signature that is expected of it,
/// and none is expected twice.
pub proof fn law_signature_must_match(
    state: LoginState,
    request: Seq<u8>,
    tls: bool,
    last: Seq<char>,
)
    requires
        request.len() >= 4,
        be_at(request, 0) == 12,
        utf8_text(request.skip(4)) == Some(last),
    ensures
        ({
            let step = login_step(state, request, tls);
            let shown = attribute_of(last, 'v');
            &&& step.reply is Ok <==> {
                &&& !has_prefix(last, "e="@)
                &&& state.signature is Some
                &&& shown is Some
                &&& base64_bytes(shown->0) == state.signature
            }
            &&& step.reply is Ok ==> step.reply->Ok_0 is None
            &&& !has_prefix(last, "e="@) ==> step.state.signature is None
            &&& step.state.user == state.user
            &&& step.state.password == state.password
            &&& step.state.nonce == state.nonce
        }),
{
}

/// A client's login by SCRAM is opened only under its own name, with the mechanism that is offered.
/// The challenge goes on from the client's nonce with the server's, and gives the user's own salt
/// and count.
pub proof fn law_challenge_is_the_users_own(
    frame: Frame,
    username: Seq<char>,
    server_nonce: Seq<char>,
    verifier: ScramFacts,
)
    requires
        scram_opening(frame, username, server_nonce, verifier) is Ok,
    ensures
        frame.tag == 112u8,
        ({
            let state = scram_opening(frame, username, server_nonce, verifier)->Ok_0;
            let (mechanism, message) = read_sasl_initial(frame.payload)->Ok_0;
            let first = read_client_first(message)->Ok_0;
            &&& read_sasl_initial(frame.payload) is Ok
            &&& mechanism == "SCRAM-SHA-256"@
            &&& read_client_first(message) is Ok
            &&& first.name == username
            &&& message == "n,,"@ + first.bare
            &&& state.first_bare == first.bare
            &&& state.client_nonce == first.nonce
            &&& state.server_nonce == server_nonce
            &&& state.server_first == "r="@ + first.nonce + server_nonce + ",s="@ + base64_text(
                verifier.salt,
            ) + ",i="@ + decimal(verifier.iterations as nat)
        }),
{
    let (mechanism, message) = read_sasl_initial(frame.payload)->Ok_0;
    reveal_strlit("n,,");
    let n = "n,,"@.len() as int;
    assert(message =~= message.take(n) + message.skip(n));
}

/// A client is let in exactly where its last message repeats both nonces, binds no channel, and
/// proves that it knows the key of which the stored key is the digest; then the server proves its
/// own key in turn. A wrong proof is refused, with the message that the settings ask for.
pub proof fn law_let_in_exactly_where_proved(
    state: ExchangeState,
    frame: Frame,
    username: Seq<char>,
    mode: AuthFailureMessageMode,
    verifier: ScramFacts,
    decoded: Option<Seq<u8>>,
    message: Seq<char>,
    last: ClientFinal,
)
    requires
        frame.tag == 112u8,
        utf8_text(frame.payload) == Some(message),
        read_client_final(message) == Ok::<ClientFinal, Seq<char>>(last),
    ensures
        ({
            let verdict = scram_closing(state, frame, username, mode, verifier, decoded);
            let repeats = last.nonce == state.client_nonce + state.server_nonce && last.binding
                == "biws"@;
            let signed = utf8_bytes(
                state.first_bare + ","@ + state.server_first + ","@ + ("c=biws,r="@ + last.nonce),
            );
            let proved = decoded is Some && decoded->0.len() == 32 && sha256_of(
                xor_seq(decoded->0, hmac_of(verifier.stored_key, signed)),
            ) == verifier.stored_key;
            &&& verdict is Ok <==> repeats
            &&& repeats && proved ==> verdict == Ok::<VerdictFacts, Seq<char>>(
                VerdictFacts::Accepted(
                    "v="@ + base64_text(hmac_of(verifier.server_key, signed)),
                ),
            )
            &&& repeats && !proved ==> verdict == Ok::<VerdictFacts, Seq<char>>(
                VerdictFacts::Rejected(rejection_text(mode, username, "invalid password"@)),
            )
        }),
{
}

/// What a client answers to a salt is read where it is `md5` and 32 small hexadecimal digits, with
/// or without a zero byte behind them.
pub proof fn law_md5_answer_shape(payload: Seq<u8>)
    ensures
        read_md5_answer(payload) matches Some(hex) ==> {
            &&& hex.len() == 32
            &&& forall|i: int|
                0 <= i < hex.len() ==> 48 <= #[trigger] hex[i] <= 57 || 97 <= hex[i] <= 102
            &&& payload == seq![109u8, 100u8, 53u8] + hex || payload == seq![109u8, 100u8, 53u8]
                + hex + seq![0u8]
        },
{
    if read_md5_answer(payload) is Some {
        let hex = read_md5_answer(payload)->0;
        let body = without_final_zero(payload);
        assert(body =~= body.take(3) + body.skip(3));
        if payload != body {
            assert(payload =~= body + seq![0u8]);
        }
        assert(forall|i: int|
            0 <= i < hex.len() ==> is_small_hex_byte(#[trigger] hex[i]));
    }
}

/// A byte is written as two digits, the higher one first, in small letters.
pub proof fn law_hex_of_bytes(bytes: Seq<u8>, i: int)
    requires
        0 <= i < bytes.len(),
    ensures
        hex_text(bytes).len() == 2 * bytes.len(),
        bytes[i] / 16 < 10 ==> hex_text(bytes)[2 * i] == (48 + bytes[i] / 16) as char,
        bytes[i] / 16 >= 10 ==> hex_text(bytes)[2 * i] == (97 + bytes[i] / 16 - 10) as char,
        bytes[i] % 16 < 10 ==> hex_text(bytes)[2 * i + 1] == (48 + bytes[i] % 16) as char,
        bytes[i] % 16 >= 10 ==> hex_text(bytes)[2 * i + 1] == (97 + bytes[i] % 16 - 10) as char,
{
    assert((2 * i) / 2 == i && (2 * i + 1) / 2 == i);
}

/// What a line of a users file says: nothing where it is blank or a comment; otherwise it names a
/// user and a secret of the kind that the secret's text shows.
pub proof fn law_user_line_kinds(raw: Seq<char>, path: Seq<char>, number: nat)
    ensures
        ({
            let line = trimmed(raw);
            let read = read_user_line(raw, path, number);
            &&& read is Nothing <==> line.len() == 0 || line[0] == '#'
            &&& read matches UserLine::User(name, secret) ==> {
                &&& split_once_on(line, '=') is Some
                &&& name == trimmed_of(trimmed((split_once_on(line, '=')->Some_0).0), '"')
                &&& {
                    let text = trimmed_of(trimmed((split_once_on(line, '=')->Some_0).1), '"');
                    match secret {
                        SecretFacts::Trust => same_ignoring_case(text, "trust"@),
                        SecretFacts::Md5(hex) => text == "md5"@ + hex && hex.len() == 32,
                        SecretFacts::Scram(facts) => !same_ignoring_case(text, "trust"@)
                            && !has_prefix(text, "md5"@) && read_verifier(text) == Some(facts),
                    }
                }
            }
        }),
{
    reveal_strlit("md5");
    let line = trimmed(raw);
    if split_once_on(line, '=') is Some {
        let text = trimmed_of(trimmed((split_once_on(line, '=')->Some_0).1), '"');
        if has_prefix(text, "md5"@) {
            assert(text =~= text.take(3) + text.skip(3));
        }
    }
}

/// A detailed refusal names the user and the reason.
pub proof fn law_detailed_refusal_tells(username: Seq<char>, reason: Seq<char>)
    ensures
        rejection_text(AuthFailureMessageMode::Detailed, username, reason)
            == "password authentication failed for user "@ + username + ": "@ + reason,
        rejection_text(AuthFailureMessageMode::Generic, username, reason)
            == "password authentication failed"@,
{
}

/// An attribute of a message is what stands behind its letter and the equals sign, in the first item
/// that begins with them.
pub proof fn law_first_attribute_counts(items: Seq<Seq<char>>, key: char, i: int)
    requires
        0 <= i < items.len(),
        items[i].len() >= 2,
        items[i][0] == key,
        items[i][1] == '=',
        forall|j: int|
            0 <= j < i ==> !((#[trigger] items[j]).len() >= 2 && items[j][0] == key && items[j][1]
                == '='),
    ensures
        attribute_in(items, key) == Some(items[i].skip(2)),
    decreases items.len(),
{
    let first = items[0];
    if i == 0 {
        assert(first.take(2) =~= seq![key, '=']);
    } else {
        if has_prefix(first, seq![key, '=']) {
            assert(first.take(2)[0] == first[0] && first.take(2)[1] == first[1]);
            assert(false);
        }
        let rest = items.drop_first();
        assert(rest[i - 1] == items[i]);
        assert forall|j: int| 0 <= j < i - 1 implies !((#[trigger] rest[j]).len() >= 2 && rest[j][0]
            == key && rest[j][1] == '=') by {
            assert(rest[j] == items[j + 1]);
        }
        law_first_attribute_counts(rest, key, i - 1);
    }
}

/// Of a client's last message each item counts under its letter: the binding (`c`), the nonce (`r`)
/// and the proof (`p`). Other items are passed over, and of several the last holds.
pub proof fn law_final_items_by_letter(
    items: Seq<Seq<char>>,
    parts: ClientFinalParts,
    item: Seq<char>,
    key: Seq<char>,
    value: Seq<char>,
)
    requires
        client_final_items(items) == Ok::<ClientFinalParts, Seq<char>>(parts),
        split_once_on(item, '=') == Some((key, value)),
    ensures
        ({
            let next = client_final_items(items.push(item));
            &&& next is Ok
            &&& key == seq!['c'] ==> next->Ok_0 == (ClientFinalParts {
                binding: Some(value),
                ..parts
            })
            &&& key == seq!['r'] ==> next->Ok_0 == (ClientFinalParts { nonce: Some(value), ..parts })
            &&& key == seq!['p'] ==> next->Ok_0 == (ClientFinalParts {
                proof_text: Some(value),
                ..parts
            })
            &&& key != seq!['c'] && key != seq!['r'] && key != seq!['p'] ==> next->Ok_0 == parts
        }),
{
    assert(items.push(item).drop_last() =~= items);
    reveal_strlit("c");
    reveal_strlit("r");
    reveal_strlit("p");
    assert("c"@ =~= seq!['c']);
    assert("r"@ =~= seq!['r']);
    assert("p"@ =~= seq!['p']);
    assert(seq!['c'][0] == 'c' && seq!['r'][0] == 'r' && seq!['p'][0] == 'p');
}

/// Of a client's first message each item counts under its letter: the name (`n`), unescaped, and the
/// nonce (`r`).
pub proof fn law_first_items_by_letter(
    items: Seq<Seq<char>>,
    name: Option<Seq<char>>,
    nonce: Option<Seq<char>>,
    item: Seq<char>,
    key: Seq<char>,
    value: Seq<char>,
)
    requires
        client_first_items(items) == Ok::<(Option<Seq<char>>, Option<Seq<char>>), Seq<char>>(
            (name, nonce),
        ),
        split_once_on(item, '=') == Some((key, value)),
    ensures
        ({
            let next = client_first_items(items.push(item));
            &&& key == seq!['n'] && unescaped(value) is Ok ==> next == Ok::<
                (Option<Seq<char>>, Option<Seq<char>>),
                Seq<char>,
            >((Some(unescaped(value)->Ok_0), nonce))
            &&& key == seq!['n'] && unescaped(value) is Err ==> next is Err
            &&& key == seq!['r'] ==> next == Ok::<
                (Option<Seq<char>>, Option<Seq<char>>),
                Seq<char>,
            >((name, Some(value)))
            &&& key != seq!['n'] && key != seq!['r'] ==> next == Ok::<
                (Option<Seq<char>>, Option<Seq<char>>),
                Seq<char>,
            >((name, nonce))
        }),
{
    assert(items.push(item).drop_last() =~= items);
    reveal_strlit("n");
    reveal_strlit("r");
    assert("n"@ =~= seq!['n']);
    assert("r"@ =~= seq!['r']);
    assert(seq!['n'][0] == 'n' && seq!['r'][0] == 'r');
}

/// A users file is read line by line: the last line of a user holds, and the first wrong line is
/// an error, with its number.
pub proof fn law_users_by_line(
    lines: Seq<Seq<char>>,
    users: Map<Seq<char>, SecretFacts>,
    line: Seq<char>,
    path: Seq<char>,
)
    requires
        read_user_lines(lines, path) == Ok::<Map<Seq<char>, SecretFacts>, Seq<char>>(users),
    ensures
        ({
            let next = read_user_lines(lines.push(line), path);
            match read_user_line(line, path, lines.len() + 1) {
                UserLine::Nothing => next == Ok::<Map<Seq<char>, SecretFacts>, Seq<char>>(users),
                UserLine::User(name, secret) => next == Ok::<
                    Map<Seq<char>, SecretFacts>,
                    Seq<char>,
                >(users.insert(name, secret)),
                UserLine::Wrong(error) => next == Err::<Map<Seq<char>, SecretFacts>, Seq<char>>(
                    error,
                ),
            }
        }),
        read_user_lines(Seq::empty(), path) == Ok::<Map<Seq<char>, SecretFacts>, Seq<char>>(
            Map::empty(),
        ),
{
    assert(lines.push(line).drop_last() =~= lines);
}

} // verus!
