//! Resolving an authentication method and its inputs into a credential that
//! the transport can use.

use crate::text::{opt_chars, str_eq};
use vstd::prelude::*;
use vstd::string::*;

verus! {

/// What the platform's transport can do.
#[derive(Debug, Clone, Copy, PartialEq, Eq)]
pub struct Platform {
    /// Whether authentication with a public key file is available.
    pub public_key_files: bool,
    /// Whether an authentication agent can be reached.
    pub agent: bool,
}

impl Platform {
    /// What Unix-like systems offer: public key files and an agent.
    pub fn unix() -> (p: Platform)
        ensures
            p.public_key_files && p.agent,
    {
        Platform { public_key_files: true, agent: true }
    }

    /// What Windows offers: neither public key files nor an agent.
    pub fn windows() -> (p: Platform)
        ensures
            !p.public_key_files && !p.agent,
    {
        Platform { public_key_files: false, agent: false }
    }
}

/// A credential ready for the transport.
#[derive(Debug, Clone, PartialEq, Eq)]
pub enum CredentialSpec {
    Password { secret: String },
    PrivateKey { path: String, passphrase: Option<String> },
    PublicKeyFile { path: String },
    Agent,
    /// Questions answered at the keyboard; stands in for the agent where none
    /// can be reached.
    KeyboardInteractive,
}

/// What a `CredentialSpec` holds.
pub enum CredentialView {
    Password { secret: Seq<char> },
    PrivateKey { path: Seq<char>, passphrase: Option<Seq<char>> },
    PublicKeyFile { path: Seq<char> },
    Agent,
    KeyboardInteractive,
}

impl View for CredentialSpec {
    type V = CredentialView;

    open spec fn view(&self) -> CredentialView {
        match *self {
            CredentialSpec::Password { secret } => CredentialView::Password { secret: secret@ },
            CredentialSpec::PrivateKey { path, passphrase } => CredentialView::PrivateKey {
                path: path@,
                passphrase: match passphrase {
                    Some(p) => Some(p@),
                    None => None,
                },
            },
            CredentialSpec::PublicKeyFile { path } => CredentialView::PublicKeyFile { path: path@ },
            CredentialSpec::Agent => CredentialView::Agent,
            CredentialSpec::KeyboardInteractive => CredentialView::KeyboardInteractive,
        }
    }
}

/// Why no credential could be made.
#[derive(Debug, Clone, PartialEq, Eq)]
pub enum AuthError {
    /// The method needs a password and none was given.
    MissingSecret,
    /// The method needs the path of a key file and none was given.
    MissingPath,
    /// The key file at this path does not exist.
    FileNotFound(String),
    /// The platform does not offer the method.
    UnsupportedOnPlatform,
    /// The method's name is not one the library knows.
    UnknownMethod(String),
}

/// What an `AuthError` holds.
pub enum AuthErrorView {
    MissingSecret,
    MissingPath,
    FileNotFound(Seq<char>),
    UnsupportedOnPlatform,
    UnknownMethod(Seq<char>),
}

impl View for AuthError {
    type V = AuthErrorView;

    open spec fn view(&self) -> AuthErrorView {
        match *self {
            AuthError::MissingSecret => AuthErrorView::MissingSecret,
            AuthError::MissingPath => AuthErrorView::MissingPath,
            AuthError::FileNotFound(p) => AuthErrorView::FileNotFound(p@),
            AuthError::UnsupportedOnPlatform => AuthErrorView::UnsupportedOnPlatform,
            AuthError::UnknownMethod(m) => AuthErrorView::UnknownMethod(m@),
        }
    }
}

impl AuthError {
    /// The text of `message`.
    pub open spec fn message_text(&self) -> Seq<char> {
        match *self {
            AuthError::MissingSecret => "Password not provided"@,
            AuthError::MissingPath => "Key file path not provided"@,
            AuthError::FileNotFound(p) => "Key file not found: "@ + p@,
            AuthError::UnsupportedOnPlatform =>
                "Authentication method not supported on this platform"@,
            AuthError::UnknownMethod(m) => "Unknown authentication method: "@ + m@,
        }
    }

    /// The text shown to the user.
    pub fn message(&self) -> (m: String)
        ensures
            m@ == self.message_text(),
    {
        match self {
            AuthError::MissingSecret => "Password not provided".to_string(),
            AuthError::MissingPath => "Key file path not provided".to_string(),
            AuthError::FileNotFound(p) => {
                let mut m = "Key file not found: ".to_string();
                m.append(p.as_str());
                m
            },
            AuthError::UnsupportedOnPlatform =>
                "Authentication method not supported on this platform".to_string(),
            AuthError::UnknownMethod(name) => {
                let mut m = "Unknown authentication method: ".to_string();
                m.append(name.as_str());
                m
            },
        }
    }
}

/// What resolving gives, as credential or error.
pub open spec fn outcome(r: Result<CredentialSpec, AuthError>) -> Result<
    CredentialView,
    AuthErrorView,
> {
    match r {
        Ok(c) => Ok(c@),
        Err(e) => Err(e@),
    }
}

/// The local file that a method depends on: the key file of `key`, and the
/// public key file of `public_key` where the platform offers that method.
pub open spec fn referenced_file(
    method: Seq<char>,
    key_path: Option<Seq<char>>,
    public_key_path: Option<Seq<char>>,
    platform: Platform,
) -> Option<Seq<char>> {
    if method == "password"@ {
        None
    } else if method == "key"@ {
        key_path
    } else if method == "public_key"@ && platform.public_key_files {
        public_key_path
    } else {
        None
    }
}

/// The credential that a method and its inputs resolve to, given whether the
/// file that the method depends on exists.
pub open spec fn resolution(
    method: Seq<char>,
    secret: Option<Seq<char>>,
    key_path: Option<Seq<char>>,
    public_key_path: Option<Seq<char>>,
    platform: Platform,
    file_exists: bool,
) -> Result<CredentialView, AuthErrorView> {
    if method == "password"@ {
        match secret {
            Some(secret) => Ok(CredentialView::Password { secret }),
            None => Err(AuthErrorView::MissingSecret),
        }
    } else if method == "key"@ {
        match key_path {
            Some(path) => if file_exists {
                Ok(CredentialView::PrivateKey { path, passphrase: None })
            } else {
                Err(AuthErrorView::FileNotFound(path))
            },
            None => Err(AuthErrorView::MissingPath),
        }
    } else if method == "public_key"@ {
        if !platform.public_key_files {
            Err(AuthErrorView::UnsupportedOnPlatform)
        } else {
            match public_key_path {
                Some(path) => if file_exists {
                    Ok(CredentialView::PublicKeyFile { path })
                } else {
                    Err(AuthErrorView::FileNotFound(path))
                },
                None => Err(AuthErrorView::MissingPath),
            }
        }
    } else if method == "agent"@ {
        if platform.agent {
            Ok(CredentialView::Agent)
        } else {
            Ok(CredentialView::KeyboardInteractive)
        }
    } else {
        Err(AuthErrorView::UnknownMethod(method))
    }
}

/// The path of the file that must exist for the method to resolve, if the
/// method depends on one.
pub fn required_file<'a>(
    auth_method: &str,
    key_file: Option<&'a str>,
    public_key_file: Option<&'a str>,
    platform: &Platform,
) -> (r: Option<&'a str>)
    ensures
        opt_chars(r) == referenced_file(
            auth_method@,
            opt_chars(key_file),
            opt_chars(public_key_file),
            *platform,
        ),
        r == if auth_method@ == "password"@ {
            None
        } else if auth_method@ == "key"@ {
            key_file
        } else if auth_method@ == "public_key"@ && platform.public_key_files {
            public_key_file
        } else {
            None
        },
{
    if str_eq(auth_method, "password") {
        None
    } else if str_eq(auth_method, "key") {
        key_file
    } else if str_eq(auth_method, "public_key") && platform.public_key_files {
        public_key_file
    } else {
        None
    }
}

/// Resolves a method and its inputs into a credential. `file_exists` says
/// whether the file named by `required_file` exists; it is not looked at when
/// the method depends on no file.
pub fn resolve(
    auth_method: &str,
    password: Option<&str>,
    key_file: Option<&str>,
    public_key_file: Option<&str>,
    platform: &Platform,
    file_exists: bool,
) -> (r: Result<CredentialSpec, AuthError>)
    ensures
        outcome(r) == resolution(
            auth_method@,
            opt_chars(password),
            opt_chars(key_file),
            opt_chars(public_key_file),
            *platform,
            file_exists,
        ),
{
    if str_eq(auth_method, "password") {
        match password {
            Some(secret) => Ok(CredentialSpec::Password { secret: secret.to_string() }),
            None => Err(AuthError::MissingSecret),
        }
    } else if str_eq(auth_method, "key") {
        match key_file {
            Some(path) => if file_exists {
                Ok(CredentialSpec::PrivateKey { path: path.to_string(), passphrase: None })
            } else {
                Err(AuthError::FileNotFound(path.to_string()))
            },
            None => Err(AuthError::MissingPath),
        }
    } else if str_eq(auth_method, "public_key") {
        if !platform.public_key_files {
            Err(AuthError::UnsupportedOnPlatform)
        } else {
            match public_key_file {
                Some(path) => if file_exists {
                    Ok(CredentialSpec::PublicKeyFile { path: path.to_string() })
                } else {
                    Err(AuthError::FileNotFound(path.to_string()))
                },
                None => Err(AuthError::MissingPath),
            }
        }
    } else if str_eq(auth_method, "agent") {
        if platform.agent {
            Ok(CredentialSpec::Agent)
        } else {
            Ok(CredentialSpec::KeyboardInteractive)
        }
    } else {
        Err(AuthError::UnknownMethod(auth_method.to_string()))
    }
}

/// `Path::exists` of std: whether the path points at something that exists on
/// the local file system at the time of the call. The answer is taken as it
/// comes: nothing is claimed of it.
#[verifier::external_body]
fn path_exists(path: &str) -> bool {
    std::path::Path::new(path).exists()
}

/// Whether `result` is what the method and its inputs resolve to, be the file
/// that the method depends on there or not.
pub open spec fn resolves_to(
    result: Result<CredentialView, AuthErrorView>,
    method: Seq<char>,
    secret: Option<Seq<char>>,
    key_path: Option<Seq<char>>,
    public_key_path: Option<Seq<char>>,
    platform: Platform,
) -> bool {
    ||| result == resolution(method, secret, key_path, public_key_path, platform, true)
    ||| result == resolution(method, secret, key_path, public_key_path, platform, false)
}

/// Resolves a method and its inputs into a credential, looking on the local
/// file system for the key file where the method depends on one, and only
/// then.
pub fn build_auth_method(
    auth_method: &str,
    password: Option<&str>,
    key_file: Option<&str>,
    public_key_file: Option<&str>,
    platform: &Platform,
) -> (r: Result<CredentialSpec, AuthError>)
    ensures
        resolves_to(
            outcome(r),
            auth_method@,
            opt_chars(password),
            opt_chars(key_file),
            opt_chars(public_key_file),
            *platform,
        ),
        referenced_file(
            auth_method@,
            opt_chars(key_file),
            opt_chars(public_key_file),
            *platform,
        ) is None ==> outcome(r) == resolution(
            auth_method@,
            opt_chars(password),
            opt_chars(key_file),
            opt_chars(public_key_file),
            *platform,
            false,
        ),
{
    let file_exists = match required_file(auth_method, key_file, public_key_file, platform) {
        Some(path) => path_exists(path),
        None => false,
    };
    resolve(auth_method, password, key_file, public_key_file, platform, file_exists)
}

/// Whether every input that the method needs is there: the password for
/// `password`, the path of the key file for `key` and for `public_key`.
pub open spec fn inputs_present(
    method: Seq<char>,
    secret: Option<Seq<char>>,
    key_path: Option<Seq<char>>,
    public_key_path: Option<Seq<char>>,
) -> bool {
    if method == "password"@ {
        secret is Some
    } else if method == "key"@ {
        key_path is Some
    } else if method == "public_key"@ {
        public_key_path is Some
    } else {
        true
    }
}

/// Whether the platform offers the method. A method that the library does not
/// know is offered nowhere; `agent` is offered everywhere, by the agent or by
/// the keyboard.
pub open spec fn method_offered(method: Seq<char>, platform: Platform) -> bool {
    ||| method == "password"@
    ||| method == "key"@
    ||| method == "public_key"@ && platform.public_key_files
    ||| method == "agent"@
}

/// Resolving succeeds exactly when the platform offers the method, the inputs
/// that it needs are there, and the file that it depends on, if any, exists.
pub proof fn lemma_resolution_succeeds(
    method: Seq<char>,
    secret: Option<Seq<char>>,
    key_path: Option<Seq<char>>,
    public_key_path: Option<Seq<char>>,
    platform: Platform,
    file_exists: bool,
)
    ensures
        resolution(method, secret, key_path, public_key_path, platform, file_exists) is Ok <==> {
            &&& method_offered(method, platform)
            &&& inputs_present(method, secret, key_path, public_key_path)
            &&& referenced_file(method, key_path, public_key_path, platform) is Some
                ==> file_exists
        },
{
    reveal_strlit("password");
    reveal_strlit("key");
    reveal_strlit("public_key");
    reveal_strlit("agent");
    assert("password"@.len() == 8);
    assert("key"@.len() == 3);
    assert("public_key"@.len() == 10);
    assert("agent"@.len() == 5);
}

/// Where the method depends on no file, what is on the file system does not
/// change what resolving gives.
pub proof fn lemma_resolution_ignores_absent_file(
    method: Seq<char>,
    secret: Option<Seq<char>>,
    key_path: Option<Seq<char>>,
    public_key_path: Option<Seq<char>>,
    platform: Platform,
)
    requires
        referenced_file(method, key_path, public_key_path, platform) is None,
    ensures
        resolution(method, secret, key_path, public_key_path, platform, true) == resolution(
            method,
            secret,
            key_path,
            public_key_path,
            platform,
            false,
        ),
{
}

} // verus!
