use remote_explorer::auth::{
    build_auth_method, required_file, resolve, AuthError, CredentialSpec, Platform,
};

const MISSING: &str = "/nonexistent/remote_explorer/id_ed25519";
const PRESENT: &str = "/";

#[test]
fn password_needs_a_secret() {
    let platform = Platform::unix();
    assert_eq!(
        resolve("password", Some("hunter2"), None, None, &platform, false),
        Ok(CredentialSpec::Password { secret: "hunter2".to_string() })
    );
    assert_eq!(
        resolve("password", None, Some("k"), Some("p"), &platform, true),
        Err(AuthError::MissingSecret)
    );
    assert_eq!(
        resolve("password", Some(""), None, None, &platform, false),
        Ok(CredentialSpec::Password { secret: String::new() })
    );
}

#[test]
fn key_needs_a_path_and_the_file() {
    let platform = Platform::unix();
    assert_eq!(
        resolve("key", None, Some("/home/a/.ssh/id"), None, &platform, true),
        Ok(CredentialSpec::PrivateKey { path: "/home/a/.ssh/id".to_string(), passphrase: None })
    );
    assert_eq!(
        resolve("key", Some("pw"), Some("/home/a/.ssh/id"), None, &platform, false),
        Err(AuthError::FileNotFound("/home/a/.ssh/id".to_string()))
    );
    assert_eq!(resolve("key", Some("pw"), None, Some("p"), &platform, true), Err(AuthError::MissingPath));
}

#[test]
fn public_key_depends_on_the_platform() {
    let full = Platform::unix();
    let bare = Platform::windows();
    assert_eq!(
        resolve("public_key", None, None, Some("/k.pub"), &full, true),
        Ok(CredentialSpec::PublicKeyFile { path: "/k.pub".to_string() })
    );
    assert_eq!(
        resolve("public_key", None, None, Some("/k.pub"), &full, false),
        Err(AuthError::FileNotFound("/k.pub".to_string()))
    );
    assert_eq!(resolve("public_key", None, Some("/k"), None, &full, true), Err(AuthError::MissingPath));
    assert_eq!(
        resolve("public_key", None, None, Some("/k.pub"), &bare, true),
        Err(AuthError::UnsupportedOnPlatform)
    );
    assert_eq!(resolve("public_key", None, None, None, &bare, false), Err(AuthError::UnsupportedOnPlatform));
}

#[test]
fn agent_falls_back_to_the_keyboard_where_there_is_none() {
    assert_eq!(resolve("agent", None, None, None, &Platform::unix(), false), Ok(CredentialSpec::Agent));
    assert_eq!(
        resolve("agent", None, None, None, &Platform::windows(), false),
        Ok(CredentialSpec::KeyboardInteractive)
    );
    let mixed = Platform { public_key_files: false, agent: true };
    assert_eq!(resolve("agent", Some("x"), Some("y"), Some("z"), &mixed, true), Ok(CredentialSpec::Agent));
}

#[test]
fn unknown_method_is_named_in_the_error() {
    let platform = Platform::unix();
    for method in ["", "Password", "kerberos", "agent ", "publickey"] {
        assert_eq!(
            resolve(method, Some("s"), Some("k"), Some("p"), &platform, true),
            Err(AuthError::UnknownMethod(method.to_string()))
        );
    }
}

#[test]
fn required_file_is_named_only_for_methods_that_use_one() {
    let full = Platform::unix();
    let bare = Platform::windows();
    assert_eq!(required_file("password", Some("k"), Some("p"), &full), None);
    assert_eq!(required_file("agent", Some("k"), Some("p"), &full), None);
    assert_eq!(required_file("nonsense", Some("k"), Some("p"), &full), None);
    assert_eq!(required_file("key", Some("k"), Some("p"), &full), Some("k"));
    assert_eq!(required_file("key", None, Some("p"), &full), None);
    assert_eq!(required_file("public_key", Some("k"), Some("p"), &full), Some("p"));
    assert_eq!(required_file("public_key", Some("k"), Some("p"), &bare), None);
}

#[test]
fn the_result_does_not_depend_on_the_disk_where_no_file_is_used() {
    let platform = Platform::unix();
    for method in ["password", "agent", "other"] {
        for secret in [None, Some("s")] {
            assert_eq!(
                resolve(method, secret, Some(MISSING), Some(MISSING), &platform, true),
                resolve(method, secret, Some(MISSING), Some(MISSING), &platform, false)
            );
            assert_eq!(
                build_auth_method(method, secret, Some(MISSING), Some(MISSING), &platform),
                resolve(method, secret, Some(MISSING), Some(MISSING), &platform, true)
            );
        }
    }
}

#[test]
fn build_auth_method_looks_for_the_key_file() {
    let platform = Platform::unix();
    assert_eq!(
        build_auth_method("key", None, Some(MISSING), None, &platform),
        Err(AuthError::FileNotFound(MISSING.to_string()))
    );
    assert_eq!(
        build_auth_method("key", None, Some(PRESENT), None, &platform),
        Ok(CredentialSpec::PrivateKey { path: PRESENT.to_string(), passphrase: None })
    );
    assert_eq!(
        build_auth_method("public_key", None, None, Some(MISSING), &platform),
        Err(AuthError::FileNotFound(MISSING.to_string()))
    );
    assert_eq!(
        build_auth_method("public_key", None, None, Some(PRESENT), &platform),
        Ok(CredentialSpec::PublicKeyFile { path: PRESENT.to_string() })
    );
    assert_eq!(build_auth_method("key", None, None, None, &platform), Err(AuthError::MissingPath));
    assert_eq!(
        build_auth_method("password", Some("pw"), None, None, &platform),
        Ok(CredentialSpec::Password { secret: "pw".to_string() })
    );
    assert_eq!(
        build_auth_method("public_key", None, None, Some(PRESENT), &Platform::windows()),
        Err(AuthError::UnsupportedOnPlatform)
    );
}

#[test]
fn auth_errors_have_their_messages() {
    assert_eq!(AuthError::MissingSecret.message(), "Password not provided");
    assert_eq!(AuthError::MissingPath.message(), "Key file path not provided");
    assert_eq!(AuthError::FileNotFound("/k".to_string()).message(), "Key file not found: /k");
    assert_eq!(
        AuthError::UnsupportedOnPlatform.message(),
        "Authentication method not supported on this platform"
    );
    assert_eq!(
        AuthError::UnknownMethod("kerberos".to_string()).message(),
        "Unknown authentication method: kerberos"
    );
}
