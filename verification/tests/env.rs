use release_assets::env::{github, parse, EnvError, GithubArgs};
use release_assets::options::{
    default_globs, default_signature_globs, split_list, BuildOptions, HashOptions, SignOptions,
};
use release_assets::toolchain::{Channel, Toolchain};

fn pairs(vars: &[(&str, &str)]) -> Vec<(String, String)> {
    vars.iter().map(|(name, value)| ((*name).to_owned(), (*value).to_owned())).collect()
}

#[test]
fn github_reads_the_three_settings() {
    let args = github(pairs(&[
        ("PATH", "/usr/bin"),
        ("GITHUB_REPOSITORY", "owner/name"),
        ("GITHUB_TOKEN", "SECRET-REDACTED"),
        ("INPUT_GLOBS", "*.zip"),
        ("GITHUB_REF_NAME", "v1.2.3"),
        ("GITHUB_SHA", "0123"),
    ]))
    .unwrap();
    assert_eq!(args.token, "SECRET-REDACTED");
    assert_eq!(args.repository, "owner/name");
    assert_eq!(args.ref_name, "v1.2.3");
}

#[test]
fn github_reports_the_first_missing_setting() {
    match github(pairs(&[("GITHUB_REF_NAME", "v1")])) {
        Err(EnvError::Missing { field }) => assert_eq!(field, "token"),
        other => panic!("{other:?}"),
    }
    match github(pairs(&[("GITHUB_TOKEN", "t"), ("GITHUB_REF_NAME", "v1")])) {
        Err(EnvError::Missing { field }) => assert_eq!(field, "repository"),
        other => panic!("{other:?}"),
    }
    match github(pairs(&[("GITHUB_TOKEN", "t"), ("GITHUB_REPOSITORY", "o/n")])) {
        Err(EnvError::Missing { field }) => assert_eq!(field, "ref_name"),
        other => panic!("{other:?}"),
    }
    assert!(matches!(github(Vec::new()), Err(EnvError::Missing { field: "token" })));
}

#[test]
fn an_empty_value_counts_as_unset() {
    match github(pairs(&[
        ("GITHUB_TOKEN", ""),
        ("GITHUB_REPOSITORY", "o/n"),
        ("GITHUB_REF_NAME", "v1"),
    ])) {
        Err(EnvError::Missing { field }) => assert_eq!(field, "token"),
        other => panic!("{other:?}"),
    }
}

#[test]
fn names_are_matched_without_regard_to_case() {
    let args = github(pairs(&[
        ("GITHUB_token", "t"),
        ("GITHUB_Repository", "o/n"),
        ("GITHUB_REF_name", "v1"),
        ("github_token", "not this one"),
    ]))
    .unwrap();
    assert_eq!(args.token, "t");
    assert_eq!(args.repository, "o/n");
    assert_eq!(args.ref_name, "v1");
}

#[test]
fn a_setting_that_is_given_twice_is_an_error() {
    match github(pairs(&[
        ("GITHUB_TOKEN", "t"),
        ("GITHUB_REPOSITORY", "o/n"),
        ("GITHUB_token", "u"),
        ("GITHUB_REF_NAME", "v1"),
    ])) {
        Err(EnvError::Duplicate { field }) => assert_eq!(field, "token"),
        other => panic!("{other:?}"),
    }
    // An empty value is no second value.
    assert!(github(pairs(&[
        ("GITHUB_TOKEN", "t"),
        ("GITHUB_REPOSITORY", "o/n"),
        ("GITHUB_token", ""),
        ("GITHUB_REF_NAME", "v1"),
    ]))
    .is_ok());
    // Other names may repeat.
    assert!(github(pairs(&[
        ("GITHUB_TOKEN", "t"),
        ("GITHUB_X", "1"),
        ("GITHUB_REPOSITORY", "o/n"),
        ("GITHUB_x", "2"),
        ("GITHUB_REF_NAME", "v1"),
    ]))
    .is_ok());
}

#[test]
fn parse_strips_the_prefix_and_lowers_the_name() {
    let entries = parse(
        "INPUT_",
        pairs(&[
            ("INPUT_GLOBS", "*.zip"),
            ("OUTPUT_GLOBS", "x"),
            ("INPUT_EMPTY", ""),
            ("INPUT_Gpg_Key", "k"),
            ("INPUT_INPUT_BIN", "b"),
            ("input_bin", "c"),
        ]),
    )
    .unwrap();
    assert_eq!(entries, pairs(&[("globs", "*.zip"), ("gpg_key", "k"), ("bin", "b")]));
    assert!(parse("INPUT_", Vec::new()).unwrap().is_empty());
}

#[test]
fn from_entries_reads_fields_by_name() {
    let args = GithubArgs::from_entries(&pairs(&[
        ("ref_name", "v1"),
        ("other", "x"),
        ("token", "t"),
        ("repository", "o/n"),
    ]))
    .unwrap();
    assert_eq!((args.token.as_str(), args.repository.as_str(), args.ref_name.as_str()), ("t", "o/n", "v1"));
    // A repeated field is reported before a missing one.
    match GithubArgs::from_entries(&pairs(&[("ref_name", "v1"), ("ref_name", "v2")])) {
        Err(EnvError::Duplicate { field }) => assert_eq!(field, "ref_name"),
        other => panic!("{other:?}"),
    }
    // Names are compared as they are.
    assert!(matches!(
        GithubArgs::from_entries(&pairs(&[("TOKEN", "t")])),
        Err(EnvError::Missing { field: "token" })
    ));
}

#[test]
fn lists_are_split_at_commas() {
    assert_eq!(split_list("a,b"), vec!["a", "b"]);
    assert_eq!(split_list("*.tar.gz,*.zip"), vec!["*.tar.gz", "*.zip"]);
    assert_eq!(split_list("single"), vec!["single"]);
    assert_eq!(split_list(""), Vec::<String>::new());
    assert_eq!(split_list(","), vec!["", ""]);
    assert_eq!(split_list("a,"), vec!["a", ""]);
    assert_eq!(split_list(",a"), vec!["", "a"]);
    assert_eq!(split_list("a,,b"), vec!["a", "", "b"]);
    assert_eq!(split_list(" a , b "), vec![" a ", " b "]);
    assert_eq!(split_list("\u{e4},\u{f6}\u{fc}"), vec!["\u{e4}", "\u{f6}\u{fc}"]);
    assert_eq!(split_list("*.{b2,sha256}"), vec!["*.{b2", "sha256}"]);
}

#[test]
fn default_patterns() {
    assert_eq!(default_globs(), vec!["*.tar.gz", "*.zip"]);
    assert_eq!(default_signature_globs(), vec!["*.{b2,sha256,sha512}"]);
    assert_eq!(HashOptions::from_entries(&Vec::new()).unwrap().globs, vec!["*.tar.gz", "*.zip"]);
}

#[test]
fn hash_options() {
    let options = HashOptions::from_entries(&pairs(&[("x", "y"), ("globs", "*.deb,*.rpm")])).unwrap();
    assert_eq!(options.globs, vec!["*.deb", "*.rpm"]);
    match HashOptions::from_entries(&pairs(&[("globs", "a"), ("globs", "b")])) {
        Err(EnvError::Duplicate { field }) => assert_eq!(field, "globs"),
        other => panic!("{other:?}"),
    }
}

#[test]
fn sign_options() {
    let options = SignOptions::from_entries(&pairs(&[("gpg_key", "KEY")])).unwrap();
    assert_eq!(options.gpg_key, "KEY");
    assert_eq!(options.gpg_passphrase, None);
    assert_eq!(options.globs, vec!["*.{b2,sha256,sha512}"]);
    let options = SignOptions::from_entries(&pairs(&[
        ("globs", "*.sig,*.txt"),
        ("gpg_passphrase", "secret"),
        ("gpg_key", "KEY"),
    ]))
    .unwrap();
    assert_eq!(options.gpg_passphrase.as_deref(), Some("secret"));
    assert_eq!(options.globs, vec!["*.sig", "*.txt"]);
    assert!(matches!(
        SignOptions::from_entries(&pairs(&[("gpg_passphrase", "secret")])),
        Err(EnvError::Missing { field: "gpg_key" })
    ));
    match SignOptions::from_entries(&pairs(&[("gpg_passphrase", "a"), ("gpg_passphrase", "b")])) {
        Err(EnvError::Duplicate { field }) => assert_eq!(field, "gpg_passphrase"),
        other => panic!("{other:?}"),
    }
}

#[test]
fn build_options() {
    let options = BuildOptions::from_entries(&pairs(&[("bin", "app")])).unwrap();
    assert_eq!(options.bin, "app");
    assert_eq!(options.toolchain, Toolchain::channel(Channel::Stable));
    assert_eq!(options.target, None);
    assert!(options.features.is_empty());
    let options = BuildOptions::from_entries(&pairs(&[
        ("features", "tls,cli"),
        ("target", "aarch64-unknown-linux-gnu"),
        ("bin", "app"),
        ("toolchain", "1.58.1"),
    ]))
    .unwrap();
    assert_eq!(options.features, vec!["tls", "cli"]);
    assert_eq!(options.target.unwrap().to_string(), "aarch64-unknown-linux-gnu");
    assert_eq!(
        options.toolchain,
        Toolchain::channel(Channel::Full { major: 1, minor: 58, patch: 1 })
    );
    assert!(matches!(
        BuildOptions::from_entries(&pairs(&[("toolchain", "nightly")])),
        Err(EnvError::Missing { field: "bin" })
    ));
    assert!(matches!(
        BuildOptions::from_entries(&pairs(&[("toolchain", "oldest"), ("target", "nonsense")])),
        Err(EnvError::Invalid { field: "toolchain" })
    ));
    assert!(matches!(
        BuildOptions::from_entries(&pairs(&[("target", "nonsense")])),
        Err(EnvError::Invalid { field: "target" })
    ));
    match BuildOptions::from_entries(&pairs(&[("bin", "a"), ("target", "nonsense"), ("bin", "b")])) {
        Err(EnvError::Duplicate { field }) => assert_eq!(field, "bin"),
        other => panic!("{other:?}"),
    }
}
