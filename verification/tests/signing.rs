use release_assets::executor::Failure;
use release_assets::gpg::{
    delete_key, delete_public_args, delete_secret_args, import_args, import_key, sign, sign_args,
    Deletion, GpgError,
};
use release_assets::process::ProcessOutput;
use release_assets::signing::{Action, SignRun, Stage};

fn output(success: bool, stdout: &[u8], stderr: &[u8]) -> ProcessOutput {
    ProcessOutput { success, stdout: stdout.to_vec(), stderr: stderr.to_vec() }
}

const IMPORTED: &[u8] = b"sec:-:255:22:0123456789ABCDEF:1650000000:::-:::scESC:::+::ed25519:::0:\n\
fpr:::::::::AAAABBBBCCCCDDDDEEEEFFFF0123456789ABCDEF:\n\
uid:-::::1650000000::0000::Someone <someone@example.com>::::::::::0:\n\
fpr:::::::::1111222233334444555566667777888899990000:\n";

const KEY: &str = "AAAABBBBCCCCDDDDEEEEFFFF0123456789ABCDEF";

fn strings(args: &[&str]) -> Vec<String> {
    args.iter().map(|arg| (*arg).to_owned()).collect()
}

#[test]
fn import_reads_the_first_fingerprint() {
    let key = import_key(output(true, IMPORTED, b"")).unwrap();
    assert_eq!(key.as_str(), KEY);
}

#[test]
fn import_trims_colons_on_both_sides() {
    assert_eq!(import_key(output(true, b"fpr:::AB:CD::", b"")).unwrap().as_str(), "AB:CD");
    assert_eq!(import_key(output(true, b"fpr:ABCD\n", b"")).unwrap().as_str(), "ABCD");
    assert_eq!(import_key(output(true, b"fpr:", b"")).unwrap().as_str(), "");
    assert_eq!(import_key(output(true, b"fpr::::\r\n", b"")).unwrap().as_str(), "");
    assert_eq!(import_key(output(true, b"x\r\nfpr:AB\r\n", b"")).unwrap().as_str(), "AB");
    assert_eq!(import_key(output(true, b"fpr:AB\r", b"")).unwrap().as_str(), "AB\r");
    assert_eq!(import_key(output(true, b"\n\nfpr: k\xc3\xa4y :\n", b"")).unwrap().as_str(), " k\u{e4}y ");
}

#[test]
fn import_failures() {
    match import_key(output(false, IMPORTED, b"no secret key")) {
        Err(GpgError::Import { diagnostic }) => assert_eq!(diagnostic, b"no secret key"),
        other => panic!("{other:?}"),
    }
    assert!(matches!(import_key(output(true, b"", b"")), Err(GpgError::NoKeyId)));
    assert!(matches!(import_key(output(true, b"sec:1\nuid:2\n", b"")), Err(GpgError::NoKeyId)));
    assert!(matches!(import_key(output(true, b" fpr:AB\nFPR:CD\nfp:r\n", b"")), Err(GpgError::NoKeyId)));
    assert!(matches!(import_key(output(true, b"\xff\nfpr:AB\n", b"")), Err(GpgError::Unreadable)));
    assert!(matches!(import_key(output(true, b"fpr:\xff\n", b"")), Err(GpgError::Unreadable)));
    // A line after the fingerprint is never looked at.
    assert_eq!(import_key(output(true, b"fpr:AB\n\xff\n", b"")).unwrap().as_str(), "AB");
}

#[test]
fn arguments() {
    let key = import_key(output(true, IMPORTED, b"")).unwrap();
    assert_eq!(
        import_args(None, "/tmp/key.asc"),
        strings(&[
            "--import",
            "--batch",
            "--with-colons",
            "--yes",
            "--pinentry-mode",
            "loopback",
            "--import-options",
            "import-show",
            "/tmp/key.asc",
        ])
    );
    assert_eq!(
        import_args(Some("secret"), "key"),
        strings(&[
            "--import",
            "--batch",
            "--with-colons",
            "--yes",
            "--pinentry-mode",
            "loopback",
            "--import-options",
            "import-show",
            "--passphrase",
            "secret",
            "key",
        ])
    );
    assert_eq!(
        delete_secret_args(&key),
        strings(&[
            "--delete-secret-keys",
            "--batch",
            "--with-colons",
            "--yes",
            "--pinentry-mode",
            "loopback",
            KEY,
        ])
    );
    assert_eq!(
        delete_public_args(&key),
        strings(&["--delete-keys", "--batch", "--with-colons", "--yes", "--pinentry-mode", "loopback", KEY])
    );
    assert_eq!(
        sign_args(&key, None),
        strings(&[
            "--detach-sign",
            "--batch",
            "--with-colons",
            "--yes",
            "--pinentry-mode",
            "loopback",
            "--armor",
            "--output",
            "-",
            "--local-user",
            KEY,
            "-",
        ])
    );
    assert_eq!(
        sign_args(&key, Some("secret")),
        strings(&[
            "--detach-sign",
            "--batch",
            "--with-colons",
            "--yes",
            "--pinentry-mode",
            "loopback",
            "--armor",
            "--output",
            "-",
            "--local-user",
            KEY,
            "--passphrase",
            "secret",
            "-",
        ])
    );
}

#[test]
fn signature_is_named_after_the_file() {
    let signed = sign("checksums.sha256", output(true, b"-----BEGIN PGP SIGNATURE-----", b"note"));
    assert_eq!(
        signed.unwrap(),
        ("checksums.sha256.asc".to_owned(), b"-----BEGIN PGP SIGNATURE-----".to_vec())
    );
    match sign("checksums.b2", output(false, b"partial", b"no default secret key")) {
        Err(GpgError::Sign { name, diagnostic }) => {
            assert_eq!(name, "checksums.b2");
            assert_eq!(diagnostic, b"no default secret key");
        }
        other => panic!("{other:?}"),
    }
}

#[test]
fn key_parts_are_deleted_in_order() {
    assert_eq!(delete_key(Deletion::Secret, output(true, b"", b"")).unwrap(), Deletion::Public);
    assert_eq!(delete_key(Deletion::Public, output(true, b"", b"")).unwrap(), Deletion::Done);
    assert_eq!(delete_key(Deletion::Done, output(false, b"", b"")).unwrap(), Deletion::Done);
    match delete_key(Deletion::Secret, output(false, b"", b"locked")) {
        Err(GpgError::DeleteSecret { diagnostic }) => assert_eq!(diagnostic, b"locked"),
        other => panic!("{other:?}"),
    }
    match delete_key(Deletion::Public, output(false, b"", b"gone")) {
        Err(GpgError::DeletePublic { diagnostic }) => assert_eq!(diagnostic, b"gone"),
        other => panic!("{other:?}"),
    }
}

fn signature(name: &str) -> Result<(String, Vec<u8>), Failure> {
    Ok((format!("{name}.asc"), format!("signature of {name}").into_bytes()))
}

fn failed(name: &str) -> Result<(String, Vec<u8>), Failure> {
    Err(Failure { asset: name.to_owned(), cause: "gpg: signing failed".to_owned() })
}

#[test]
fn one_failed_file_does_not_keep_the_others_from_being_published() {
    let mut run = SignRun::new();
    assert_eq!(run.stage(), Stage::Importing);
    assert_eq!(run.imported(output(true, IMPORTED, b"")), Action::SignFiles);
    assert_eq!(run.key().unwrap().as_str(), KEY);
    let action = run.signed(vec![signature("a.b2"), failed("a.sha256"), signature("a.sha512")]);
    assert_eq!(action, Action::DeleteSecretKey);
    assert_eq!(run.deleted(output(true, b"", b"")), Action::DeletePublicKey);
    assert_eq!(run.deleted(output(true, b"", b"")), Action::Publish);
    assert_eq!(run.stage(), Stage::Publishing);
    let names: Vec<&str> = run.signatures().iter().map(|(name, _)| name.as_str()).collect();
    assert_eq!(names, vec!["a.b2.asc", "a.sha512.asc"]);
    assert_eq!(run.signatures()[1].1, b"signature of a.sha512");
    assert_eq!(run.published(vec![Ok(()), Ok(())]), Action::Finish);
    assert_eq!(run.stage(), Stage::Finished);
    assert_eq!(run.unsigned().len(), 1);
    assert_eq!(run.unsigned()[0].asset, "a.sha256");
    assert!(run.unpublished().is_empty());
    assert!(run.fatal().is_none());
    assert!(!run.succeeded());
}

#[test]
fn the_key_is_deleted_whatever_signing_gave() {
    for results in [
        vec![signature("a"), failed("b")],
        vec![failed("a"), failed("b")],
        vec![signature("a"), signature("b")],
        Vec::new(),
    ] {
        let mut run = SignRun::new();
        assert_eq!(run.imported(output(true, IMPORTED, b"")), Action::SignFiles);
        assert_eq!(run.stage(), Stage::Signing);
        assert_eq!(run.signed(results), Action::DeleteSecretKey);
        assert_eq!(run.stage(), Stage::DeletingSecret);
        assert_eq!(run.key().unwrap().as_str(), KEY);
        assert_eq!(run.deleted(output(true, b"", b"")), Action::DeletePublicKey);
        assert_eq!(run.stage(), Stage::DeletingPublic);
        assert_eq!(run.deleted(output(true, b"", b"")), Action::Publish);
    }
}

#[test]
fn a_run_in_which_everything_works_succeeds() {
    let mut run = SignRun::new();
    assert!(!run.succeeded());
    run.imported(output(true, IMPORTED, b""));
    run.signed(vec![signature("a"), signature("b")]);
    run.deleted(output(true, b"", b""));
    run.deleted(output(true, b"", b""));
    assert!(!run.succeeded());
    run.published(vec![Ok(()), Ok(())]);
    assert!(run.succeeded());
    assert!(run.unsigned().is_empty());
    assert!(run.unpublished().is_empty());
}

#[test]
fn a_failed_import_ends_the_run() {
    let mut run = SignRun::new();
    assert_eq!(run.imported(output(false, b"", b"bad key")), Action::Finish);
    assert_eq!(run.stage(), Stage::Finished);
    assert!(run.key().is_none());
    assert!(matches!(run.fatal(), Some(GpgError::Import { .. })));
    assert!(!run.succeeded());
    let mut run = SignRun::new();
    assert_eq!(run.imported(output(true, b"nothing here", b"")), Action::Finish);
    assert!(matches!(run.fatal(), Some(GpgError::NoKeyId)));
}

#[test]
fn a_key_that_cannot_be_deleted_ends_the_run_before_publishing() {
    let mut run = SignRun::new();
    run.imported(output(true, IMPORTED, b""));
    run.signed(vec![signature("a")]);
    assert_eq!(run.deleted(output(false, b"", b"locked")), Action::Finish);
    assert_eq!(run.stage(), Stage::Finished);
    assert!(matches!(run.fatal(), Some(GpgError::DeleteSecret { .. })));
    assert_eq!(run.signatures().len(), 1);

    let mut run = SignRun::new();
    run.imported(output(true, IMPORTED, b""));
    run.signed(vec![signature("a")]);
    run.deleted(output(true, b"", b""));
    assert_eq!(run.deleted(output(false, b"", b"locked")), Action::Finish);
    assert!(matches!(run.fatal(), Some(GpgError::DeletePublic { .. })));
    assert!(!run.succeeded());
}

#[test]
fn signatures_that_are_not_published_are_reported() {
    let mut run = SignRun::new();
    run.imported(output(true, IMPORTED, b""));
    run.signed(vec![failed("x"), signature("a"), signature("b")]);
    run.deleted(output(true, b"", b""));
    run.deleted(output(true, b"", b""));
    let unpublished = Failure { asset: "b.asc".to_owned(), cause: "502".to_owned() };
    run.published(vec![Ok(()), Err(unpublished)]);
    let unsigned: Vec<&str> = run.unsigned().iter().map(|failure| failure.asset.as_str()).collect();
    assert_eq!(unsigned, vec!["x"]);
    let unpublished: Vec<&str> =
        run.unpublished().iter().map(|failure| failure.asset.as_str()).collect();
    assert_eq!(unpublished, vec!["b.asc"]);
    assert!(!run.succeeded());
}
