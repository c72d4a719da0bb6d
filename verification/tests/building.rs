use release_assets::apt;
use release_assets::archive::{pack, tar_gz, zip, ArchiveError};
use release_assets::cargo::{join, BuildError, BuildMessage, BuildWatch, CargoBuilder};
use release_assets::process::{contains, read_lines, CommandError, ProcessOutput};
use release_assets::rustup;
use release_assets::toolchain::{Channel, Toolchain};
use release_assets::triple::TripleExt;
use std::io::Read;
use target_lexicon::Triple;

fn triple(text: &str) -> Triple {
    text.parse().unwrap()
}

fn strings(items: &[&str]) -> Vec<String> {
    items.iter().map(|item| (*item).to_owned()).collect()
}

fn pairs(items: &[(&str, &str)]) -> Vec<(String, String)> {
    items.iter().map(|(name, value)| ((*name).to_owned(), (*value).to_owned())).collect()
}

fn output(success: bool, stdout: &[u8], stderr: &[u8]) -> ProcessOutput {
    ProcessOutput { success, stdout: stdout.to_vec(), stderr: stderr.to_vec() }
}

#[test]
fn toolchain_packages() {
    for (target, package, compiler) in [
        ("aarch64-unknown-linux-gnu", Some("gcc-aarch64-linux-gnu"), Some("aarch64-linux-gnu-gcc")),
        ("aarch64-unknown-linux-musl", Some("gcc-aarch64-linux-gnu"), Some("aarch64-linux-gnu-gcc")),
        ("arm-unknown-linux-gnueabi", Some("gcc-arm-linux-gnueabi"), Some("arm-linux-gnueabi-gcc")),
        ("arm-unknown-linux-musleabi", Some("gcc-arm-linux-gnueabi"), Some("arm-linux-gnueabi-gcc")),
        (
            "armv7-unknown-linux-gnueabihf",
            Some("gcc-arm-linux-gnueabihf"),
            Some("arm-linux-gnueabihf-gcc"),
        ),
        (
            "armv7-unknown-linux-musleabihf",
            Some("gcc-arm-linux-gnueabihf"),
            Some("arm-linux-gnueabihf-gcc"),
        ),
        ("thumbv7em-none-eabi", Some("gcc-arm-none-eabi"), Some("arm-none-eabi-gcc")),
        ("x86_64-unknown-linux-musl", Some("musl-tools"), Some("musl-gcc")),
        ("i686-unknown-linux-musl", Some("musl-tools"), Some("musl-gcc")),
        ("x86_64-unknown-linux-gnu", None, None),
        ("i686-unknown-linux-gnu", None, None),
        ("x86_64-pc-windows-msvc", None, None),
        ("x86_64-apple-darwin", None, None),
        ("aarch64-apple-darwin", None, None),
        ("thumbv7em-none-eabihf", None, None),
        ("arm-unknown-linux-gnu", None, None),
        ("riscv64gc-unknown-linux-gnu", None, None),
    ] {
        let target = triple(target);
        assert_eq!(target.apt_toolchain(), package, "{target}");
        assert_eq!(target.cc_compiler(), compiler, "{target}");
    }
}

#[test]
fn windows_targets() {
    assert!(triple("x86_64-pc-windows-msvc").is_windows());
    assert!(triple("i686-pc-windows-gnu").is_windows());
    assert!(triple("aarch64-pc-windows-msvc").is_windows());
    assert!(!triple("x86_64-unknown-linux-gnu").is_windows());
    assert!(!triple("x86_64-apple-darwin").is_windows());
}

#[test]
fn cargo_command() {
    let target = triple("x86_64-unknown-linux-gnu");
    let builder = CargoBuilder::new("app", &target, None);
    assert_eq!(
        builder.args(),
        &strings(&[
            "build",
            "--release",
            "--message-format",
            "json-render-diagnostics",
            "--bin",
            "app",
            "--target",
            "x86_64-unknown-linux-gnu",
        ])
    );
    assert_eq!(builder.envs(), &pairs(&[("RUSTFLAGS", "-C strip=symbols")]));
    let builder = CargoBuilder::new("app", &target, Some("-C target-cpu=native"));
    assert_eq!(builder.envs(), &pairs(&[("RUSTFLAGS", "-C target-cpu=native -C strip=symbols")]));
}

#[test]
fn cargo_compiler_and_features() {
    let target = triple("aarch64-unknown-linux-gnu");
    let builder = CargoBuilder::new("app", &target, None)
        .with_compiler(target.cc_compiler())
        .with_features(&strings(&["tls", "cli"]));
    assert_eq!(
        builder.envs(),
        &pairs(&[
            ("RUSTFLAGS", "-C strip=symbols"),
            ("CC_aarch64_unknown_linux_gnu", "aarch64-linux-gnu-gcc"),
            ("CARGO_TARGET_AARCH64_UNKNOWN_LINUX_GNU_LINKER", "aarch64-linux-gnu-gcc"),
        ])
    );
    assert_eq!(builder.args()[8..], strings(&["--features", "tls,cli"]));
    let plain = CargoBuilder::new("app", &target, None).with_compiler(None).with_features(&[]);
    assert_eq!(plain.envs().len(), 1);
    assert_eq!(plain.args().len(), 8);
    let one = CargoBuilder::new("app", &target, None).with_features(&strings(&["tls"]));
    assert_eq!(one.args()[8..], strings(&["--features", "tls"]));
}

#[test]
fn joining() {
    assert_eq!(join(&[], ","), "");
    assert_eq!(join(&strings(&["a"]), ","), "a");
    assert_eq!(join(&strings(&["a", "b", "c"]), ","), "a,b,c");
    assert_eq!(join(&strings(&["", ""]), ", "), ", ");
}

fn artifact(executable: Option<&str>, name: &str, kind: &[&str]) -> BuildMessage {
    BuildMessage::Artifact {
        executable: executable.map(str::to_owned),
        name: name.to_owned(),
        kind: strings(kind),
    }
}

#[test]
fn the_first_executable_of_the_binary_is_found() {
    let target = triple("x86_64-unknown-linux-gnu");
    let builder = CargoBuilder::new("app", &target, None);
    let messages = vec![
        BuildMessage::Text("Compiling".to_owned()),
        artifact(None, "app", &["bin"]),
        artifact(Some("/target/other"), "other", &["bin"]),
        artifact(Some("/target/libapp.so"), "app", &["cdylib"]),
        artifact(Some("/target/both"), "app", &["bin", "lib"]),
        artifact(Some("/target/app"), "app", &["bin"]),
        BuildMessage::Diagnostic("warning: unused".to_owned()),
        artifact(Some("/target/app-later"), "app", &["bin"]),
        BuildMessage::Other,
        BuildMessage::Finished { success: true },
    ];
    assert_eq!(builder.run(&messages), Ok("/target/app".to_owned()));
}

#[test]
fn build_failures() {
    let target = triple("x86_64-unknown-linux-gnu");
    let builder = CargoBuilder::new("app", &target, None);
    assert_eq!(builder.run(&Vec::new()), Err(BuildError::NoBinary));
    assert_eq!(
        builder.run(&vec![artifact(Some("/x"), "lib", &["bin"]), BuildMessage::Finished { success: true }]),
        Err(BuildError::NoBinary)
    );
    assert_eq!(
        builder.run(&vec![
            artifact(Some("/target/app"), "app", &["bin"]),
            BuildMessage::Finished { success: false },
        ]),
        Err(BuildError::BuildFailed)
    );
    assert_eq!(
        builder.run(&vec![BuildMessage::Finished { success: false }]),
        Err(BuildError::BuildFailed)
    );
}

#[test]
fn watch_hands_back_the_lines_to_show() {
    let mut watch = BuildWatch::new("app");
    assert_eq!(watch.observe(&BuildMessage::Text("plain".to_owned())), Some("plain"));
    assert_eq!(watch.observe(&BuildMessage::Diagnostic("error: x".to_owned())), Some("error: x"));
    assert_eq!(watch.observe(&artifact(Some("/app"), "app", &["bin"])), None);
    assert_eq!(watch.observe(&BuildMessage::Other), None);
    assert!(!watch.has_failed());
    assert_eq!(watch.observe(&BuildMessage::Finished { success: false }), None);
    assert!(watch.has_failed());
    assert_eq!(watch.finish(), Err(BuildError::BuildFailed));
    let mut watch = BuildWatch::new("app");
    watch.observe(&artifact(Some("/app"), "app", &["bin"]));
    watch.observe(&BuildMessage::Finished { success: true });
    assert_eq!(watch.finish(), Ok("/app".to_owned()));
}

#[test]
fn lines() {
    assert_eq!(read_lines(b"").unwrap(), Vec::<String>::new());
    assert_eq!(read_lines(b"a").unwrap(), vec!["a"]);
    assert_eq!(read_lines(b"a\n").unwrap(), vec!["a"]);
    assert_eq!(read_lines(b"a\nb").unwrap(), vec!["a", "b"]);
    assert_eq!(read_lines(b"a\r\nb\r\n").unwrap(), vec!["a", "b"]);
    assert_eq!(read_lines(b"\n").unwrap(), vec![""]);
    assert_eq!(read_lines(b"\n\n").unwrap(), vec!["", ""]);
    assert_eq!(read_lines(b"a\n\nb\n").unwrap(), vec!["a", "", "b"]);
    assert_eq!(read_lines(b"a\r").unwrap(), vec!["a\r"]);
    assert_eq!(read_lines(b"a\r\r\n").unwrap(), vec!["a\r"]);
    assert_eq!(read_lines(b"\r\n").unwrap(), vec![""]);
    assert_eq!(read_lines("\u{e4}\n\u{1f600}".as_bytes()).unwrap(), vec!["\u{e4}", "\u{1f600}"]);
    assert!(read_lines(b"a\n\xff\nb").is_none());
    assert!(read_lines(b"a\n\xc3").is_none());
    assert!(read_lines(b"\xc3\n\xa4").is_none());
}

#[test]
fn lines_are_those_of_the_standard_library() {
    for text in ["", "a", "a\n", "a\nb", "a\r\nb\r\n", "\n", "a\r", "a\r\r\n", "\r\n\r\n", "x\n\n\ny"] {
        let expected: Vec<String> =
            std::io::BufRead::lines(text.as_bytes()).map(|line| line.unwrap()).collect();
        assert_eq!(read_lines(text.as_bytes()).unwrap(), expected, "{text:?}");
    }
}

#[test]
fn membership() {
    let list = strings(&["gcc", "musl-tools", ""]);
    assert!(contains(&list, "musl-tools"));
    assert!(contains(&list, ""));
    assert!(!contains(&list, "musl"));
    assert!(!contains(&Vec::new(), "gcc"));
    assert!(apt::needs_install(&list, "clang"));
    assert!(!apt::needs_install(&list, "gcc"));
}

#[test]
fn apt_commands() {
    let command = apt::list_packages_command();
    assert_eq!(command.program, "sudo");
    assert_eq!(command.args, strings(&["apt-cache", "pkgnames"]));
    assert!(command.envs.is_empty());
    let command = apt::update_command();
    assert_eq!(command.program, "sudo");
    assert_eq!(command.args, strings(&["apt-get", "update"]));
    assert!(command.envs.is_empty());
    let command = apt::install_package_command("musl-tools");
    assert_eq!(command.program, "sudo");
    assert_eq!(command.args, strings(&["apt-get", "install", "--yes", "musl-tools"]));
    assert_eq!(command.envs, pairs(&[("DEBIAN_FRONTEND", "noninteractive")]));
}

#[test]
fn apt_answers() {
    assert_eq!(
        apt::list_packages(output(true, b"gcc\nmusl-tools\n", b"")).unwrap(),
        vec!["gcc", "musl-tools"]
    );
    match apt::list_packages(output(false, b"gcc\n", b"no sudo")) {
        Err(CommandError::Failed { diagnostic }) => assert_eq!(diagnostic, b"no sudo"),
        other => panic!("{other:?}"),
    }
    assert!(matches!(apt::list_packages(output(true, b"\xff", b"")), Err(CommandError::Unreadable)));
    assert!(apt::update(output(true, b"", b"")).is_ok());
    assert!(matches!(apt::update(output(false, b"", b"x")), Err(CommandError::Failed { .. })));
    assert!(apt::install_package(output(true, b"", b"")).is_ok());
    match apt::install_package(output(false, b"", b"E: Unable to locate package")) {
        Err(CommandError::Failed { diagnostic }) => assert_eq!(diagnostic, b"E: Unable to locate package"),
        other => panic!("{other:?}"),
    }
}

#[test]
fn rustup_commands() {
    let command = rustup::list_toolchains_command();
    assert_eq!(command.program, "rustup");
    assert_eq!(command.args, strings(&["toolchain", "list"]));
    let command = rustup::list_targets_command();
    assert_eq!(command.args, strings(&["target", "list", "--installed"]));
    let target = triple("aarch64-unknown-linux-gnu");
    let command = rustup::install_target_command(&target);
    assert_eq!(command.program, "rustup");
    assert_eq!(command.args, strings(&["target", "add", "aarch64-unknown-linux-gnu"]));
    assert!(command.envs.is_empty());
    let toolchain = Toolchain::channel(Channel::Full { major: 1, minor: 58, patch: 1 });
    let command = rustup::install_toolchain_command(&toolchain, &target, &[]);
    assert_eq!(command.program, "rustup");
    assert_eq!(
        command.args,
        strings(&[
            "toolchain",
            "install",
            "1.58.1",
            "--profile",
            "minimal",
            "--target",
            "aarch64-unknown-linux-gnu",
        ])
    );
    let nightly = Toolchain::parse("nightly-2022-01-01").unwrap();
    let command = rustup::install_toolchain_command(&nightly, &target, &["clippy", "rustfmt"]);
    assert_eq!(
        command.args,
        strings(&[
            "toolchain",
            "install",
            "nightly-2022-01-01",
            "--profile",
            "minimal",
            "--target",
            "aarch64-unknown-linux-gnu",
            "--component",
            "clippy",
            "--component",
            "rustfmt",
        ])
    );
}

#[test]
fn rustup_answers() {
    let listed = b"stable-x86_64-unknown-linux-gnu (default)\n\n  \nnightly-x86_64-unknown-linux-gnu\n\t1.58.1 (override)\n";
    assert_eq!(
        rustup::list_toolchains(output(true, listed, b"")).unwrap(),
        vec![
            "stable-x86_64-unknown-linux-gnu",
            "",
            "  ",
            "nightly-x86_64-unknown-linux-gnu",
            "1.58.1",
        ]
    );
    assert!(matches!(
        rustup::list_toolchains(output(false, b"", b"x")),
        Err(CommandError::Failed { .. })
    ));
    assert!(matches!(
        rustup::list_toolchains(output(true, b"\xff", b"")),
        Err(CommandError::Unreadable)
    ));
    assert_eq!(
        rustup::list_targets(output(true, b"x86_64-unknown-linux-gnu\naarch64-apple-darwin\n", b""))
            .unwrap(),
        vec![triple("x86_64-unknown-linux-gnu"), triple("aarch64-apple-darwin")]
    );
    assert!(matches!(
        rustup::list_targets(output(true, b"x86_64-unknown-linux-gnu\nnonsense\n", b"")),
        Err(CommandError::InvalidTarget)
    ));
    assert!(matches!(
        rustup::list_targets(output(true, b"\xfe", b"")),
        Err(CommandError::Unreadable)
    ));
    match rustup::list_targets(output(false, b"", b"not installed")) {
        Err(CommandError::Failed { diagnostic }) => assert_eq!(diagnostic, b"not installed"),
        other => panic!("{other:?}"),
    }
    assert!(rustup::install_toolchain(output(true, b"", b"")).is_ok());
    assert!(rustup::install_target(output(true, b"", b"")).is_ok());
    assert!(matches!(
        rustup::install_toolchain(output(false, b"", b"x")),
        Err(CommandError::Failed { .. })
    ));
    assert!(matches!(
        rustup::install_target(output(false, b"", b"x")),
        Err(CommandError::Failed { .. })
    ));
}

#[test]
fn tar_gz_holds_the_binary() {
    let target = triple("x86_64-unknown-linux-gnu");
    let content: Vec<u8> = (0..2000u32).map(|n| (n % 251) as u8).collect();
    let (name, data) = tar_gz(&content, "app", &target).unwrap();
    assert_eq!(name, "app-x86_64-unknown-linux-gnu.tar.gz");
    assert_ne!(data, content);
    let mut archive = tar::Archive::new(flate2::read::GzDecoder::new(data.as_slice()));
    let mut entries = archive.entries().unwrap();
    let mut entry = entries.next().unwrap().unwrap();
    assert_eq!(entry.path().unwrap().to_str(), Some("app"));
    assert_eq!(entry.header().mode().unwrap(), 0o755);
    assert_eq!(entry.header().size().unwrap(), 2000);
    let mut unpacked = Vec::new();
    entry.read_to_end(&mut unpacked).unwrap();
    assert_eq!(unpacked, content);
    drop(entry);
    assert!(entries.next().is_none());
    let (_, again) = tar_gz(&content, "app", &target).unwrap();
    assert_eq!(again, data);
}

#[test]
fn tar_does_not_take_a_name_that_is_too_long() {
    let target = triple("x86_64-unknown-linux-gnu");
    let long = "n".repeat(300);
    assert_eq!(tar_gz(b"x", &long, &target), Err(ArchiveError::Tar));
}

#[test]
fn zip_holds_the_binary() {
    let target = triple("x86_64-pc-windows-msvc");
    let content = b"MZ binary content".to_vec();
    let (name, data) = zip(&content, "app", &target).unwrap();
    assert_eq!(name, "app-x86_64-pc-windows-msvc.zip");
    let mut archive = zip::ZipArchive::new(std::io::Cursor::new(data)).unwrap();
    assert_eq!(archive.len(), 1);
    let mut file = archive.by_index(0).unwrap();
    assert_eq!(file.name(), "app");
    assert_eq!(file.unix_mode(), Some(0o100755));
    assert_eq!(file.compression(), zip::CompressionMethod::Deflated);
    let mut unpacked = Vec::new();
    file.read_to_end(&mut unpacked).unwrap();
    assert_eq!(unpacked, content);
    drop(file);
    let (_, again) = zip(&content, "app", &target).unwrap();
    assert_eq!(again, archive.into_inner().into_inner());
}

#[test]
fn zip_records_a_fixed_time() {
    let target = triple("x86_64-pc-windows-msvc");
    let (_, data) = zip(b"content", "app", &target).unwrap();
    let mut archive = zip::ZipArchive::new(std::io::Cursor::new(data)).unwrap();
    let file = archive.by_index(0).unwrap();
    let modified = file.last_modified();
    assert_eq!(
        (modified.year(), modified.month(), modified.day()),
        (1980, 1, 1)
    );
    assert_eq!((modified.hour(), modified.minute(), modified.second()), (0, 0, 0));
}

#[test]
fn the_target_chooses_the_archive() {
    let (name, data) = pack(b"content", "app", &triple("x86_64-pc-windows-gnu")).unwrap();
    assert_eq!(name, "app-x86_64-pc-windows-gnu.zip");
    assert_eq!(&data[..2], b"PK");
    let (name, data) = pack(b"content", "app", &triple("aarch64-apple-darwin")).unwrap();
    assert_eq!(name, "app-aarch64-apple-darwin.tar.gz");
    assert_eq!(&data[..2], &[0x1f, 0x8b]);
}
