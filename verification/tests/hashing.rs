use release_assets::checksums::{build_files, build_hashes, hash, write_hashes};
use release_assets::hashing::{self, default_hashes, Digester, Hashes};
use release_assets::release::{Asset, AssetId};
use sha2::Digest;

const EMPTY_BLAKE2: &str = "786a02f742015903c6c6fd852552d272912f4740e15847618a86e217f71f5419\
d25e1031afee585313896444934eb04b903a685b1448b755d56f701afe9be2ce";
const EMPTY_SHA256: &str = "e3b0c44298fc1c149afbf4c8996fb92427ae41e4649b934ca495991b7852b855";
const EMPTY_SHA512: &str = "cf83e1357eefb8bdf1542850d66d8007d620e4050b5715dc83f4a921d36ce9ce\
47d0d13c5d85f2b0ff8318d2877eec2f63b931bd47417a81a538327af927da3e";
const ABC_BLAKE2: &str = "ba80a53f981c4d0d6a2797b69f12f6e94c212f14685ac4b74b12bb6fdbffa2d1\
7d87c5392aab792dc252d5de4533cc9518d38aa8dbf1925ab92386edd4009923";
const ABC_SHA256: &str = "ba7816bf8f01cfea414140de5dae2223b00361a396177a9cb410ff61f20015ad";
const ABC_SHA512: &str = "ddaf35a193617abacc417349ae20413112e6fa4e89a97ea20a9eeee64b55d39a\
2192992a274fc1a836ba3c23a3feebbd454d4423643ce80e2a9ac94fa54ca49f";

fn asset(id: u64, name: &str) -> Asset {
    Asset {
        id: AssetId(id),
        name: name.to_owned(),
        browser_download_url: format!("https://example.com/{name}"),
    }
}

fn digest_hex(hash: hashing::Hash, chunks: &[&[u8]]) -> String {
    let mut hasher = hash.hasher();
    for chunk in chunks {
        hasher.update(chunk);
    }
    hex::encode(hasher.finalize())
}

#[test]
fn empty_input_gives_the_known_digests() {
    assert_eq!(digest_hex(hashing::Hash::Blake2, &[]), EMPTY_BLAKE2);
    assert_eq!(digest_hex(hashing::Hash::Sha256, &[]), EMPTY_SHA256);
    assert_eq!(digest_hex(hashing::Hash::Sha512, &[]), EMPTY_SHA512);
    assert_eq!(digest_hex(hashing::Hash::Sha256, &[b"", b""]), EMPTY_SHA256);
}

#[test]
fn abc_gives_the_known_digests() {
    assert_eq!(digest_hex(hashing::Hash::Blake2, &[b"abc"]), ABC_BLAKE2);
    assert_eq!(digest_hex(hashing::Hash::Sha256, &[b"abc"]), ABC_SHA256);
    assert_eq!(digest_hex(hashing::Hash::Sha512, &[b"abc"]), ABC_SHA512);
}

#[test]
fn digests_have_fixed_lengths() {
    for data in [&b""[..], b"a", b"some longer content, more than one block of sha256 input data!!"] {
        assert_eq!(hashing::Hash::Blake2.hasher().finalize().len(), 64);
        let mut blake2 = hashing::Hash::Blake2.hasher();
        blake2.update(data);
        assert_eq!(blake2.finalize().len(), 64);
        let mut sha256 = hashing::Hash::Sha256.hasher();
        sha256.update(data);
        assert_eq!(sha256.finalize().len(), 32);
        let mut sha512 = hashing::Hash::Sha512.hasher();
        sha512.update(data);
        assert_eq!(sha512.finalize().len(), 64);
    }
}

#[test]
fn digest_does_not_depend_on_the_chunks() {
    for hash in default_hashes() {
        let whole = digest_hex(hash, &[b"hello world"]);
        assert_eq!(digest_hex(hash, &[b"hello", b" ", b"world"]), whole);
        assert_eq!(digest_hex(hash, &[b"", b"hello world", b""]), whole);
        assert_eq!(digest_hex(hash, &[b"h", b"ello worl", b"d"]), whole);
        assert_eq!(digest_hex(hash, &[b"hello world"]), whole);
        assert_ne!(digest_hex(hash, &[b"hello world!"]), whole);
    }
}

#[test]
fn hasher_knows_its_algorithm() {
    assert_eq!(hashing::Hash::Blake2.hasher().hash(), hashing::Hash::Blake2);
    assert_eq!(hashing::Hash::Sha256.hasher().hash(), hashing::Hash::Sha256);
    assert_eq!(hashing::Hash::Sha512.hasher().hash(), hashing::Hash::Sha512);
}

#[test]
fn extensions() {
    assert_eq!(hashing::Hash::Blake2.extension(), "b2");
    assert_eq!(hashing::Hash::Sha256.extension(), "sha256");
    assert_eq!(hashing::Hash::Sha512.extension(), "sha512");
    assert_eq!(
        default_hashes(),
        vec![hashing::Hash::Blake2, hashing::Hash::Sha256, hashing::Hash::Sha512]
    );
}

#[test]
fn digester_feeds_every_algorithm_once() {
    let mut digester = Digester::new(&[
        hashing::Hash::Sha256,
        hashing::Hash::Sha512,
        hashing::Hash::Sha256,
    ]);
    digester.update(b"a");
    digester.update(b"bc");
    let hashes = digester.finalize();
    assert_eq!(hex::encode(hashes.get(hashing::Hash::Sha256).unwrap()), ABC_SHA256);
    assert_eq!(hex::encode(hashes.get(hashing::Hash::Sha512).unwrap()), ABC_SHA512);
    assert!(hashes.get(hashing::Hash::Blake2).is_none());
}

#[test]
fn digester_without_algorithms_gives_nothing() {
    let mut digester = Digester::new(&[]);
    digester.update(b"abc");
    let hashes = digester.finalize();
    for hash in default_hashes() {
        assert!(hashes.get(hash).is_none());
    }
}

#[test]
fn hashes_digest_reads_all_chunks() {
    let chunks = vec![b"a".to_vec(), Vec::new(), b"bc".to_vec()];
    let hashes = Hashes::digest(&chunks, &default_hashes());
    assert_eq!(hex::encode(hashes.get(hashing::Hash::Blake2).unwrap()), ABC_BLAKE2);
    assert_eq!(hex::encode(hashes.get(hashing::Hash::Sha256).unwrap()), ABC_SHA256);
    assert_eq!(hex::encode(hashes.get(hashing::Hash::Sha512).unwrap()), ABC_SHA512);
    let none = Hashes::digest(&Vec::new(), &[hashing::Hash::Sha256]);
    assert_eq!(hex::encode(none.get(hashing::Hash::Sha256).unwrap()), EMPTY_SHA256);
    assert!(none.get(hashing::Hash::Sha512).is_none());
}

#[test]
fn hashes_insert_replaces() {
    let mut hashes = Hashes::new();
    assert!(hashes.get(hashing::Hash::Sha256).is_none());
    hashes.insert(hashing::Hash::Sha256, vec![1, 2]);
    hashes.insert(hashing::Hash::Sha256, vec![3]);
    assert_eq!(hashes.get(hashing::Hash::Sha256), Some(&vec![3]));
    assert!(hashes.get(hashing::Hash::Blake2).is_none());
    assert!(hashes.get(hashing::Hash::Sha512).is_none());
}

#[test]
fn checksum_line_is_hex_star_name() {
    let first = asset(1, "app.tar.gz");
    let mut hashes = Hashes::new();
    hashes.insert(hashing::Hash::Sha256, vec![0x00, 0x0f, 0xa0, 0xff, 0x10]);
    let files = vec![(&first, hashes)];
    let (name, content) =
        write_hashes(&files, "checksums.sha256".to_owned(), hashing::Hash::Sha256);
    assert_eq!(name, "checksums.sha256");
    assert_eq!(content, b"000fa0ff10 *app.tar.gz\n");
    let (_, empty) = write_hashes(&files, "checksums.b2".to_owned(), hashing::Hash::Blake2);
    assert_eq!(empty, b"");
}

#[test]
fn checksum_file_keeps_the_order_of_the_files() {
    let first = asset(1, "b.zip");
    let second = asset(2, "a.zip");
    let third = asset(3, "n\u{e4}me.zip");
    let files = vec![(&first, b"abc".to_vec()), (&second, Vec::new()), (&third, b"abc".to_vec())];
    let outputs = hash(&files);
    assert_eq!(outputs.len(), 3);
    assert_eq!(outputs[0].0, "checksums.b2");
    assert_eq!(outputs[1].0, "checksums.sha256");
    assert_eq!(outputs[2].0, "checksums.sha512");
    assert_eq!(
        String::from_utf8(outputs[0].1.clone()).unwrap(),
        format!("{ABC_BLAKE2} *b.zip\n{EMPTY_BLAKE2} *a.zip\n{ABC_BLAKE2} *n\u{e4}me.zip\n")
    );
    assert_eq!(
        String::from_utf8(outputs[1].1.clone()).unwrap(),
        format!("{ABC_SHA256} *b.zip\n{EMPTY_SHA256} *a.zip\n{ABC_SHA256} *n\u{e4}me.zip\n")
    );
    assert_eq!(
        String::from_utf8(outputs[2].1.clone()).unwrap(),
        format!("{ABC_SHA512} *b.zip\n{EMPTY_SHA512} *a.zip\n{ABC_SHA512} *n\u{e4}me.zip\n")
    );
}

#[test]
fn checksum_files_have_the_length_of_their_lines() {
    let first = asset(1, "b.zip");
    let second = asset(2, "n\u{e4}me.tar.gz");
    let files = vec![(&first, b"abc".to_vec()), (&second, vec![0u8; 1000])];
    let outputs = hash(&files);
    for ((_, content), digest_len) in outputs.iter().zip([64usize, 32, 64]) {
        let expected: usize =
            files.iter().map(|(asset, _)| 2 * digest_len + 3 + asset.name.len()).sum();
        assert_eq!(content.len(), expected);
        for line in content.split(|byte| *byte == b'\n').filter(|line| !line.is_empty()) {
            let (digits, rest) = line.split_at(2 * digest_len);
            assert!(digits.iter().all(|byte| b"0123456789abcdef".contains(byte)));
            assert_eq!(&rest[..2], b" *");
        }
    }
}

#[test]
fn no_files_give_empty_checksum_files() {
    let outputs = hash(&Vec::new());
    assert_eq!(outputs.len(), 3);
    for (_, content) in &outputs {
        assert!(content.is_empty());
    }
    assert_eq!(build_files(&[]).len(), 3);
}

#[test]
fn build_hashes_digests_with_every_default_algorithm() {
    let first = asset(1, "a");
    let files = vec![(&first, b"abc".to_vec())];
    let hashed = build_hashes(&files);
    assert_eq!(hashed.len(), 1);
    assert_eq!(hashed[0].0.name, "a");
    assert_eq!(hex::encode(hashed[0].1.get(hashing::Hash::Blake2).unwrap()), ABC_BLAKE2);
    assert_eq!(hex::encode(hashed[0].1.get(hashing::Hash::Sha256).unwrap()), ABC_SHA256);
    assert_eq!(hex::encode(hashed[0].1.get(hashing::Hash::Sha512).unwrap()), ABC_SHA512);
}

#[test]
fn checksum_file_round_trip() {
    let contents: Vec<(String, Vec<u8>)> = vec![
        ("app-linux.tar.gz".to_owned(), b"first content".to_vec()),
        ("app-windows.zip".to_owned(), Vec::new()),
        ("app-macos.tar.gz".to_owned(), (0..=255u8).collect()),
    ];
    let assets: Vec<Asset> =
        contents.iter().enumerate().map(|(i, (name, _))| asset(i as u64, name)).collect();
    let files: Vec<(&Asset, Vec<u8>)> =
        assets.iter().zip(&contents).map(|(asset, (_, data))| (asset, data.clone())).collect();
    let outputs = hash(&files);
    let sha256 = String::from_utf8(outputs[1].1.clone()).unwrap();
    let sha512 = String::from_utf8(outputs[2].1.clone()).unwrap();
    let blake2 = String::from_utf8(outputs[0].1.clone()).unwrap();
    for (text, recompute) in [
        (&sha256, (|data: &[u8]| sha2::Sha256::digest(data).to_vec()) as fn(&[u8]) -> Vec<u8>),
        (&sha512, |data: &[u8]| sha2::Sha512::digest(data).to_vec()),
        (&blake2, |data: &[u8]| blake2::Blake2b512::digest(data).to_vec()),
    ] {
        let lines: Vec<&str> = text.lines().collect();
        assert_eq!(lines.len(), contents.len());
        for (line, (name, data)) in lines.iter().zip(&contents) {
            let (recorded, named) = line.split_once(" *").unwrap();
            assert_eq!(named, name);
            assert_eq!(hex::decode(recorded).unwrap(), recompute(data));
        }
    }
}
