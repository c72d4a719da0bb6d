use release_assets::checksums::{self, ChecksumRun};
use release_assets::executor::{collect_all, collect_each, Failure, WORKERS};
use release_assets::hashing::{self, Hashes};
use release_assets::release::{Asset, AssetId};

fn failure(asset: &str, cause: &str) -> Failure {
    Failure { asset: asset.to_owned(), cause: cause.to_owned() }
}

#[test]
fn worker_count_is_fixed() {
    assert_eq!(WORKERS, 8);
}

#[test]
fn collect_all_keeps_every_value_in_order() {
    let results: Vec<Result<u32, Failure>> = vec![Ok(3), Ok(1), Ok(2)];
    assert_eq!(collect_all(results).unwrap(), vec![3, 1, 2]);
    let none: Vec<Result<u32, Failure>> = Vec::new();
    assert_eq!(collect_all(none).unwrap(), Vec::<u32>::new());
}

#[test]
fn collect_all_hands_back_the_first_failure() {
    let results: Vec<Result<u32, Failure>> =
        vec![Ok(3), Err(failure("b", "timeout")), Ok(2), Err(failure("d", "reset"))];
    let failed = collect_all(results).unwrap_err();
    assert_eq!(failed.asset, "b");
    assert_eq!(failed.cause, "timeout");
}

#[test]
fn collect_each_separates_values_and_failures() {
    let results: Vec<Result<u32, Failure>> =
        vec![Err(failure("a", "x")), Ok(3), Err(failure("c", "y")), Ok(2)];
    let (values, failed) = collect_each(results);
    assert_eq!(values, vec![3, 2]);
    assert_eq!(failed.len(), 2);
    assert_eq!(failed[0].asset, "a");
    assert_eq!(failed[1].asset, "c");
    let (values, failed) = collect_each::<u32>(Vec::new());
    assert!(values.is_empty() && failed.is_empty());
}

fn asset(id: u64, name: &str) -> Asset {
    Asset { id: AssetId(id), name: name.to_owned(), browser_download_url: String::new() }
}

fn sha256_only(digest: Vec<u8>) -> Hashes {
    let mut hashes = Hashes::new();
    hashes.insert(hashing::Hash::Sha256, digest);
    hashes
}

#[test]
fn checksum_run_publishes_when_every_asset_was_digested() {
    let first = asset(1, "a.zip");
    let second = asset(2, "b.zip");
    let mut run = ChecksumRun::new();
    assert_eq!(run.stage(), checksums::Stage::Hashing);
    assert!(!run.succeeded());
    let action =
        run.hashed(vec![Ok((&first, sha256_only(vec![0xab]))), Ok((&second, sha256_only(vec![1])))]);
    assert_eq!(action, checksums::Action::Publish);
    assert_eq!(run.stage(), checksums::Stage::Publishing);
    assert_eq!(run.files().len(), 3);
    assert_eq!(run.files()[0], ("checksums.b2".to_owned(), Vec::new()));
    assert_eq!(run.files()[1], ("checksums.sha256".to_owned(), b"ab *a.zip\n01 *b.zip\n".to_vec()));
    assert_eq!(run.files()[2], ("checksums.sha512".to_owned(), Vec::new()));
    let action = run.published(vec![Ok(()), Ok(()), Ok(())]);
    assert_eq!(action, checksums::Action::Finish);
    assert_eq!(run.stage(), checksums::Stage::Finished);
    assert!(run.succeeded());
    assert!(run.unread().is_none());
    assert!(run.unpublished().is_empty());
}

#[test]
fn checksum_run_publishes_nothing_after_a_failure() {
    let first = asset(1, "a.zip");
    let mut run = ChecksumRun::new();
    let action = run.hashed(vec![
        Ok((&first, sha256_only(vec![0xab]))),
        Err(failure("b.zip", "connection reset")),
        Err(failure("c.zip", "later")),
    ]);
    assert_eq!(action, checksums::Action::Finish);
    assert_eq!(run.stage(), checksums::Stage::Finished);
    assert!(run.files().is_empty());
    assert_eq!(run.unread().unwrap().asset, "b.zip");
    assert_eq!(run.unread().unwrap().cause, "connection reset");
    assert!(run.unpublished().is_empty());
    assert!(!run.succeeded());
}

#[test]
fn checksum_run_reports_files_that_were_not_published() {
    let mut run = ChecksumRun::new();
    assert_eq!(run.hashed(Vec::new()), checksums::Action::Publish);
    let action = run.published(vec![Ok(()), Err(failure("checksums.sha256", "409")), Ok(())]);
    assert_eq!(action, checksums::Action::Finish);
    assert!(!run.succeeded());
    assert!(run.unread().is_none());
    assert_eq!(run.unpublished().len(), 1);
    assert_eq!(run.unpublished()[0].asset, "checksums.sha256");
    assert_eq!(run.files().len(), 3);
}

#[test]
fn checksum_files_fail_with_the_first_failure() {
    let first = asset(1, "a.zip");
    let failed = checksums::checksum_files(vec![
        Err(failure("x", "1")),
        Ok((&first, Hashes::new())),
        Err(failure("y", "2")),
    ])
    .unwrap_err();
    assert_eq!(failed.asset, "x");
    let files = checksums::checksum_files(vec![Ok((&first, sha256_only(vec![0x7f])))]).unwrap();
    assert_eq!(files[1].1, b"7f *a.zip\n");
}
