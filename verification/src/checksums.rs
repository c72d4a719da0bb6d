//! Building checksum files from digests.
//!
//! A checksum file belongs to one algorithm. It holds one line per hashed file,
//! `<hex digest> *<file name>`, each ended by a line feed, in the order the
//! files are given. A caller that digests the files side by side decides that
//! order by the order in which it hands the digests over; sorting them by name
//! first gives files that do not depend on which worker ended first.

use crate::hashing::{self, default_hashes, default_hashes_spec, digest_len, digest_of, Digester, Hashes};
use crate::executor::{collect_all, collect_each, failures, first_failure, successes, Failure};
use crate::release::Asset;
use crate::text::lemma_encode_concat;
use vstd::prelude::*;
use vstd::string::{StrSliceExecFns, StringExecFns, StringSliceAdditionalSpecFns};
use vstd::utf8::encode_utf8;

verus! {

/// The sixteen lower-case hexadecimal digits.
pub open spec fn hex_digits() -> Seq<char> {
    seq!['0', '1', '2', '3', '4', '5', '6', '7', '8', '9', 'a', 'b', 'c', 'd', 'e', 'f']
}

/// The lower-case hexadecimal text of `data`: two digits per byte, the high
/// half first.
pub open spec fn hex_text(data: Seq<u8>) -> Seq<char> {
    Seq::new(
        2 * data.len(),
        |i: int|
            if i % 2 == 0 {
                hex_digits()[data[i / 2] as int / 16]
            } else {
                hex_digits()[data[i / 2] as int % 16]
            },
    )
}

/// Calls `hex::encode`, which writes each byte as two lower-case hexadecimal
/// digits.
#[verifier::external_body]
fn hex_encode(data: &[u8]) -> (text: String)
    ensures
        text@ == hex_text(data@),
{
    hex::encode(data)
}

/// One line of a checksum file, with its line feed.
pub open spec fn checksum_line(digest: Seq<u8>, name: Seq<char>) -> Seq<char> {
    hex_text(digest) + seq![' ', '*'] + name + seq!['\n']
}

/// The text of the checksum file of `hash` for files whose digests are known:
/// one line for each file that has a digest of that algorithm, in order.
pub open spec fn checksum_text(files: Seq<(&Asset, Hashes)>, hash: hashing::Hash) -> Seq<char>
    decreases files.len(),
{
    if files.len() == 0 {
        Seq::empty()
    } else {
        checksum_text(files.drop_last(), hash) + match files.last().1.value(hash) {
            Some(digest) => checksum_line(digest, files.last().0.name@),
            None => Seq::empty(),
        }
    }
}

/// The text of the checksum file of `hash` for files given by their content.
pub open spec fn checksum_text_of(files: Seq<(&Asset, Vec<u8>)>, hash: hashing::Hash) -> Seq<char>
    decreases files.len(),
{
    if files.len() == 0 {
        Seq::empty()
    } else {
        checksum_text_of(files.drop_last(), hash) + checksum_line(
            digest_of(hash, files.last().1@),
            files.last().0.name@,
        )
    }
}

/// The name of the checksum file of `hash`.
pub open spec fn checksum_name(hash: hashing::Hash) -> Seq<char> {
    "checksums."@ + hash.extension_spec()
}

/// Whether `hashed` holds, file by file, the digests of `files` under the
/// default algorithms and no other digest.
pub open spec fn hashes_of(hashed: Seq<(&Asset, Hashes)>, files: Seq<(&Asset, Vec<u8>)>) -> bool {
    &&& hashed.len() == files.len()
    &&& forall|i: int|
        0 <= i < files.len() ==> {
            &&& (#[trigger] hashed[i]).0 == files[i].0
            &&& forall|hash: hashing::Hash|
                #[trigger] hashed[i].1.value(hash) == if default_hashes_spec().contains(hash) {
                    Some(digest_of(hash, files[i].1@))
                } else {
                    None
                }
        }
}

/// A checksum file built from the digests of some contents holds one line per
/// content, with the digest of that content.
pub proof fn lemma_checksum_text_of(
    hashed: Seq<(&Asset, Hashes)>,
    files: Seq<(&Asset, Vec<u8>)>,
    hash: hashing::Hash,
)
    requires
        hashes_of(hashed, files),
        default_hashes_spec().contains(hash),
    ensures
        checksum_text(hashed, hash) == checksum_text_of(files, hash),
    decreases files.len(),
{
    if files.len() > 0 {
        let last = files.len() - 1;
        assert(hashed[last].0 == files[last].0);
        assert(hashed[last].1.value(hash) == Some(digest_of(hash, files[last].1@)));
        assert forall|i: int| 0 <= i < files.drop_last().len() implies {
            &&& (#[trigger] hashed.drop_last()[i]).0 == files.drop_last()[i].0
            &&& forall|other: hashing::Hash|
                #[trigger] hashed.drop_last()[i].1.value(other) == if default_hashes_spec().contains(
                    other,
                ) {
                    Some(digest_of(other, files.drop_last()[i].1@))
                } else {
                    None
                }
        } by {
            assert(hashed.drop_last()[i] == hashed[i]);
            assert(files.drop_last()[i] == files[i]);
        }
        lemma_checksum_text_of(hashed.drop_last(), files.drop_last(), hash);
    }
}

/// Builds the checksum file of `hash` under the file name `name`.
pub fn write_hashes(files: &[(&Asset, Hashes)], name: String, hash: hashing::Hash) -> (file: (
    String,
    Vec<u8>,
))
    ensures
        file.0 == name,
        file.1@ == encode_utf8(checksum_text(files@, hash)),
{
    let mut text = String::new();
    let mut i: usize = 0;
    while i < files.len()
        invariant
            0 <= i <= files@.len(),
            text@ == checksum_text(files@.take(i as int), hash),
        decreases files@.len() - i,
    {
        let (asset, hashes) = &files[i];
        proof {
            let next = files@.take(i as int + 1);
            assert(next.drop_last() =~= files@.take(i as int));
            assert(next.last() == files@[i as int]);
        }
        if let Some(digest) = hashes.get(hash) {
            let hex = hex_encode(digest.as_slice());
            proof {
                reveal_strlit(" *");
                reveal_strlit("\n");
            }
            let ghost before = text@;
            text.append(hex.as_str());
            text.append(" *");
            text.append(asset.name.as_str());
            text.append("\n");
            assert(" *"@ =~= seq![' ', '*']);
            assert("\n"@ =~= seq!['\n']);
            assert(text@ =~= before + checksum_line(digest@, asset.name@));
        }
        i += 1;
    }
    assert(files@.take(i as int) =~= files@);
    let bytes = text.as_str().as_bytes_vec();
    (name, bytes)
}

/// Builds one checksum file for each default algorithm, in their order.
pub fn build_files(file_hashes: &[(&Asset, Hashes)]) -> (files: Vec<(String, Vec<u8>)>)
    ensures
        files@.len() == default_hashes_spec().len(),
        forall|k: int|
            0 <= k < files@.len() ==> {
                &&& (#[trigger] files@[k]).0@ == checksum_name(default_hashes_spec()[k])
                &&& files@[k].1@ == encode_utf8(
                    checksum_text(file_hashes@, default_hashes_spec()[k]),
                )
            },
{
    let hashes = default_hashes();
    let mut files: Vec<(String, Vec<u8>)> = Vec::new();
    let mut k: usize = 0;
    while k < hashes.len()
        invariant
            0 <= k <= hashes@.len(),
            hashes@ == default_hashes_spec(),
            files@.len() == k,
            forall|l: int|
                0 <= l < k ==> {
                    &&& (#[trigger] files@[l]).0@ == checksum_name(default_hashes_spec()[l])
                    &&& files@[l].1@ == encode_utf8(
                        checksum_text(file_hashes@, default_hashes_spec()[l]),
                    )
                },
        decreases hashes@.len() - k,
    {
        let hash = hashes[k];
        let mut name = String::from_str("checksums.");
        name.append(hash.extension());
        files.push(write_hashes(file_hashes, name, hash));
        k += 1;
    }
    files
}

/// Digests each content with every default algorithm.
pub fn build_hashes<'a>(files: &Vec<(&'a Asset, Vec<u8>)>) -> (hashed: Vec<(&'a Asset, Hashes)>)
    ensures
        hashes_of(hashed@, files@),
        forall|i: int, hash: hashing::Hash|
            0 <= i < hashed@.len() ==> (#[trigger] hashed@[i].1.value(hash) matches Some(digest)
                ==> digest.len() == digest_len(hash)),
{
    let hashes = default_hashes();
    let mut hashed: Vec<(&'a Asset, Hashes)> = Vec::new();
    let mut i: usize = 0;
    while i < files.len()
        invariant
            0 <= i <= files@.len(),
            hashes@ == default_hashes_spec(),
            hashes_of(hashed@, files@.take(i as int)),
            forall|l: int, hash: hashing::Hash|
                0 <= l < hashed@.len() ==> (#[trigger] hashed@[l].1.value(hash) matches Some(
                    digest,
                ) ==> digest.len() == digest_len(hash)),
        decreases files@.len() - i,
    {
        let mut digester = Digester::new(hashes.as_slice());
        digester.update(files[i].1.as_slice());
        assert(digester.input() =~= files@[i as int].1@);
        let digests = digester.finalize();
        let ghost before = hashed@;
        hashed.push((files[i].0, digests));
        proof {
            let next = files@.take(i as int + 1);
            assert forall|l: int| 0 <= l < next.len() implies {
                &&& (#[trigger] hashed@[l]).0 == next[l].0
                &&& forall|hash: hashing::Hash|
                    #[trigger] hashed@[l].1.value(hash) == if default_hashes_spec().contains(hash) {
                        Some(digest_of(hash, next[l].1@))
                    } else {
                        None
                    }
            } by {
                if l < i {
                    assert(hashed@[l] == before[l]);
                    assert(files@.take(i as int)[l] == next[l]);
                }
            }
        }
        i += 1;
    }
    assert(files@.take(i as int) =~= files@);
    hashed
}

/// Hashes the given contents with every default algorithm.
///
/// One checksum file is returned for each algorithm, holding the digests of
/// all the contents in the order given.
pub fn hash(files: &Vec<(&Asset, Vec<u8>)>) -> (outputs: Vec<(String, Vec<u8>)>)
    ensures
        outputs@.len() == default_hashes_spec().len(),
        forall|k: int|
            0 <= k < outputs@.len() ==> {
                &&& (#[trigger] outputs@[k]).0@ == checksum_name(default_hashes_spec()[k])
                &&& outputs@[k].1@ == encode_utf8(
                    checksum_text_of(files@, default_hashes_spec()[k]),
                )
                &&& outputs@[k].1@.len() == checksum_len(files@, default_hashes_spec()[k])
            },
        forall|i: int, k: int|
            0 <= i < files@.len() && 0 <= k < default_hashes_spec().len() ==> (#[trigger] digest_of(
                default_hashes_spec()[k],
                files@[i].1@,
            )).len() == digest_len(default_hashes_spec()[k]),
{
    let hashed = build_hashes(files);
    let outputs = build_files(hashed.as_slice());
    proof {
        assert forall|k: int| 0 <= k < outputs@.len() implies (#[trigger] outputs@[k]).1@
            == encode_utf8(checksum_text_of(files@, default_hashes_spec()[k])) by {
            assert(default_hashes_spec().contains(default_hashes_spec()[k]));
            lemma_checksum_text_of(hashed@, files@, default_hashes_spec()[k]);
        }
        assert forall|k: int| 0 <= k < outputs@.len() implies (#[trigger] outputs@[k]).1@.len()
            == checksum_len(files@, default_hashes_spec()[k]) by {
            lemma_checksum_len(files@, default_hashes_spec()[k]);
        }
        assert forall|i: int, k: int|
            0 <= i < files@.len() && 0 <= k < default_hashes_spec().len() implies (
        #[trigger] digest_of(default_hashes_spec()[k], files@[i].1@)).len() == digest_len(
            default_hashes_spec()[k],
        ) by {
            let hash = default_hashes_spec()[k];
            assert(default_hashes_spec().contains(hash));
            assert(hashed@[i].1.value(hash) == Some(digest_of(hash, files@[i].1@)));
        }
    }
    outputs
}

/// The number of bytes of one line of a checksum file: two hexadecimal digits
/// for each byte of the digest, a space and a star, the bytes of the name, and
/// the line feed.
pub open spec fn line_len(digest: Seq<u8>, name: Seq<char>) -> nat {
    2 * digest.len() + 3 + encode_utf8(name).len()
}

/// The number of bytes of the checksum file of `hash` for files given by
/// their content: the sum of the lengths of its lines.
pub open spec fn checksum_len(files: Seq<(&Asset, Vec<u8>)>, hash: hashing::Hash) -> nat
    decreases files.len(),
{
    if files.len() == 0 {
        0
    } else {
        checksum_len(files.drop_last(), hash) + line_len(
            digest_of(hash, files.last().1@),
            files.last().0.name@,
        )
    }
}

/// The bytes of a line are its characters one for one up to the name: the
/// hexadecimal digits, the space and the star are ASCII, and so is the line
/// feed after the name.
pub proof fn lemma_checksum_line_len(digest: Seq<u8>, name: Seq<char>)
    ensures
        encode_utf8(checksum_line(digest, name)).len() == line_len(digest, name),
{
    let head = hex_text(digest) + seq![' ', '*'];
    let tail = seq!['\n'];
    assert forall|i: int| 0 <= i < head.len() implies '\0' <= #[trigger] head[i] <= '\u{7f}' by {
        if i < hex_text(digest).len() {
            let nibble = if i % 2 == 0 {
                digest[i / 2] as int / 16
            } else {
                digest[i / 2] as int % 16
            };
            assert(0 <= nibble < 16);
            assert(head[i] == hex_digits()[nibble]);
        }
    }
    vstd::utf8::is_ascii_chars_encode_utf8(head);
    vstd::utf8::is_ascii_chars_encode_utf8(tail);
    lemma_encode_concat(head, name);
    lemma_encode_concat(head + name, tail);
    assert(checksum_line(digest, name) =~= head + name + tail);
}

/// A checksum file has as many bytes as its lines have together.
pub proof fn lemma_checksum_len(files: Seq<(&Asset, Vec<u8>)>, hash: hashing::Hash)
    ensures
        encode_utf8(checksum_text_of(files, hash)).len() == checksum_len(files, hash),
    decreases files.len(),
{
    if files.len() > 0 {
        lemma_checksum_len(files.drop_last(), hash);
        lemma_checksum_line_len(digest_of(hash, files.last().1@), files.last().0.name@);
        lemma_encode_concat(
            checksum_text_of(files.drop_last(), hash),
            checksum_line(digest_of(hash, files.last().1@), files.last().0.name@),
        );
    }
}

/// Ends a checksum run. The results are those of the workers that digested
/// the selected assets. If every worker succeeded, the checksum files are
/// built from all the digests; if one failed, the first failure is handed
/// back and no file is built.
pub fn checksum_files(results: Vec<Result<(&Asset, Hashes), Failure>>) -> (outputs: Result<
    Vec<(String, Vec<u8>)>,
    Failure,
>)
    ensures
        match outputs {
            Ok(files) => {
                &&& first_failure(results@) == results@.len()
                &&& files@.len() == default_hashes_spec().len()
                &&& forall|k: int|
                    0 <= k < files@.len() ==> {
                        &&& (#[trigger] files@[k]).0@ == checksum_name(default_hashes_spec()[k])
                        &&& files@[k].1@ == encode_utf8(
                            checksum_text(successes(results@), default_hashes_spec()[k]),
                        )
                    }
            },
            Err(failure) => {
                &&& first_failure(results@) < results@.len()
                &&& results@[first_failure(results@)] == Err::<(&Asset, Hashes), Failure>(failure)
            },
        },
{
    match collect_all(results) {
        Ok(hashed) => Ok(build_files(hashed.as_slice())),
        Err(failure) => Err(failure),
    }
}

/// Whether `text`, read from its start, holds one line for each of `files` in
/// order, each recording the digest of that file's content under `hash`
/// before the file's name, and nothing after the last line.
pub open spec fn records(text: Seq<char>, files: Seq<(&Asset, Vec<u8>)>, hash: hashing::Hash) -> bool
    decreases files.len(),
{
    if files.len() == 0 {
        text.len() == 0
    } else {
        let line = checksum_line(digest_of(hash, files[0].1@), files[0].0.name@);
        &&& line.len() <= text.len()
        &&& text.take(line.len() as int) == line
        &&& records(text.skip(line.len() as int), files.drop_first(), hash)
    }
}

/// The checksum file of some contents begins with the line of the first
/// content, and goes on with the checksum file of the others.
pub proof fn lemma_checksum_text_first(files: Seq<(&Asset, Vec<u8>)>, hash: hashing::Hash)
    requires
        files.len() > 0,
    ensures
        checksum_text_of(files, hash) == checksum_line(
            digest_of(hash, files[0].1@),
            files[0].0.name@,
        ) + checksum_text_of(files.drop_first(), hash),
    decreases files.len(),
{
    let first = checksum_line(digest_of(hash, files[0].1@), files[0].0.name@);
    let last = checksum_line(digest_of(hash, files.last().1@), files.last().0.name@);
    if files.len() == 1 {
        assert(files.drop_last() =~= Seq::<(&Asset, Vec<u8>)>::empty());
        assert(files.drop_first() =~= Seq::<(&Asset, Vec<u8>)>::empty());
        assert(checksum_text_of(files, hash) =~= first + checksum_text_of(
            files.drop_first(),
            hash,
        ));
    } else {
        let front = files.drop_last();
        let back = files.drop_first();
        lemma_checksum_text_first(front, hash);
        assert(front[0] == files[0]);
        assert(front.drop_first() =~= back.drop_last());
        assert(back.last() == files.last());
        assert(checksum_text_of(back, hash) == checksum_text_of(back.drop_last(), hash) + last);
        assert(checksum_text_of(files, hash) =~= first + checksum_text_of(back, hash));
    }
}

/// A checksum file can be checked against the contents it was built from:
/// read line by line, it records for each content, in order, the digest that
/// is computed from that content again.
pub proof fn lemma_checksum_round_trip(files: Seq<(&Asset, Vec<u8>)>, hash: hashing::Hash)
    ensures
        records(checksum_text_of(files, hash), files, hash),
    decreases files.len(),
{
    if files.len() > 0 {
        let line = checksum_line(digest_of(hash, files[0].1@), files[0].0.name@);
        let text = checksum_text_of(files, hash);
        lemma_checksum_text_first(files, hash);
        lemma_checksum_round_trip(files.drop_first(), hash);
        assert(text.take(line.len() as int) =~= line);
        assert(text.skip(line.len() as int) =~= checksum_text_of(files.drop_first(), hash));
    }
}

/// Where a checksum run stands.
#[derive(Clone, Copy, Debug, PartialEq, Eq, Structural)]
pub enum Stage {
    /// The selected assets are being fetched and digested.
    Hashing,
    /// The checksum files are being published.
    Publishing,
    /// The run has ended.
    Finished,
}

/// What the caller of a checksum run has to do next.
#[derive(Clone, Copy, Debug, PartialEq, Eq, Structural)]
pub enum Action {
    /// Publish the checksum files that were built.
    Publish,
    /// Stop, and report how the run ended.
    Finish,
}

/// A checksum run. The checksum files are one artifact: if one asset cannot
/// be read, nothing is built and nothing is published.
pub struct ChecksumRun {
    stage: Stage,
    files: Vec<(String, Vec<u8>)>,
    unread: Option<Failure>,
    unpublished: Vec<Failure>,
}

impl ChecksumRun {
    /// Where the run stands.
    pub closed spec fn stage_spec(&self) -> Stage {
        self.stage
    }

    /// The checksum files that were built.
    pub closed spec fn files_spec(&self) -> Seq<(String, Vec<u8>)> {
        self.files@
    }

    /// The failure that kept the files from being built, if there was one.
    pub closed spec fn unread_spec(&self) -> Option<Failure> {
        self.unread
    }

    /// The files that could not be published.
    pub closed spec fn unpublished_spec(&self) -> Seq<Failure> {
        self.unpublished@
    }

    /// A run that is about to digest the selected assets.
    pub fn new() -> (run: ChecksumRun)
        ensures
            run.stage_spec() == Stage::Hashing,
            run.files_spec().len() == 0,
            run.unread_spec() is None,
            run.unpublished_spec().len() == 0,
    {
        ChecksumRun {
            stage: Stage::Hashing,
            files: Vec::new(),
            unread: None,
            unpublished: Vec::new(),
        }
    }

    /// Where the run stands.
    pub fn stage(&self) -> (stage: Stage)
        ensures
            stage == self.stage_spec(),
    {
        self.stage
    }

    /// The checksum files that were built.
    pub fn files(&self) -> (files: &Vec<(String, Vec<u8>)>)
        ensures
            files@ == self.files_spec(),
    {
        &self.files
    }

    /// The failure that kept the files from being built, if there was one.
    pub fn unread(&self) -> (failed: Option<&Failure>)
        ensures
            match failed {
                Some(failure) => self.unread_spec() == Some(*failure),
                None => self.unread_spec() is None,
            },
    {
        self.unread.as_ref()
    }

    /// The files that could not be published.
    pub fn unpublished(&self) -> (failed: &Vec<Failure>)
        ensures
            failed@ == self.unpublished_spec(),
    {
        &self.unpublished
    }

    /// Whether the run has ended and everything went well.
    pub fn succeeded(&self) -> (yes: bool)
        ensures
            yes == (self.stage_spec() == Stage::Finished && self.unread_spec() is None
                && self.unpublished_spec().len() == 0),
    {
        match self.stage {
            Stage::Finished => self.unread.is_none() && self.unpublished.len() == 0,
            _ => false,
        }
    }

    /// All the workers have ended with `results`, one for each selected
    /// asset. If every asset was digested, the checksum files are built and
    /// published next. If not, the run ends with the first failure, and no
    /// file is built.
    pub fn hashed(&mut self, results: Vec<Result<(&Asset, Hashes), Failure>>) -> (action: Action)
        requires
            old(self).stage_spec() == Stage::Hashing,
        ensures
            match action {
                Action::Publish => {
                    &&& first_failure(results@) == results@.len()
                    &&& final(self).stage_spec() == Stage::Publishing
                    &&& final(self).unread_spec() == old(self).unread_spec()
                    &&& final(self).unpublished_spec() == old(self).unpublished_spec()
                    &&& final(self).files_spec().len() == default_hashes_spec().len()
                    &&& forall|k: int|
                        0 <= k < final(self).files_spec().len() ==> {
                            &&& (#[trigger] final(self).files_spec()[k]).0@ == checksum_name(
                                default_hashes_spec()[k],
                            )
                            &&& final(self).files_spec()[k].1@ == encode_utf8(
                                checksum_text(successes(results@), default_hashes_spec()[k]),
                            )
                        }
                },
                Action::Finish => {
                    &&& first_failure(results@) < results@.len()
                    &&& final(self).stage_spec() == Stage::Finished
                    &&& final(self).files_spec() == old(self).files_spec()
                    &&& final(self).unpublished_spec() == old(self).unpublished_spec()
                    &&& final(self).unread_spec() matches Some(failure)
                    &&& results@[first_failure(results@)] == Err::<(&Asset, Hashes), Failure>(
                        failure,
                    )
                },
            },
    {
        match checksum_files(results) {
            Ok(files) => {
                self.files = files;
                self.stage = Stage::Publishing;
                Action::Publish
            },
            Err(failure) => {
                self.unread = Some(failure);
                self.stage = Stage::Finished;
                Action::Finish
            },
        }
    }

    /// Publishing has ended with `results`, one for each checksum file. The
    /// files that could not be published are kept, and the run ends.
    pub fn published(&mut self, results: Vec<Result<(), Failure>>) -> (action: Action)
        requires
            old(self).stage_spec() == Stage::Publishing,
        ensures
            action == Action::Finish,
            final(self).stage_spec() == Stage::Finished,
            final(self).files_spec() == old(self).files_spec(),
            final(self).unread_spec() == old(self).unread_spec(),
            final(self).unpublished_spec() == failures(results@),
    {
        let (_, failed) = collect_each(results);
        self.unpublished = failed;
        self.stage = Stage::Finished;
        Action::Finish
    }
}

} // verus!
