//! Detached signatures made by the GPG command line tool.
//!
//! The caller runs the tool. This module says with which arguments, and reads
//! what the tool answered: the identifier of an imported key, the outcome of a
//! deletion, and the signature of one file.

use crate::process::{first_line, ProcessOutput};
use crate::text::{
    find_byte, has_prefix, index_of, lemma_index_of, push_text, starts_with, strings_view,
    trim_matches, trimmed, utf8_text,
};
use vstd::prelude::*;
use vstd::string::{StringExecFns, StringSliceAdditionalSpecFns};
use vstd::utf8::{encode_utf8, valid_utf8};

verus! {

/// Identifier of an imported key, as [`import_key`] reads it.
#[derive(Debug)]
pub struct KeyId(String);

impl KeyId {
    /// The text of the identifier.
    pub closed spec fn text(&self) -> Seq<char> {
        self.0@
    }

    /// The text of the identifier.
    pub fn as_str(&self) -> (text: &str)
        ensures
            text@ == self.text(),
    {
        self.0.as_str()
    }
}

/// Why a step of signing failed. `diagnostic` is what the tool wrote to its
/// standard error.
#[derive(Debug)]
pub enum GpgError {
    /// The tool could not import the key.
    Import { diagnostic: Vec<u8> },
    /// The answer to the import holds a line that is not valid UTF-8.
    Unreadable,
    /// The answer to the import names no key.
    NoKeyId,
    /// The tool could not delete the secret part of the key.
    DeleteSecret { diagnostic: Vec<u8> },
    /// The tool could not delete the public part of the key.
    DeletePublic { diagnostic: Vec<u8> },
    /// The tool could not sign the file `name`.
    Sign { name: String, diagnostic: Vec<u8> },
}

/// The arguments that every run of the tool gets.
pub open spec fn default_args() -> Seq<Seq<char>> {
    seq!["--batch"@, "--with-colons"@, "--yes"@, "--pinentry-mode"@, "loopback"@]
}

/// The arguments that hand over a passphrase, if there is one.
pub open spec fn passphrase_args(passphrase: Option<&str>) -> Seq<Seq<char>> {
    match passphrase {
        Some(secret) => seq!["--passphrase"@, secret@],
        None => Seq::empty(),
    }
}

/// The arguments of the run that imports the key in the file `key_file`.
pub open spec fn import_args_spec(passphrase: Option<&str>, key_file: Seq<char>) -> Seq<Seq<char>> {
    seq!["--import"@] + default_args() + seq!["--import-options"@, "import-show"@]
        + passphrase_args(passphrase) + seq![key_file]
}

/// The arguments of the run that deletes the secret part of a key.
pub open spec fn delete_secret_args_spec(key: Seq<char>) -> Seq<Seq<char>> {
    seq!["--delete-secret-keys"@] + default_args() + seq![key]
}

/// The arguments of the run that deletes the public part of a key.
pub open spec fn delete_public_args_spec(key: Seq<char>) -> Seq<Seq<char>> {
    seq!["--delete-keys"@] + default_args() + seq![key]
}

/// The arguments of a run that signs its standard input with a key and writes
/// the armored detached signature to its standard output.
pub open spec fn sign_args_spec(key: Seq<char>, passphrase: Option<&str>) -> Seq<Seq<char>> {
    seq!["--detach-sign"@] + default_args() + seq!["--armor"@, "--output"@, "-"@] + seq![
        "--local-user"@,
        key,
    ] + passphrase_args(passphrase) + seq!["-"@]
}

fn push_default_args(args: &mut Vec<String>)
    ensures
        strings_view(final(args)@) == strings_view(old(args)@) + default_args(),
{
    push_text(args, "--batch");
    push_text(args, "--with-colons");
    push_text(args, "--yes");
    push_text(args, "--pinentry-mode");
    push_text(args, "loopback");
    assert(strings_view(args@) =~= strings_view(old(args)@) + default_args());
}

fn push_passphrase(args: &mut Vec<String>, passphrase: Option<&str>)
    ensures
        strings_view(final(args)@) == strings_view(old(args)@) + passphrase_args(passphrase),
{
    if let Some(secret) = passphrase {
        push_text(args, "--passphrase");
        push_text(args, secret);
    }
    assert(strings_view(args@) =~= strings_view(old(args)@) + passphrase_args(passphrase));
}

/// The arguments of the run that imports the key in the file `key_file`.
pub fn import_args(passphrase: Option<&str>, key_file: &str) -> (args: Vec<String>)
    ensures
        strings_view(args@) == import_args_spec(passphrase, key_file@),
{
    let mut args: Vec<String> = Vec::new();
    push_text(&mut args, "--import");
    push_default_args(&mut args);
    push_text(&mut args, "--import-options");
    push_text(&mut args, "import-show");
    push_passphrase(&mut args, passphrase);
    push_text(&mut args, key_file);
    assert(strings_view(args@) =~= import_args_spec(passphrase, key_file@));
    args
}

/// The arguments of the run that deletes the secret part of a key.
pub fn delete_secret_args(key_id: &KeyId) -> (args: Vec<String>)
    ensures
        strings_view(args@) == delete_secret_args_spec(key_id.text()),
{
    let mut args: Vec<String> = Vec::new();
    push_text(&mut args, "--delete-secret-keys");
    push_default_args(&mut args);
    push_text(&mut args, key_id.as_str());
    assert(strings_view(args@) =~= delete_secret_args_spec(key_id.text()));
    args
}

/// The arguments of the run that deletes the public part of a key.
pub fn delete_public_args(key_id: &KeyId) -> (args: Vec<String>)
    ensures
        strings_view(args@) == delete_public_args_spec(key_id.text()),
{
    let mut args: Vec<String> = Vec::new();
    push_text(&mut args, "--delete-keys");
    push_default_args(&mut args);
    push_text(&mut args, key_id.as_str());
    assert(strings_view(args@) =~= delete_public_args_spec(key_id.text()));
    args
}

/// The arguments of a run that signs its standard input.
pub fn sign_args(key_id: &KeyId, passphrase: Option<&str>) -> (args: Vec<String>)
    ensures
        strings_view(args@) == sign_args_spec(key_id.text(), passphrase),
{
    let mut args: Vec<String> = Vec::new();
    push_text(&mut args, "--detach-sign");
    push_default_args(&mut args);
    push_text(&mut args, "--armor");
    push_text(&mut args, "--output");
    push_text(&mut args, "-");
    push_text(&mut args, "--local-user");
    push_text(&mut args, key_id.as_str());
    push_passphrase(&mut args, passphrase);
    push_text(&mut args, "-");
    assert(strings_view(args@) =~= sign_args_spec(key_id.text(), passphrase));
    args
}

/// What the answer to an import says about the key.
pub enum Fingerprint {
    /// The bytes of the identifier of the key.
    Found(Seq<u8>),
    /// A line before the first fingerprint is not valid UTF-8.
    Unreadable,
    /// No line holds a fingerprint.
    Missing,
}

/// The bytes `fpr:`, with which a fingerprint line begins.
pub open spec fn fingerprint_mark() -> Seq<u8> {
    seq![0x66u8, 0x70u8, 0x72u8, 0x3au8]
}

/// Reads the answer to an import line by line. The first line that begins
/// with `fpr:` gives the identifier: the rest of that line without the colons
/// at its start and at its end.
pub open spec fn fingerprint_of(bytes: Seq<u8>) -> Fingerprint
    decreases bytes.len(),
{
    if bytes.len() == 0 {
        Fingerprint::Missing
    } else {
        let end = index_of(bytes, 0x0a);
        let line = first_line(bytes);
        if !valid_utf8(line) {
            Fingerprint::Unreadable
        } else if has_prefix(line, fingerprint_mark()) {
            Fingerprint::Found(trimmed(line.skip(4), 0x3a))
        } else if 0 <= end < bytes.len() {
            fingerprint_of(bytes.skip(end + 1))
        } else {
            Fingerprint::Missing
        }
    }
}

/// Whether `read` is what the answer `output` to an import gives: the
/// identifier of the key if the run succeeded and the answer names one.
pub open spec fn import_outcome(output: ProcessOutput, read: Result<KeyId, GpgError>) -> bool {
    match read {
        Ok(key) => output.success && fingerprint_of(output.stdout@) == Fingerprint::Found(
            encode_utf8(key.text()),
        ),
        Err(GpgError::Import { diagnostic }) => !output.success && diagnostic@ == output.stderr@,
        Err(GpgError::Unreadable) => output.success && fingerprint_of(output.stdout@)
            == Fingerprint::Unreadable,
        Err(GpgError::NoKeyId) => output.success && fingerprint_of(output.stdout@)
            == Fingerprint::Missing,
        Err(_) => false,
    }
}

/// Reads the identifier of the imported key from the answer of the run that
/// imported it.
pub fn import_key(output: ProcessOutput) -> (read: Result<KeyId, GpgError>)
    ensures
        import_outcome(output, read),
{
    if !output.success {
        return Err(GpgError::Import { diagnostic: output.stderr });
    }
    let bytes = output.stdout.as_slice();
    let mut from: usize = 0;
    assert(bytes@.skip(0) =~= bytes@);
    while from < bytes.len()
        invariant
            0 <= from <= bytes@.len(),
            output.success,
            bytes@ == output.stdout@,
            fingerprint_of(bytes@) == fingerprint_of(bytes@.skip(from as int)),
        decreases bytes@.len() - from,
    {
        let rest = vstd::slice::slice_subrange(bytes, from, bytes.len());
        assert(rest@ =~= bytes@.skip(from as int));
        let end = find_byte(rest, 0x0a);
        proof {
            lemma_index_of(rest@, 0x0a);
        }
        let cut = if end < rest.len() && end > 0 && rest[end - 1] == 0x0d {
            end - 1
        } else {
            end
        };
        let line = vstd::slice::slice_subrange(rest, 0, cut);
        assert(line@ =~= first_line(rest@));
        let text = match utf8_text(line) {
            Some(text) => text,
            None => {
                return Err(GpgError::Unreadable);
            },
        };
        let mark: [u8; 4] = [0x66, 0x70, 0x72, 0x3a];
        assert(mark@ =~= fingerprint_mark());
        if starts_with(line, mark.as_slice()) {
            let tail = crate::text::str_from(text, 4);
            assert(tail.spec_bytes() == line@.skip(4));
            let inner = trim_matches(tail, 0x3a);
            let key = KeyId(String::from_str(inner));
            assert(encode_utf8(key.text()) == inner.spec_bytes());
            return Ok(key);
        }
        if end >= rest.len() {
            return Err(GpgError::NoKeyId);
        }
        proof {
            assert(rest@.skip(end as int + 1) =~= bytes@.skip(from as int + end as int + 1));
        }
        from = from + end + 1;
    }
    assert(bytes@.skip(from as int).len() == 0);
    Err(GpgError::NoKeyId)
}

/// Which part of a key is deleted next.
#[derive(Clone, Copy, Debug, PartialEq, Eq, Structural)]
pub enum Deletion {
    /// The secret part, which goes first.
    Secret,
    /// The public part.
    Public,
    /// Nothing: both parts are gone.
    Done,
}

/// Whether `next` is what follows when the run that deletes the part `part`
/// ended with `output`: the next part if it succeeded, the failure of that
/// part if not.
pub open spec fn delete_outcome(
    part: Deletion,
    output: ProcessOutput,
    next: Result<Deletion, GpgError>,
) -> bool {
    match next {
        Ok(Deletion::Secret) => false,
        Ok(Deletion::Public) => part == Deletion::Secret && output.success,
        Ok(Deletion::Done) => part == Deletion::Done || (part == Deletion::Public
            && output.success),
        Err(GpgError::DeleteSecret { diagnostic }) => part == Deletion::Secret && !output.success
            && diagnostic@ == output.stderr@,
        Err(GpgError::DeletePublic { diagnostic }) => part == Deletion::Public && !output.success
            && diagnostic@ == output.stderr@,
        Err(_) => false,
    }
}

/// Reads the answer of a run that deleted one part of a key and says which
/// part is to delete next. The public part is deleted only after the secret
/// part is gone.
pub fn delete_key(part: Deletion, output: ProcessOutput) -> (next: Result<Deletion, GpgError>)
    ensures
        delete_outcome(part, output, next),
{
    match part {
        Deletion::Secret => {
            if output.success {
                Ok(Deletion::Public)
            } else {
                Err(GpgError::DeleteSecret { diagnostic: output.stderr })
            }
        },
        Deletion::Public => {
            if output.success {
                Ok(Deletion::Done)
            } else {
                Err(GpgError::DeletePublic { diagnostic: output.stderr })
            }
        },
        Deletion::Done => Ok(Deletion::Done),
    }
}

/// The name of the signature of the file `name`.
pub open spec fn signature_name(name: Seq<char>) -> Seq<char> {
    name + ".asc"@
}

/// Whether `signed` is what the answer `output` of a signing run for the file
/// `name` gives: the signature under its name if the run succeeded.
pub open spec fn sign_outcome(
    name: Seq<char>,
    output: ProcessOutput,
    signed: Result<(String, Vec<u8>), GpgError>,
) -> bool {
    match signed {
        Ok(file) => output.success && file.0@ == signature_name(name) && file.1@
            == output.stdout@,
        Err(GpgError::Sign { name: failed, diagnostic }) => !output.success && failed@ == name
            && diagnostic@ == output.stderr@,
        Err(_) => false,
    }
}

/// Reads the answer of the run that signed the file `name`. The signature is
/// what the run wrote to its standard output.
pub fn sign(name: &str, output: ProcessOutput) -> (signed: Result<(String, Vec<u8>), GpgError>)
    ensures
        sign_outcome(name@, output, signed),
{
    if !output.success {
        return Err(GpgError::Sign { name: String::from_str(name), diagnostic: output.stderr });
    }
    let mut file = String::from_str(name);
    file.append(".asc");
    Ok((file, output.stdout))
}

} // verus!
