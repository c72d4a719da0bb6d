//! The inputs of the three tools, read from the variables whose name begins
//! with `INPUT_`.

use crate::env::{
    collect_fields, first_repeat, no_repeat, option_view, pairs_view, value_of, EnvError,
};
use crate::text::{find_byte, index_of, lemma_index_of, str_from, str_until, strings_view};
use crate::toolchain::{toolchain_of, Channel, Toolchain};
use crate::triple::{parse_triple, triple_from};
use target_lexicon::Triple;
use vstd::prelude::*;
use vstd::string::{StringExecFns, StringSliceAdditionalSpecFns};
use vstd::utf8::encode_utf8;

verus! {

/// The parts of `bytes` between its commas, in order. A text without a comma
/// is one part.
pub open spec fn comma_parts(bytes: Seq<u8>) -> Seq<Seq<u8>>
    decreases bytes.len(),
{
    let comma = index_of(bytes, 0x2c);
    if 0 <= comma < bytes.len() {
        seq![bytes.take(comma)] + comma_parts(bytes.skip(comma + 1))
    } else {
        seq![bytes]
    }
}

/// The items of a list written with commas between them. The empty text
/// writes the empty list.
pub open spec fn list_of(text: Seq<char>) -> Seq<Seq<u8>> {
    if text.len() == 0 {
        Seq::empty()
    } else {
        comma_parts(encode_utf8(text))
    }
}

/// The UTF-8 bytes of each string of a list.
pub open spec fn bytes_view(list: Seq<String>) -> Seq<Seq<u8>> {
    Seq::new(list.len(), |i: int| encode_utf8(list[i]@))
}

/// Reads a list written with commas between its items.
pub fn split_list(text: &str) -> (items: Vec<String>)
    ensures
        bytes_view(items@) == list_of(text@),
{
    let mut items: Vec<String> = Vec::new();
    if text.is_empty() {
        assert(bytes_view(items@) =~= list_of(text@));
        return items;
    }
    let mut rest = text;
    loop
        invariant
            bytes_view(items@) + comma_parts(rest.spec_bytes()) == list_of(text@),
        decreases rest.spec_bytes().len(),
    {
        let bytes = rest.as_bytes();
        let comma = find_byte(bytes, 0x2c);
        proof {
            lemma_index_of(bytes@, 0x2c);
        }
        let ghost before = items@;
        let head = str_until(rest, comma);
        items.push(String::from_str(head));
        assert(bytes_view(items@) =~= bytes_view(before).push(bytes@.take(comma as int)));
        if comma == bytes.len() {
            assert(bytes@.take(comma as int) =~= bytes@);
            assert(bytes_view(items@) =~= bytes_view(before) + comma_parts(bytes@));
            return items;
        }
        assert(bytes_view(items@) + comma_parts(bytes@.skip(comma as int + 1)) =~= bytes_view(
            before,
        ) + comma_parts(bytes@));
        rest = str_from(rest, comma + 1);
    }
}

/// The patterns that select the files a checksum run hashes, when none are
/// given.
pub open spec fn default_hash_globs() -> Seq<Seq<char>> {
    seq!["*.tar.gz"@, "*.zip"@]
}

/// The patterns that select the files a signing run signs, when none are
/// given.
pub open spec fn default_sign_globs() -> Seq<Seq<char>> {
    seq!["*.{b2,sha256,sha512}"@]
}

/// The inputs of the tool that publishes checksum files.
#[derive(Debug)]
pub struct HashOptions {
    /// The patterns that select the assets to hash.
    pub globs: Vec<String>,
}

/// The inputs of the tool that publishes signatures.
#[derive(Debug)]
pub struct SignOptions {
    /// The armored secret key to sign with.
    pub gpg_key: String,
    /// The passphrase of the key, if it has one.
    pub gpg_passphrase: Option<String>,
    /// The patterns that select the assets to sign.
    pub globs: Vec<String>,
}

/// The inputs of the tool that builds and publishes a binary.
#[derive(Debug)]
pub struct BuildOptions {
    /// The toolchain to build with.
    pub toolchain: Toolchain,
    /// The target to build for, if it is not the host.
    pub target: Option<Triple>,
    /// The features to build with.
    pub features: Vec<String>,
    /// The name of the binary to build.
    pub bin: String,
}

/// Whether `field` is the first repeated name among the entries.
pub open spec fn repeated(
    entries: Seq<(Seq<char>, Seq<char>)>,
    names: Seq<&'static str>,
    field: Seq<char>,
) -> bool {
    exists|at: int| first_repeat(entries, names, at) && field == (#[trigger] entries[at]).0
}

/// The names of the fields of [`HashOptions`].
pub open spec fn hash_fields() -> Seq<&'static str> {
    seq!["globs"]
}

/// The names of the fields of [`SignOptions`].
pub open spec fn sign_fields() -> Seq<&'static str> {
    seq!["gpg_key", "gpg_passphrase", "globs"]
}

/// The names of the fields of [`BuildOptions`].
pub open spec fn build_fields() -> Seq<&'static str> {
    seq!["toolchain", "target", "features", "bin"]
}

/// Whether `globs` are the patterns that the entries give: the list under
/// the name `globs`, or `default` when that name is missing.
pub open spec fn globs_from(
    entries: Seq<(Seq<char>, Seq<char>)>,
    default: Seq<Seq<char>>,
    globs: Seq<String>,
) -> bool {
    match value_of(entries, "globs"@) {
        Some(text) => bytes_view(globs) == list_of(text),
        None => strings_view(globs) == default,
    }
}

/// The patterns that select the files a checksum run hashes, when none are
/// given.
pub fn default_globs() -> (globs: Vec<String>)
    ensures
        strings_view(globs@) == default_hash_globs(),
{
    let mut globs: Vec<String> = Vec::new();
    globs.push(String::from_str("*.tar.gz"));
    globs.push(String::from_str("*.zip"));
    assert(strings_view(globs@) =~= default_hash_globs());
    globs
}

/// The patterns that select the files a signing run signs, when none are
/// given.
pub fn default_signature_globs() -> (globs: Vec<String>)
    ensures
        strings_view(globs@) == default_sign_globs(),
{
    let mut globs: Vec<String> = Vec::new();
    globs.push(String::from_str("*.{b2,sha256,sha512}"));
    assert(strings_view(globs@) =~= default_sign_globs());
    globs
}

impl HashOptions {
    /// Whether `read` is what the entries give as the inputs of a checksum
    /// run.
    pub open spec fn from(entries: Seq<(Seq<char>, Seq<char>)>, read: Result<HashOptions, EnvError>) -> bool {
        match read {
            Ok(options) => no_repeat(entries, hash_fields()) && globs_from(
                entries,
                default_hash_globs(),
                options.globs@,
            ),
            Err(EnvError::Duplicate { field }) => repeated(entries, hash_fields(), field@),
            Err(_) => false,
        }
    }

    /// Reads the inputs of a checksum run from a list of fields.
    pub fn from_entries(entries: &Vec<(String, String)>) -> (read: Result<HashOptions, EnvError>)
        ensures
            Self::from(pairs_view(entries@), read),
    {
        let mut names: Vec<&'static str> = Vec::new();
        names.push("globs");
        assert(names@ =~= hash_fields());
        let mut values = match collect_fields(entries, names.as_slice()) {
            Ok(values) => values,
            Err(error) => {
                return Err(error);
            },
        };
        let globs = match values.pop().unwrap() {
            Some(text) => split_list(text.as_str()),
            None => default_globs(),
        };
        Ok(HashOptions { globs })
    }
}

impl SignOptions {
    /// Whether `read` is what the entries give as the inputs of a signing
    /// run.
    pub open spec fn from(entries: Seq<(Seq<char>, Seq<char>)>, read: Result<SignOptions, EnvError>) -> bool {
        match read {
            Ok(options) => {
                &&& no_repeat(entries, sign_fields())
                &&& value_of(entries, "gpg_key"@) == Some(options.gpg_key@)
                &&& value_of(entries, "gpg_passphrase"@) == option_view(options.gpg_passphrase)
                &&& globs_from(entries, default_sign_globs(), options.globs@)
            },
            Err(EnvError::Duplicate { field }) => repeated(entries, sign_fields(), field@),
            Err(EnvError::Missing { field }) => {
                &&& no_repeat(entries, sign_fields())
                &&& field@ == "gpg_key"@
                &&& value_of(entries, "gpg_key"@) is None
            },
            Err(_) => false,
        }
    }

    /// Reads the inputs of a signing run from a list of fields.
    pub fn from_entries(entries: &Vec<(String, String)>) -> (read: Result<SignOptions, EnvError>)
        ensures
            Self::from(pairs_view(entries@), read),
    {
        let mut names: Vec<&'static str> = Vec::new();
        names.push("gpg_key");
        names.push("gpg_passphrase");
        names.push("globs");
        proof {
            reveal_strlit("gpg_key");
            reveal_strlit("gpg_passphrase");
            reveal_strlit("globs");
            assert(names@ =~= sign_fields());
            assert("gpg_key"@.len() == 7 && "gpg_passphrase"@.len() == 14 && "globs"@.len() == 5);
            assert(names@[0]@ == "gpg_key"@ && names@[1]@ == "gpg_passphrase"@ && names@[2]@
                == "globs"@);
        }
        let mut values = match collect_fields(entries, names.as_slice()) {
            Ok(values) => values,
            Err(error) => {
                return Err(error);
            },
        };
        let ghost found = values@;
        let globs = values.pop().unwrap();
        let gpg_passphrase = values.pop().unwrap();
        let gpg_key = values.pop().unwrap();
        assert(gpg_key == found[0] && gpg_passphrase == found[1] && globs == found[2]);
        let gpg_key = match gpg_key {
            Some(text) => text,
            None => {
                return Err(EnvError::Missing { field: "gpg_key" });
            },
        };
        let globs = match globs {
            Some(text) => split_list(text.as_str()),
            None => default_signature_globs(),
        };
        Ok(SignOptions { gpg_key, gpg_passphrase, globs })
    }
}

impl BuildOptions {
    /// Whether `read` is what the entries give as the inputs of a build. A
    /// missing toolchain is the stable one, and a missing target stands for
    /// the host. What is wrong with the toolchain is reported before what is
    /// wrong with the target, and that before a missing binary.
    pub open spec fn from(entries: Seq<(Seq<char>, Seq<char>)>, read: Result<BuildOptions, EnvError>) -> bool {
        let toolchain = match value_of(entries, "toolchain"@) {
            Some(text) => toolchain_of(text),
            None => Ok(Toolchain { channel: Channel::Stable, date: None, host: None }),
        };
        let target = match value_of(entries, "target"@) {
            Some(text) => match triple_from(text) {
                Some(triple) => Ok(Some(triple)),
                None => Err(()),
            },
            None => Ok(None),
        };
        match read {
            Ok(options) => {
                &&& no_repeat(entries, build_fields())
                &&& toolchain == Ok::<Toolchain, crate::toolchain::ParseError>(options.toolchain)
                &&& target == Ok::<Option<Triple>, ()>(options.target)
                &&& match value_of(entries, "features"@) {
                    Some(text) => bytes_view(options.features@) == list_of(text),
                    None => options.features@.len() == 0,
                }
                &&& value_of(entries, "bin"@) == Some(options.bin@)
            },
            Err(EnvError::Duplicate { field }) => repeated(entries, build_fields(), field@),
            Err(EnvError::Invalid { field }) => {
                &&& no_repeat(entries, build_fields())
                &&& if toolchain is Err {
                    field@ == "toolchain"@
                } else {
                    field@ == "target"@ && target is Err
                }
            },
            Err(EnvError::Missing { field }) => {
                &&& no_repeat(entries, build_fields())
                &&& toolchain is Ok
                &&& target is Ok
                &&& field@ == "bin"@
                &&& value_of(entries, "bin"@) is None
            },
            Err(_) => false,
        }
    }

    /// Reads the inputs of a build from a list of fields.
    pub fn from_entries(entries: &Vec<(String, String)>) -> (read: Result<BuildOptions, EnvError>)
        ensures
            Self::from(pairs_view(entries@), read),
    {
        let mut names: Vec<&'static str> = Vec::new();
        names.push("toolchain");
        names.push("target");
        names.push("features");
        names.push("bin");
        proof {
            reveal_strlit("toolchain");
            reveal_strlit("target");
            reveal_strlit("features");
            reveal_strlit("bin");
            assert(names@ =~= build_fields());
            assert("toolchain"@.len() == 9 && "target"@.len() == 6 && "features"@.len() == 8
                && "bin"@.len() == 3);
            assert(names@[0]@ == "toolchain"@ && names@[1]@ == "target"@ && names@[2]@
                == "features"@ && names@[3]@ == "bin"@);
        }
        let mut values = match collect_fields(entries, names.as_slice()) {
            Ok(values) => values,
            Err(error) => {
                return Err(error);
            },
        };
        let ghost found = values@;
        let bin = values.pop().unwrap();
        let features = values.pop().unwrap();
        let target = values.pop().unwrap();
        let toolchain = values.pop().unwrap();
        assert(toolchain == found[0] && target == found[1] && features == found[2] && bin
            == found[3]);
        let toolchain = match toolchain {
            Some(text) => match Toolchain::parse(text.as_str()) {
                Ok(toolchain) => toolchain,
                Err(_) => {
                    return Err(EnvError::Invalid { field: "toolchain" });
                },
            },
            None => Toolchain::channel(Channel::Stable),
        };
        let target = match target {
            Some(text) => match parse_triple(text.as_str()) {
                Some(triple) => Some(triple),
                None => {
                    return Err(EnvError::Invalid { field: "target" });
                },
            },
            None => None,
        };
        let features = match features {
            Some(text) => split_list(text.as_str()),
            None => Vec::new(),
        };
        let bin = match bin {
            Some(text) => text,
            None => {
                return Err(EnvError::Missing { field: "bin" });
            },
        };
        Ok(BuildOptions { toolchain, target, features, bin })
    }
}

} // verus!
