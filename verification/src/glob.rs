//! Selecting assets by glob pattern.
//!
//! Patterns are compiled by the `globset` crate with literal separators: a
//! wildcard never matches `/`. A [`Matcher`] holds the compiled set, and a name
//! is selected when at least one of its patterns matches.

use crate::release::{Asset, Release};
use globset::{Glob, GlobBuilder, GlobSet, GlobSetBuilder};
use vstd::prelude::*;

verus! {

/// `globset::Glob`, a parsed pattern. Nothing of its inside is used.
#[verifier::external_type_specification]
#[verifier::external_body]
pub struct ExGlob(Glob);

/// `globset::GlobSet`, a compiled list of patterns. Nothing of its inside is
/// used.
#[verifier::external_type_specification]
#[verifier::external_body]
pub struct ExGlobSet(GlobSet);

/// `globset::GlobSetBuilder`, a list of parsed patterns that is still
/// growing. Nothing of its inside is used.
#[verifier::external_type_specification]
#[verifier::external_body]
pub struct ExGlobSetBuilder(GlobSetBuilder);

/// `globset::Error`, of which only the text is used.
#[verifier::external_type_specification]
#[verifier::external_body]
pub struct ExGlobError(globset::Error);

/// Whether `pattern` is a syntactically valid glob: whether
/// `GlobBuilder::build` accepts it. The answer is fixed for a target platform:
/// where `\` separates paths, `globset` reads it as a separator and not as an
/// escape.
pub uninterp spec fn glob_parses(pattern: Seq<char>) -> bool;

/// Whether the glob written as `pattern`, compiled with literal separators,
/// matches the path `name`. The answer is fixed for a target platform: where
/// `\` separates paths, `globset` reads it as a separator, in the pattern and
/// in the name.
pub uninterp spec fn glob_matches(pattern: Seq<char>, name: Seq<char>) -> bool;

/// The pattern text a parsed glob was built from, as `Glob::glob` returns it.
pub uninterp spec fn glob_text(glob: Glob) -> Seq<char>;

/// The pattern texts of the globs added to a builder so far, in order.
pub uninterp spec fn builder_texts(builder: GlobSetBuilder) -> Seq<Seq<char>>;

/// The pattern texts of the globs a compiled set was built from, in order.
pub uninterp spec fn set_texts(set: GlobSet) -> Seq<Seq<char>>;

/// Whether `GlobSetBuilder::build` succeeds on globs with these pattern texts:
/// whether their combined regular expressions fit the crate's size limits.
pub uninterp spec fn set_compiles(patterns: Seq<Seq<char>>) -> bool;

/// Whether at least one of `patterns` matches `name`.
pub open spec fn matches_any(patterns: Seq<Seq<char>>, name: Seq<char>) -> bool {
    exists|i: int| 0 <= i < patterns.len() && glob_matches(#[trigger] patterns[i], name)
}

/// Whether every one of `patterns` is a valid glob.
pub open spec fn all_parse(patterns: Seq<Seq<char>>) -> bool {
    forall|i: int| 0 <= i < patterns.len() ==> glob_parses(#[trigger] patterns[i])
}

/// The pattern texts of a list of pattern strings.
pub open spec fn texts(globs: Seq<&str>) -> Seq<Seq<char>> {
    Seq::new(globs.len(), |i: int| globs[i]@)
}

/// Calls `GlobBuilder::new(pattern).literal_separator(true).build()`. The
/// result is `Ok` exactly for the patterns the crate's parser accepts, and the
/// glob it holds remembers the pattern text unchanged.
#[verifier::external_body]
fn parse_glob(pattern: &str) -> (parsed: Result<Glob, globset::Error>)
    ensures
        parsed.is_ok() == glob_parses(pattern@),
        parsed matches Ok(glob) ==> glob_text(glob) == pattern@,
{
    GlobBuilder::new(pattern).literal_separator(true).build()
}

/// Calls `GlobSetBuilder::new`, which starts with no glob.
#[verifier::external_body]
fn builder_new() -> (builder: GlobSetBuilder)
    ensures
        builder_texts(builder) == Seq::<Seq<char>>::empty(),
{
    GlobSetBuilder::new()
}

/// Calls `GlobSetBuilder::add`, which appends the glob to the builder's list.
#[verifier::external_body]
fn builder_add(builder: &mut GlobSetBuilder, glob: Glob)
    ensures
        builder_texts(*final(builder)) == builder_texts(*old(builder)).push(glob_text(glob)),
{
    builder.add(glob);
}

/// Calls `GlobSetBuilder::build`. It compiles the globs added so far into one
/// set, and fails only when the combined regular expression cannot be built.
#[verifier::external_body]
fn builder_build(builder: &GlobSetBuilder) -> (built: Result<GlobSet, globset::Error>)
    ensures
        built.is_ok() == set_compiles(builder_texts(*builder)),
        built matches Ok(set) ==> set_texts(set) == builder_texts(*builder),
{
    builder.build()
}

/// Calls `GlobSet::is_match`, which is documented to return true if any glob
/// in the set matches the path given.
#[verifier::external_body]
fn set_is_match(set: &GlobSet, name: &str) -> (hit: bool)
    ensures
        hit == (exists|i: int|
            0 <= i < set_texts(*set).len() && glob_matches(#[trigger] set_texts(*set)[i], name@)),
{
    set.is_match(name)
}

/// Calls the `Display` impl of `globset::Error` for the text of the error.
#[verifier::external_body]
fn error_text(error: &globset::Error) -> String {
    format!("{error}")
}

/// Why a list of patterns could not be compiled.
#[derive(Debug)]
pub enum PatternError {
    /// The pattern at `index` is the first one that is not a valid glob.
    Invalid { index: usize, message: String },
    /// Every pattern is valid, but the set as a whole could not be compiled.
    Compile { message: String },
}

impl PatternError {
    /// The description that the failure carries.
    pub open spec fn text(&self) -> Seq<char> {
        match self {
            PatternError::Invalid { message, .. } => message@,
            PatternError::Compile { message } => message@,
        }
    }

    /// A description of the failure.
    pub fn message(&self) -> (text: &str)
        ensures
            text@ == self.text(),
    {
        match self {
            PatternError::Invalid { message, .. } => message.as_str(),
            PatternError::Compile { message } => message.as_str(),
        }
    }
}

/// A compiled list of glob patterns.
pub struct Matcher {
    set: GlobSet,
}

impl Matcher {
    /// The pattern texts this matcher was compiled from.
    pub closed spec fn patterns(&self) -> Seq<Seq<char>> {
        set_texts(self.set)
    }

    /// Whether `name` matches at least one pattern of this matcher.
    pub fn is_match(&self, name: &str) -> (hit: bool)
        ensures
            hit == matches_any(self.patterns(), name@),
    {
        set_is_match(&self.set, name)
    }
}

/// Compiles a list of glob patterns into one matcher.
///
/// Fails with the first invalid pattern, if there is one.
pub fn build_globset(globs: &[&str]) -> (built: Result<Matcher, PatternError>)
    ensures
        match built {
            Ok(matcher) => {
                &&& all_parse(texts(globs@))
                &&& set_compiles(texts(globs@))
                &&& matcher.patterns() == texts(globs@)
            },
            Err(PatternError::Invalid { index, .. }) => {
                &&& index < globs@.len()
                &&& !glob_parses(globs@[index as int]@)
                &&& forall|j: int| 0 <= j < index ==> glob_parses(#[trigger] globs@[j]@)
            },
            Err(PatternError::Compile { .. }) => {
                &&& all_parse(texts(globs@))
                &&& !set_compiles(texts(globs@))
            },
        },
{
    let mut builder = builder_new();
    let mut i: usize = 0;
    while i < globs.len()
        invariant
            0 <= i <= globs@.len(),
            builder_texts(builder) == texts(globs@).take(i as int),
            forall|j: int| 0 <= j < i ==> glob_parses(#[trigger] globs@[j]@),
        decreases globs@.len() - i,
    {
        match parse_glob(globs[i]) {
            Ok(glob) => {
                builder_add(&mut builder, glob);
                assert(texts(globs@).take(i as int).push(globs@[i as int]@) =~= texts(globs@).take(
                    i as int + 1,
                ));
            },
            Err(error) => {
                return Err(PatternError::Invalid { index: i, message: error_text(&error) });
            },
        }
        i += 1;
    }
    assert(texts(globs@).take(i as int) =~= texts(globs@));
    match builder_build(&builder) {
        Ok(set) => Ok(Matcher { set }),
        Err(error) => Err(PatternError::Compile { message: error_text(&error) }),
    }
}

/// The assets whose name at least one of `patterns` matches, in the order of
/// `assets`.
pub open spec fn selected(assets: Seq<Asset>, patterns: Seq<Seq<char>>) -> Seq<Asset>
    decreases assets.len(),
{
    if assets.len() == 0 {
        Seq::empty()
    } else if matches_any(patterns, assets.last().name@) {
        selected(assets.drop_last(), patterns).push(assets.last())
    } else {
        selected(assets.drop_last(), patterns)
    }
}

/// The assets that a list of references points at.
pub open spec fn pointed(chosen: Seq<&Asset>) -> Seq<Asset> {
    Seq::new(chosen.len(), |i: int| *chosen[i])
}

/// Picks the assets of the release whose name the matcher matches, in the
/// order the release lists them.
pub fn select<'a>(release: &'a Release, matcher: &Matcher) -> (chosen: Vec<&'a Asset>)
    ensures
        pointed(chosen@) == selected(release.assets@, matcher.patterns()),
{
    let mut chosen: Vec<&'a Asset> = Vec::new();
    let mut i: usize = 0;
    while i < release.assets.len()
        invariant
            0 <= i <= release.assets@.len(),
            pointed(chosen@) == selected(release.assets@.take(i as int), matcher.patterns()),
        decreases release.assets@.len() - i,
    {
        let asset = &release.assets[i];
        let ghost before = chosen@;
        proof {
            let next = release.assets@.take(i as int + 1);
            assert(next.drop_last() =~= release.assets@.take(i as int));
            assert(next.last() == release.assets@[i as int]);
        }
        if matcher.is_match(asset.name.as_str()) {
            chosen.push(asset);
            assert(pointed(chosen@) =~= pointed(before).push(*asset));
        }
        i += 1;
    }
    assert(release.assets@.take(i as int) =~= release.assets@);
    chosen
}

} // verus!
