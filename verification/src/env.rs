//! Reading settings from environment variables.
//!
//! The caller hands over the variables of the process as pairs of name and
//! value. Variables with an empty value count as unset. The `envy` crate picks
//! the variables that carry a prefix, strips the prefix and lower-cases the
//! rest of the name; what is left names a field of the settings.

use crate::text::str_eq;
use serde_with::de::DeserializeAsWrap;
use serde_with::Same;
use std::collections::BTreeMap;
use vstd::prelude::*;

verus! {

/// Settings that are present for every action in a runner environment.
#[derive(Debug)]
pub struct GithubArgs {
    /// The access token for the API.
    pub token: String,
    /// Owner and name of the repository, like `owner/name`.
    pub repository: String,
    /// Name of the branch or tag that triggered the action.
    pub ref_name: String,
}

/// Why settings could not be read.
#[derive(Debug)]
pub enum EnvError {
    /// The variables could not be read as a list of fields.
    Source,
    /// Two variables name the same field.
    Duplicate { field: String },
    /// No variable names a field that has to be set.
    Missing { field: &'static str },
    /// The value of a field could not be read.
    Invalid { field: &'static str },
}

/// The fields that `envy` makes of the variables `vars` under the prefix
/// `prefix`, as pairs of field name and value in the order of the variables,
/// or `None` if it fails.
pub uninterp spec fn envy_entries(prefix: Seq<char>, vars: Seq<(Seq<char>, Seq<char>)>) -> Option<
    Seq<(Seq<char>, Seq<char>)>,
>;

/// The names and values of a list of pairs of strings.
pub open spec fn pairs_view(pairs: Seq<(String, String)>) -> Seq<(Seq<char>, Seq<char>)> {
    Seq::new(pairs.len(), |i: int| (pairs[i].0@, pairs[i].1@))
}

/// Calls `envy::prefixed(prefix).from_iter(vars)` for a list of pairs of field
/// name and value: the target is a `Vec` of pairs read as a map by
/// `serde_with`, which keeps every entry in order.
#[verifier::external_body]
fn prefixed_entries(prefix: &str, vars: Vec<(String, String)>) -> (entries: Option<
    Vec<(String, String)>,
>)
    ensures
        match entries {
            Some(list) => envy_entries(prefix@, pairs_view(vars@)) == Some(pairs_view(list@)),
            None => envy_entries(prefix@, pairs_view(vars@)) is None,
        },
{
    envy::prefixed(prefix)
        .from_iter::<_, DeserializeAsWrap<Vec<(String, String)>, BTreeMap<Same, Same>>>(vars)
        .ok()
        .map(|wrap| wrap.into_inner())
}

/// The variables of `vars` whose value is not empty, in order.
pub open spec fn non_empty(vars: Seq<(Seq<char>, Seq<char>)>) -> Seq<(Seq<char>, Seq<char>)>
    decreases vars.len(),
{
    if vars.len() == 0 {
        Seq::empty()
    } else if vars.last().1.len() == 0 {
        non_empty(vars.drop_last())
    } else {
        non_empty(vars.drop_last()).push(vars.last())
    }
}

/// The index of the first entry named `key`, or the number of entries when
/// there is none.
pub open spec fn first_entry(entries: Seq<(Seq<char>, Seq<char>)>, key: Seq<char>) -> int
    decreases entries.len(),
{
    if entries.len() == 0 {
        0
    } else if entries[0].0 == key {
        0
    } else {
        1 + first_entry(entries.drop_first(), key)
    }
}

/// The value of the first entry named `key`, if there is one.
pub open spec fn value_of(entries: Seq<(Seq<char>, Seq<char>)>, key: Seq<char>) -> Option<
    Seq<char>,
> {
    if first_entry(entries, key) < entries.len() {
        Some(entries[first_entry(entries, key)].1)
    } else {
        None
    }
}

/// `first_entry` is within bounds, points at an entry of that name when it is
/// below the length, and no earlier entry carries the name.
pub proof fn lemma_first_entry(entries: Seq<(Seq<char>, Seq<char>)>, key: Seq<char>)
    ensures
        0 <= first_entry(entries, key) <= entries.len(),
        first_entry(entries, key) < entries.len() ==> entries[first_entry(entries, key)].0 == key,
        forall|j: int| 0 <= j < first_entry(entries, key) ==> (#[trigger] entries[j]).0 != key,
    decreases entries.len(),
{
    if entries.len() != 0 && entries[0].0 != key {
        let rest = entries.drop_first();
        lemma_first_entry(rest, key);
        assert forall|j: int| 0 <= j < first_entry(entries, key) implies (#[trigger] entries[j]).0
            != key by {
            if j > 0 {
                assert(entries[j] == rest[j - 1]);
            }
        }
    }
}

/// Whether `key` is the name of one of the fields `names`.
pub open spec fn is_field(names: Seq<&'static str>, key: Seq<char>) -> bool {
    exists|k: int| 0 <= k < names.len() && (#[trigger] names[k])@ == key
}

/// Whether the entry at `at` names a field that an earlier entry names too.
pub open spec fn repeats(entries: Seq<(Seq<char>, Seq<char>)>, names: Seq<&'static str>, at: int) -> bool {
    &&& 0 <= at < entries.len()
    &&& is_field(names, entries[at].0)
    &&& first_entry(entries, entries[at].0) < at
}

/// Whether the entry at `at` is the first that names a field for the second
/// time.
pub open spec fn first_repeat(
    entries: Seq<(Seq<char>, Seq<char>)>,
    names: Seq<&'static str>,
    at: int,
) -> bool {
    &&& repeats(entries, names, at)
    &&& forall|j: int| 0 <= j < at ==> !repeats(entries, names, j)
}

/// Whether no field of `names` is named by two entries.
pub open spec fn no_repeat(entries: Seq<(Seq<char>, Seq<char>)>, names: Seq<&'static str>) -> bool {
    forall|j: int| 0 <= j < entries.len() ==> !repeats(entries, names, j)
}

/// Whether the field names are pairwise different.
pub open spec fn distinct_fields(names: Seq<&'static str>) -> bool {
    forall|k: int, l: int| 0 <= k < l < names.len() ==> (#[trigger] names[k])@ != (#[trigger] names[l])@
}

/// The view of an optional string.
pub open spec fn option_view(value: Option<String>) -> Option<Seq<char>> {
    match value {
        Some(text) => Some(text@),
        None => None,
    }
}

/// Looks up the fields `names` among the entries. A field that two entries
/// name is an error, reported at the first entry that repeats a name.
pub(crate) fn collect_fields(entries: &Vec<(String, String)>, names: &[&'static str]) -> (collected:
    Result<Vec<Option<String>>, EnvError>)
    requires
        distinct_fields(names@),
    ensures
        match collected {
            Ok(values) => {
                &&& no_repeat(pairs_view(entries@), names@)
                &&& values@.len() == names@.len()
                &&& forall|k: int|
                    0 <= k < names@.len() ==> option_view(#[trigger] values@[k]) == value_of(
                        pairs_view(entries@),
                        names@[k]@,
                    )
            },
            Err(EnvError::Duplicate { field }) => exists|at: int|
                first_repeat(pairs_view(entries@), names@, at) && field@ == (
                #[trigger] pairs_view(entries@)[at]).0,
            Err(_) => false,
        },
{
    let ghost all = pairs_view(entries@);
    let mut values: Vec<Option<String>> = Vec::new();
    let mut k: usize = 0;
    while k < names.len()
        invariant
            0 <= k <= names@.len(),
            values@.len() == k,
            forall|l: int| 0 <= l < k ==> (#[trigger] values@[l]) is None,
        decreases names@.len() - k,
    {
        values.push(None);
        k += 1;
    }
    let mut i: usize = 0;
    while i < entries.len()
        invariant
            0 <= i <= entries@.len(),
            all == pairs_view(entries@),
            values@.len() == names@.len(),
            distinct_fields(names@),
            forall|j: int| 0 <= j < i ==> !repeats(all, names@, j),
            forall|l: int|
                0 <= l < names@.len() ==> option_view(#[trigger] values@[l]) == value_of(
                    all.take(i as int),
                    names@[l]@,
                ),
        decreases entries@.len() - i,
    {
        let key = entries[i].0.as_str();
        assert(key@ == all[i as int].0);
        let mut found: usize = 0;
        while found < names.len() && !str_eq(names[found], key)
            invariant
                0 <= found <= names@.len(),
                forall|l: int| 0 <= l < found ==> (#[trigger] names@[l])@ != key@,
            decreases names@.len() - found,
        {
            found += 1;
        }
        proof {
            lemma_first_entry(all, key@);
            lemma_first_entry(all.take(i as int), key@);
            lemma_take_entry(all, i as int, key@);
        }
        if found < names.len() {
            assert(is_field(names@, key@));
            if values[found].is_some() {
                proof {
                    assert(value_of(all.take(i as int), names@[found as int]@) is Some);
                    assert(first_entry(all, key@) < i);
                    assert(repeats(all, names@, i as int));
                    assert(first_repeat(all, names@, i as int));
                }
                return Err(EnvError::Duplicate { field: entries[i].0.clone() });
            }
            let ghost before = values@;
            values.set(found, Some(entries[i].1.clone()));
            proof {
                assert(value_of(all.take(i as int), key@) is None);
                assert(first_entry(all, key@) == i);
                assert(!repeats(all, names@, i as int));
                assert forall|l: int| 0 <= l < names@.len() implies option_view(
                    #[trigger] values@[l],
                ) == value_of(all.take(i as int + 1), names@[l]@) by {
                    lemma_first_entry(all.take(i as int), names@[l]@);
                    lemma_first_entry(all.take(i as int + 1), names@[l]@);
                    lemma_take_entry(all, i as int, names@[l]@);
                    lemma_take_entry(all, i as int + 1, names@[l]@);
                    lemma_first_entry(all, names@[l]@);
                    if l != found {
                        assert(values@[l] == before[l]);
                    }
                }
            }
        } else {
            proof {
                assert(!is_field(names@, key@)) by {
                    if is_field(names@, key@) {
                        let l = choose|l: int| 0 <= l < names@.len() && (#[trigger] names@[l])@ == key@;
                        assert(names@[l]@ != key@);
                    }
                }
                assert forall|l: int| 0 <= l < names@.len() implies option_view(
                    #[trigger] values@[l],
                ) == value_of(all.take(i as int + 1), names@[l]@) by {
                    lemma_first_entry(all.take(i as int), names@[l]@);
                    lemma_first_entry(all.take(i as int + 1), names@[l]@);
                    lemma_take_entry(all, i as int, names@[l]@);
                    lemma_take_entry(all, i as int + 1, names@[l]@);
                    lemma_first_entry(all, names@[l]@);
                }
            }
        }
        i += 1;
    }
    assert(all.take(i as int) =~= all);
    Ok(values)
}

/// The first entry of a name within a prefix is the first entry of that name
/// overall, if that one lies within the prefix.
pub proof fn lemma_take_entry(entries: Seq<(Seq<char>, Seq<char>)>, n: int, key: Seq<char>)
    requires
        0 <= n <= entries.len(),
    ensures
        first_entry(entries.take(n), key) == if first_entry(entries, key) < n {
            first_entry(entries, key)
        } else {
            n
        },
{
    lemma_first_entry(entries, key);
    lemma_first_entry(entries.take(n), key);
    let whole = first_entry(entries, key);
    let part = first_entry(entries.take(n), key);
    if part < n {
        assert(entries.take(n)[part] == entries[part]);
        assert(whole <= part);
    }
    if whole < n {
        assert(entries.take(n)[whole] == entries[whole]);
        assert(part <= whole);
    }
}

/// Picks the variables that carry the prefix `prefix` and turns them into
/// fields. Variables whose value is empty are left out first.
pub fn parse(prefix: &str, vars: Vec<(String, String)>) -> (entries: Result<
    Vec<(String, String)>,
    EnvError,
>)
    ensures
        match entries {
            Ok(list) => envy_entries(prefix@, non_empty(pairs_view(vars@))) == Some(
                pairs_view(list@),
            ),
            Err(EnvError::Source) => envy_entries(prefix@, non_empty(pairs_view(vars@))) is None,
            Err(_) => false,
        },
{
    let ghost all = vars@;
    let mut set: Vec<(String, String)> = Vec::new();
    for pair in it: vars
        invariant
            it.seq() == all,
            pairs_view(set@) == non_empty(pairs_view(all.take(it.index() as int))),
    {
        let ghost before = set@;
        proof {
            let next = pairs_view(all.take(it.index() as int + 1));
            assert(next.drop_last() =~= pairs_view(all.take(it.index() as int)));
            assert(next.last() == (pair.0@, pair.1@));
        }
        if !pair.1.as_str().is_empty() {
            set.push(pair);
            assert(pairs_view(set@) =~= pairs_view(before).push((pair.0@, pair.1@)));
        }
    }
    assert(all.take(all.len() as int) =~= all);
    match prefixed_entries(prefix, set) {
        Some(list) => Ok(list),
        None => Err(EnvError::Source),
    }
}

/// The names of the fields of [`GithubArgs`], in the order they are looked for.
pub open spec fn github_fields() -> Seq<&'static str> {
    seq!["token", "repository", "ref_name"]
}

/// Whether `field` is the first of `names` that no entry names.
pub open spec fn first_missing(
    entries: Seq<(Seq<char>, Seq<char>)>,
    names: Seq<&'static str>,
    field: Seq<char>,
) -> bool {
    exists|k: int|
        {
            &&& 0 <= k < names.len()
            &&& (#[trigger] names[k])@ == field
            &&& value_of(entries, names[k]@) is None
            &&& forall|l: int| 0 <= l < k ==> value_of(entries, (#[trigger] names[l])@) is Some
        }
}

/// Whether `read` is what the fields `entries` give as [`GithubArgs`]: the
/// values of the three fields if each is named once, and otherwise the first
/// repeated field or, if none is repeated, the first missing one.
pub open spec fn github_from(
    entries: Seq<(Seq<char>, Seq<char>)>,
    read: Result<GithubArgs, EnvError>,
) -> bool {
    match read {
        Ok(args) => {
            &&& no_repeat(entries, github_fields())
            &&& value_of(entries, "token"@) == Some(args.token@)
            &&& value_of(entries, "repository"@) == Some(args.repository@)
            &&& value_of(entries, "ref_name"@) == Some(args.ref_name@)
        },
        Err(EnvError::Duplicate { field }) => exists|at: int|
            first_repeat(entries, github_fields(), at) && field@ == (#[trigger] entries[at]).0,
        Err(EnvError::Missing { field }) => {
            &&& no_repeat(entries, github_fields())
            &&& first_missing(entries, github_fields(), field@)
        },
        Err(_) => false,
    }
}

impl GithubArgs {
    /// Reads the three settings from a list of fields.
    pub fn from_entries(entries: &Vec<(String, String)>) -> (read: Result<GithubArgs, EnvError>)
        ensures
            github_from(pairs_view(entries@), read),
    {
        let mut names: Vec<&'static str> = Vec::new();
        names.push("token");
        names.push("repository");
        names.push("ref_name");
        proof {
            reveal_strlit("token");
            reveal_strlit("repository");
            reveal_strlit("ref_name");
            assert(names@ =~= github_fields());
            assert("token"@.len() == 5 && "repository"@.len() == 10 && "ref_name"@.len() == 8);
            assert(names@[0]@ == "token"@ && names@[1]@ == "repository"@ && names@[2]@
                == "ref_name"@);
        }
        let mut values = match collect_fields(entries, names.as_slice()) {
            Ok(values) => values,
            Err(error) => {
                return Err(error);
            },
        };
        let ghost found = values@;
        let ref_name = values.pop().unwrap();
        let repository = values.pop().unwrap();
        let token = values.pop().unwrap();
        assert(token == found[0] && repository == found[1] && ref_name == found[2]);
        let token = match token {
            Some(text) => text,
            None => {
                assert(github_fields()[0]@ == "token"@);
                return Err(EnvError::Missing { field: "token" });
            },
        };
        let repository = match repository {
            Some(text) => text,
            None => {
                assert(github_fields()[1]@ == "repository"@);
                assert(value_of(pairs_view(entries@), github_fields()[0]@) is Some);
                return Err(EnvError::Missing { field: "repository" });
            },
        };
        let ref_name = match ref_name {
            Some(text) => text,
            None => {
                assert(github_fields()[2]@ == "ref_name"@);
                assert(value_of(pairs_view(entries@), github_fields()[0]@) is Some);
                assert(value_of(pairs_view(entries@), github_fields()[1]@) is Some);
                return Err(EnvError::Missing { field: "ref_name" });
            },
        };
        Ok(GithubArgs { token, repository, ref_name })
    }
}

/// Whether `read` is what [`github`] gives when `envy` has made `entries` of
/// the variables.
pub open spec fn github_outcome(
    entries: Option<Seq<(Seq<char>, Seq<char>)>>,
    read: Result<GithubArgs, EnvError>,
) -> bool {
    match entries {
        Some(list) => github_from(list, read),
        None => read matches Err(EnvError::Source),
    }
}

/// Reads the settings that every action has from the variables whose name
/// begins with `GITHUB_`.
pub fn github(vars: Vec<(String, String)>) -> (read: Result<GithubArgs, EnvError>)
    ensures
        github_outcome(envy_entries("GITHUB_"@, non_empty(pairs_view(vars@))), read),
{
    match parse("GITHUB_", vars) {
        Ok(entries) => GithubArgs::from_entries(&entries),
        Err(_) => Err(EnvError::Source),
    }
}

} // verus!
