//! The release and its attached assets.

use crate::text::str_eq;
use vstd::prelude::*;

verus! {

/// Identifier of a release.
#[derive(Clone, Copy, Debug, PartialEq, Eq, Structural)]
pub struct ReleaseId(pub u64);

/// Identifier of an asset attached to a release.
#[derive(Clone, Copy, Debug, PartialEq, Eq, Structural)]
pub struct AssetId(pub u64);

/// An asset attached to a [`Release`].
#[derive(Clone, Debug)]
pub struct Asset {
    /// Unique identifier.
    pub id: AssetId,
    /// File name, used for pattern matching and for collision detection.
    pub name: String,
    /// URL from which the content can be downloaded.
    pub browser_download_url: String,
}

/// A snapshot of a release, as read once at the start of a run.
#[derive(Clone, Debug)]
pub struct Release {
    /// Unique identifier.
    pub id: ReleaseId,
    /// Assets attached at the time the snapshot was taken, in listing order.
    pub assets: Vec<Asset>,
}

/// The index of the first asset in `assets` that carries the name `name`, or
/// `assets.len()` when there is none.
pub open spec fn first_named(assets: Seq<Asset>, name: Seq<char>) -> int
    decreases assets.len(),
{
    if assets.len() == 0 {
        0
    } else if assets[0].name@ == name {
        0
    } else {
        1 + first_named(assets.drop_first(), name)
    }
}

/// `first_named` is within bounds, points at an asset of that name when it is
/// below the length, and no earlier asset carries the name.
pub proof fn lemma_first_named(assets: Seq<Asset>, name: Seq<char>)
    ensures
        0 <= first_named(assets, name) <= assets.len(),
        first_named(assets, name) < assets.len() ==> assets[first_named(assets, name)].name@
            == name,
        forall|j: int| 0 <= j < first_named(assets, name) ==> (#[trigger] assets[j]).name@ != name,
    decreases assets.len(),
{
    if assets.len() != 0 && assets[0].name@ != name {
        let rest = assets.drop_first();
        lemma_first_named(rest, name);
        assert forall|j: int| 0 <= j < first_named(assets, name) implies (#[trigger] assets[j]).name@
            != name by {
            if j > 0 {
                assert(assets[j] == rest[j - 1]);
            }
        }
    }
}

impl Release {
    /// Whether no two attached assets share a name or an identifier.
    pub open spec fn well_formed(&self) -> bool {
        forall|i: int, j: int|
            0 <= i < j < self.assets@.len() ==> {
                &&& (#[trigger] self.assets@[i]).name@ != (#[trigger] self.assets@[j]).name@
                &&& self.assets@[i].id != self.assets@[j].id
            }
    }

    /// Looks up the first attached asset whose name equals `name`.
    pub fn find_asset(&self, name: &str) -> (found: Option<&Asset>)
        ensures
            match found {
                Some(asset) => {
                    &&& first_named(self.assets@, name@) < self.assets@.len()
                    &&& *asset == self.assets@[first_named(self.assets@, name@)]
                },
                None => first_named(self.assets@, name@) == self.assets@.len(),
            },
    {
        let mut i: usize = 0;
        proof {
            lemma_first_named(self.assets@, name@);
        }
        while i < self.assets.len()
            invariant
                0 <= i <= self.assets@.len(),
                forall|j: int| 0 <= j < i ==> (#[trigger] self.assets@[j]).name@ != name@,
                0 <= first_named(self.assets@, name@) <= self.assets@.len(),
                first_named(self.assets@, name@) < self.assets@.len() ==> self.assets@[first_named(
                    self.assets@,
                    name@,
                )].name@ == name@,
                forall|j: int|
                    0 <= j < first_named(self.assets@, name@) ==> (#[trigger] self.assets@[j]).name@
                        != name@,
            decreases self.assets@.len() - i,
        {
            if str_eq(self.assets[i].name.as_str(), name) {
                return Some(&self.assets[i]);
            }
            i += 1;
        }
        None
    }
}

} // verus!
