//! Publishing outputs onto a release, replacing assets of the same name.
//!
//! The remote store gives every upload a fresh identifier and has no way to
//! overwrite an asset by name. An output is therefore published in two steps:
//! the asset that carries its name in the release snapshot, if there is one, is
//! deleted by identifier, and then the new content is uploaded. This module
//! decides the steps; the caller performs them.
//!
//! The effect of the steps is stated over a model of the remote store, a map
//! from identifiers to stored assets, and the laws at the end of the module
//! show that publishing keeps names unique and leaves other assets alone.
//!
//! Two things are left to the caller to know. The steps are planned from the
//! snapshot that was read at the start of the run, so the laws hold as long as
//! nobody else changes the release in the meantime; two runs that publish the
//! same name at the same time can leave that name twice. And the steps of
//! different outputs do not depend on each other: when one of them fails, the
//! others are not undone, and a release may be left with some outputs
//! published and some not. Running again repairs both, since every run
//! replaces by name.

use crate::release::{first_named, lemma_first_named, Asset, AssetId, Release};
use vstd::prelude::*;

verus! {

/// What has to be done to publish one output.
#[derive(Clone, Copy, Debug, PartialEq, Eq, Structural)]
pub struct PublishStep {
    /// Index of the output in the list handed to [`plan_publish`].
    pub output: usize,
    /// The asset to delete before the upload, if one carries the output's name.
    pub delete: Option<AssetId>,
}

/// The identifier of the first asset of `assets` named `name`, if any.
pub open spec fn existing(assets: Seq<Asset>, name: Seq<char>) -> Option<AssetId> {
    if first_named(assets, name) < assets.len() {
        Some(assets[first_named(assets, name)].id)
    } else {
        None
    }
}

/// The steps that publish `outputs` onto a release that lists `assets`: one
/// per output, in order.
pub open spec fn plan_spec(assets: Seq<Asset>, outputs: Seq<(String, Vec<u8>)>) -> Seq<
    PublishStep,
> {
    Seq::new(
        outputs.len(),
        |k: int| PublishStep { output: k as usize, delete: existing(assets, outputs[k].0@) },
    )
}

/// Decides, for each output, which asset of the release snapshot has to be
/// deleted before the output is uploaded.
pub fn plan_publish(release: &Release, files: &[(String, Vec<u8>)]) -> (steps: Vec<PublishStep>)
    ensures
        steps@ == plan_spec(release.assets@, files@),
{
    let mut steps: Vec<PublishStep> = Vec::new();
    let mut k: usize = 0;
    while k < files.len()
        invariant
            0 <= k <= files@.len(),
            steps@.len() == k,
            forall|l: int| 0 <= l < k ==> #[trigger] steps@[l] == plan_spec(release.assets@, files@)[l],
        decreases files@.len() - k,
    {
        let delete = match release.find_asset(files[k].0.as_str()) {
            Some(asset) => Some(asset.id),
            None => None,
        };
        steps.push(PublishStep { output: k, delete });
        k += 1;
    }
    assert(steps@ =~= plan_spec(release.assets@, files@));
    steps
}

/// Says whether an output may be uploaded once its step has come to the
/// upload. `deleted` tells whether the asset that the step names was deleted.
/// An output whose name an asset still carries is not uploaded, so that the
/// release never holds the name twice.
pub fn after_delete(step: PublishStep, deleted: bool) -> (upload: bool)
    ensures
        upload == (step.delete is None || deleted),
{
    match step.delete {
        Some(_) => deleted,
        None => true,
    }
}

/// An asset as the remote store holds it.
pub ghost struct Stored {
    pub name: Seq<char>,
    pub content: Seq<u8>,
}

/// Whether no two assets of the store share a name.
pub open spec fn unique_names(store: Map<AssetId, Stored>) -> bool {
    forall|a: AssetId, b: AssetId|
        store.dom().contains(a) && store.dom().contains(b) && a != b ==> (#[trigger] store[a]).name
            != (#[trigger] store[b]).name
}

/// Whether `assets` lists the store as it is: every asset of the store once,
/// under its name, and nothing else.
pub open spec fn snapshot_of(assets: Seq<Asset>, store: Map<AssetId, Stored>) -> bool {
    &&& forall|i: int|
        0 <= i < assets.len() ==> store.dom().contains((#[trigger] assets[i]).id)
            && store[assets[i].id].name == assets[i].name@
    &&& forall|i: int, j: int|
        0 <= i < j < assets.len() ==> (#[trigger] assets[i]).id != (#[trigger] assets[j]).id
    &&& forall|id: AssetId| #[trigger]
        store.dom().contains(id) ==> exists|i: int|
            0 <= i < assets.len() && (#[trigger] assets[i]).id == id
}

/// The store after one output was published: the asset to delete is gone, and
/// the content stands under the identifier `fresh`.
pub open spec fn publish_one(
    store: Map<AssetId, Stored>,
    delete: Option<AssetId>,
    fresh: AssetId,
    name: Seq<char>,
    content: Seq<u8>,
) -> Map<AssetId, Stored> {
    let cleared = match delete {
        Some(id) => store.remove(id),
        None => store,
    };
    cleared.insert(fresh, Stored { name, content })
}

/// The store after `steps` were carried out, the upload of step `k` having
/// received the identifier `fresh[k]`.
pub open spec fn publish_all(
    store: Map<AssetId, Stored>,
    steps: Seq<PublishStep>,
    outputs: Seq<(String, Vec<u8>)>,
    fresh: Seq<AssetId>,
) -> Map<AssetId, Stored>
    decreases steps.len(),
{
    if steps.len() == 0 {
        store
    } else {
        let k = steps.len() - 1;
        publish_one(
            publish_all(store, steps.drop_last(), outputs, fresh),
            steps.last().delete,
            fresh[k],
            outputs[steps.last().output as int].0@,
            outputs[steps.last().output as int].1@,
        )
    }
}

/// Whether one of the first `k` outputs is named `name`.
pub open spec fn named_in(outputs: Seq<(String, Vec<u8>)>, k: int, name: Seq<char>) -> bool {
    exists|j: int| 0 <= j < k && (#[trigger] outputs[j]).0@ == name
}

/// Whether the outputs carry pairwise different names.
pub open spec fn distinct_names(outputs: Seq<(String, Vec<u8>)>) -> bool {
    forall|i: int, j: int|
        0 <= i < j < outputs.len() ==> (#[trigger] outputs[i]).0@ != (#[trigger] outputs[j]).0@
}

/// Whether the identifiers are pairwise different and unused in `store`.
pub open spec fn fresh_for(fresh: Seq<AssetId>, store: Map<AssetId, Stored>) -> bool {
    &&& forall|i: int| 0 <= i < fresh.len() ==> !store.dom().contains(#[trigger] fresh[i])
    &&& forall|i: int, j: int| 0 <= i < j < fresh.len() ==> #[trigger] fresh[i] != #[trigger] fresh[j]
}

/// What the store holds once the first `k` outputs are published: those
/// outputs under their fresh identifiers, and every asset of the store as it
/// was whose name none of them carries.
pub open spec fn published(
    store: Map<AssetId, Stored>,
    after: Map<AssetId, Stored>,
    outputs: Seq<(String, Vec<u8>)>,
    fresh: Seq<AssetId>,
    k: int,
) -> bool {
    &&& forall|id: AssetId| #[trigger]
        after.dom().contains(id) <==> (exists|j: int| 0 <= j < k && #[trigger] fresh[j] == id) || (
        store.dom().contains(id) && !named_in(outputs, k, store[id].name))
    &&& forall|j: int|
        0 <= j < k ==> after[#[trigger] fresh[j]] == (Stored {
            name: outputs[j].0@,
            content: outputs[j].1@,
        })
    &&& forall|id: AssetId|
        store.dom().contains(id) && !named_in(outputs, k, store[id].name) ==> #[trigger] after[id]
            == store[id]
}

proof fn lemma_publish_step(
    assets: Seq<Asset>,
    store: Map<AssetId, Stored>,
    outputs: Seq<(String, Vec<u8>)>,
    fresh: Seq<AssetId>,
    k: int,
)
    requires
        snapshot_of(assets, store),
        unique_names(store),
        distinct_names(outputs),
        fresh_for(fresh, store),
        fresh.len() == outputs.len(),
        outputs.len() <= usize::MAX,
        0 <= k < outputs.len(),
        published(
            store,
            publish_all(store, plan_spec(assets, outputs).take(k), outputs, fresh),
            outputs,
            fresh,
            k,
        ),
    ensures
        published(
            store,
            publish_all(store, plan_spec(assets, outputs).take(k + 1), outputs, fresh),
            outputs,
            fresh,
            k + 1,
        ),
{
    let plan = plan_spec(assets, outputs);
    let before = publish_all(store, plan.take(k), outputs, fresh);
    let after = publish_all(store, plan.take(k + 1), outputs, fresh);
    let name = outputs[k].0@;
    let content = outputs[k].1@;
    let delete = existing(assets, name);
    assert(plan.take(k + 1).drop_last() =~= plan.take(k));
    assert(plan.take(k + 1).last() == plan[k]);
    assert(plan[k].output as int == k);
    assert(after == publish_one(before, delete, fresh[k], name, content));
    lemma_first_named(assets, name);
    // The asset to delete is the only asset of the store that carries the name.
    assert forall|id: AssetId| store.dom().contains(id) && store[id].name == name implies delete
        == Some(id) by {
        let i = choose|i: int| 0 <= i < assets.len() && (#[trigger] assets[i]).id == id;
        let f = first_named(assets, name);
        assert(assets[i].name@ == name);
        assert(f <= i);
        assert(store[assets[f].id].name == name);
        if f < i {
            assert(assets[f].id != assets[i].id);
        }
    }
    assert(delete matches Some(id) ==> store.dom().contains(id) && store[id].name == name);
    assert forall|other: Seq<char>|
        named_in(outputs, k + 1, other) <==> named_in(outputs, k, other) || other == name by {
        if named_in(outputs, k + 1, other) {
            let j = choose|j: int| 0 <= j < k + 1 && (#[trigger] outputs[j]).0@ == other;
            if j < k {
                assert(named_in(outputs, k, other));
            }
        }
        if named_in(outputs, k, other) {
            let j = choose|j: int| 0 <= j < k && (#[trigger] outputs[j]).0@ == other;
            assert(0 <= j < k + 1 && outputs[j].0@ == other);
        }
        if other == name {
            assert(0 <= k < k + 1 && outputs[k].0@ == other);
        }
    }
    assert(!named_in(outputs, k, name)) by {
        if named_in(outputs, k, name) {
            let j = choose|j: int| 0 <= j < k && (#[trigger] outputs[j]).0@ == name;
            assert(outputs[j].0@ != outputs[k].0@);
        }
    }
    assert forall|id: AssetId| #[trigger]
        after.dom().contains(id) <==> (exists|j: int| 0 <= j < k + 1 && #[trigger] fresh[j] == id)
            || (store.dom().contains(id) && !named_in(outputs, k + 1, store[id].name)) by {
        if after.dom().contains(id) {
            if id == fresh[k] {
                assert(0 <= k < k + 1 && fresh[k] == id);
            } else {
                assert(before.dom().contains(id));
                if exists|j: int| 0 <= j < k && #[trigger] fresh[j] == id {
                    let j = choose|j: int| 0 <= j < k && #[trigger] fresh[j] == id;
                    assert(0 <= j < k + 1 && fresh[j] == id);
                } else {
                    assert(store.dom().contains(id) && !named_in(outputs, k, store[id].name));
                    assert(delete != Some(id));
                    assert(store[id].name != name);
                }
            }
        }
        if exists|j: int| 0 <= j < k + 1 && #[trigger] fresh[j] == id {
            let j = choose|j: int| 0 <= j < k + 1 && #[trigger] fresh[j] == id;
            if j < k {
                assert(before.dom().contains(id));
                assert(!store.dom().contains(fresh[j]));
            }
        }
        if store.dom().contains(id) && !named_in(outputs, k + 1, store[id].name) {
            assert(!named_in(outputs, k, store[id].name));
            assert(before.dom().contains(id));
            assert(store[id].name != name);
            assert(delete != Some(id));
        }
    }
    assert forall|j: int| 0 <= j < k + 1 implies after[#[trigger] fresh[j]] == (Stored {
        name: outputs[j].0@,
        content: outputs[j].1@,
    }) by {
        if j < k {
            assert(fresh[j] != fresh[k]);
            assert(!store.dom().contains(fresh[j]));
            assert(before.dom().contains(fresh[j]));
        }
    }
    assert forall|id: AssetId|
        store.dom().contains(id) && !named_in(outputs, k + 1, store[id].name) implies #[trigger] after[id]
        == store[id] by {
        assert(!named_in(outputs, k, store[id].name));
        assert(store[id].name != name);
        assert(!store.dom().contains(fresh[k]));
        assert(before[id] == store[id]);
    }
}

proof fn lemma_publish_prefix(
    assets: Seq<Asset>,
    store: Map<AssetId, Stored>,
    outputs: Seq<(String, Vec<u8>)>,
    fresh: Seq<AssetId>,
    k: int,
)
    requires
        snapshot_of(assets, store),
        unique_names(store),
        distinct_names(outputs),
        fresh_for(fresh, store),
        fresh.len() == outputs.len(),
        outputs.len() <= usize::MAX,
        0 <= k <= outputs.len(),
    ensures
        published(
            store,
            publish_all(store, plan_spec(assets, outputs).take(k), outputs, fresh),
            outputs,
            fresh,
            k,
        ),
    decreases k,
{
    if k == 0 {
        assert(plan_spec(assets, outputs).take(0) =~= Seq::<PublishStep>::empty());
    } else {
        lemma_publish_prefix(assets, store, outputs, fresh, k - 1);
        lemma_publish_step(assets, store, outputs, fresh, k - 1);
    }
}

/// Publishing replaces by name. When the snapshot lists the store as it is,
/// the store holds no name twice and the outputs carry different names, then
/// after the planned steps every output stands in the store under its fresh
/// identifier, every asset whose name no output carries is there unchanged,
/// the store holds nothing else, and it still holds no name twice.
pub proof fn lemma_publish_replaces(
    release: Release,
    store: Map<AssetId, Stored>,
    outputs: Seq<(String, Vec<u8>)>,
    fresh: Seq<AssetId>,
)
    requires
        snapshot_of(release.assets@, store),
        unique_names(store),
        distinct_names(outputs),
        fresh_for(fresh, store),
        fresh.len() == outputs.len(),
        outputs.len() <= usize::MAX,
    ensures
        published(
            store,
            publish_all(store, plan_spec(release.assets@, outputs), outputs, fresh),
            outputs,
            fresh,
            outputs.len() as int,
        ),
        unique_names(publish_all(store, plan_spec(release.assets@, outputs), outputs, fresh)),
{
    let assets = release.assets@;
    let plan = plan_spec(assets, outputs);
    let n = outputs.len() as int;
    let after = publish_all(store, plan, outputs, fresh);
    lemma_publish_prefix(assets, store, outputs, fresh, n);
    assert(plan.take(n) =~= plan);
    assert forall|a: AssetId, b: AssetId|
        after.dom().contains(a) && after.dom().contains(b) && a != b implies (#[trigger] after[a]).name
        != (#[trigger] after[b]).name by {
        let a_new = exists|j: int| 0 <= j < n && #[trigger] fresh[j] == a;
        let b_new = exists|j: int| 0 <= j < n && #[trigger] fresh[j] == b;
        if a_new && b_new {
            let i = choose|j: int| 0 <= j < n && #[trigger] fresh[j] == a;
            let j = choose|j: int| 0 <= j < n && #[trigger] fresh[j] == b;
            assert(after[fresh[i]].name == outputs[i].0@);
            assert(after[fresh[j]].name == outputs[j].0@);
            if i < j {
                assert(outputs[i].0@ != outputs[j].0@);
            } else {
                assert(outputs[j].0@ != outputs[i].0@);
            }
        } else if a_new {
            let i = choose|j: int| 0 <= j < n && #[trigger] fresh[j] == a;
            assert(after[fresh[i]].name == outputs[i].0@);
            assert(after[b] == store[b]);
            assert(named_in(outputs, n, outputs[i].0@));
        } else if b_new {
            let j = choose|j: int| 0 <= j < n && #[trigger] fresh[j] == b;
            assert(after[fresh[j]].name == outputs[j].0@);
            assert(after[a] == store[a]);
            assert(named_in(outputs, n, outputs[j].0@));
        } else {
            assert(after[a] == store[a]);
            assert(after[b] == store[b]);
        }
    }
}

/// Whether the store holds exactly one asset named `name`, with the content
/// `content`.
pub open spec fn holds_once(store: Map<AssetId, Stored>, name: Seq<char>, content: Seq<u8>) -> bool {
    exists|id: AssetId|
        {
            &&& #[trigger] store.dom().contains(id)
            &&& store[id] == (Stored { name, content })
            &&& forall|other: AssetId|
                store.dom().contains(other) && (#[trigger] store[other]).name == name ==> other
                    == id
        }
}

/// Publishing is idempotent. When an output is published onto a release, and
/// an output of the same name is published again onto a snapshot of the
/// result, the store then holds exactly one asset of that name, and its
/// content is that of the second run.
pub proof fn lemma_publish_twice(
    first_release: Release,
    store: Map<AssetId, Stored>,
    first: (String, Vec<u8>),
    first_id: AssetId,
    second_release: Release,
    second: (String, Vec<u8>),
    second_id: AssetId,
)
    requires
        snapshot_of(first_release.assets@, store),
        unique_names(store),
        !store.dom().contains(first_id),
        snapshot_of(
            second_release.assets@,
            publish_all(
                store,
                plan_spec(first_release.assets@, seq![first]),
                seq![first],
                seq![first_id],
            ),
        ),
        second.0@ == first.0@,
        second_id != first_id,
        !store.dom().contains(second_id),
    ensures
        holds_once(
            publish_all(
                store,
                plan_spec(first_release.assets@, seq![first]),
                seq![first],
                seq![first_id],
            ),
            first.0@,
            first.1@,
        ),
        holds_once(
            publish_all(
                publish_all(
                    store,
                    plan_spec(first_release.assets@, seq![first]),
                    seq![first],
                    seq![first_id],
                ),
                plan_spec(second_release.assets@, seq![second]),
                seq![second],
                seq![second_id],
            ),
            second.0@,
            second.1@,
        ),
{
    let middle = publish_all(
        store,
        plan_spec(first_release.assets@, seq![first]),
        seq![first],
        seq![first_id],
    );
    lemma_publish_replaces(first_release, store, seq![first], seq![first_id]);
    lemma_holds_once(store, middle, seq![first], seq![first_id]);
    assert(!middle.dom().contains(second_id)) by {
        if middle.dom().contains(second_id) {
            if exists|j: int| 0 <= j < 1 && #[trigger] seq![first_id][j] == second_id {
                let j = choose|j: int| 0 <= j < 1 && #[trigger] seq![first_id][j] == second_id;
                assert(seq![first_id][j] == first_id);
            }
        }
    }
    let last = publish_all(
        middle,
        plan_spec(second_release.assets@, seq![second]),
        seq![second],
        seq![second_id],
    );
    lemma_publish_replaces(second_release, middle, seq![second], seq![second_id]);
    lemma_holds_once(middle, last, seq![second], seq![second_id]);
}

/// After a single output was published, the store holds exactly one asset of
/// its name, with its content.
proof fn lemma_holds_once(
    store: Map<AssetId, Stored>,
    after: Map<AssetId, Stored>,
    outputs: Seq<(String, Vec<u8>)>,
    fresh: Seq<AssetId>,
)
    requires
        outputs.len() == 1,
        fresh.len() == 1,
        published(store, after, outputs, fresh, 1),
    ensures
        holds_once(after, outputs[0].0@, outputs[0].1@),
{
    let id = fresh[0];
    let name = outputs[0].0@;
    assert(0 <= 0 < 1 && fresh[0] == id);
    assert(after.dom().contains(id));
    assert(after[fresh[0]] == (Stored { name, content: outputs[0].1@ }));
    assert forall|other: AssetId|
        after.dom().contains(other) && (#[trigger] after[other]).name == name implies other
        == id by {
        if exists|j: int| 0 <= j < 1 && #[trigger] fresh[j] == other {
        } else {
            assert(store.dom().contains(other) && !named_in(outputs, 1, store[other].name));
            assert(after[other] == store[other]);
            assert(0 <= 0 < 1 && outputs[0].0@ == name);
            assert(named_in(outputs, 1, name));
        }
    }
}

/// A snapshot of a store that holds no name twice lists no name twice, and no
/// identifier twice.
pub proof fn lemma_snapshot_well_formed(release: Release, store: Map<AssetId, Stored>)
    requires
        snapshot_of(release.assets@, store),
        unique_names(store),
    ensures
        release.well_formed(),
{
    let assets = release.assets@;
    assert forall|i: int, j: int| 0 <= i < j < assets.len() implies {
        &&& (#[trigger] assets[i]).name@ != (#[trigger] assets[j]).name@
        &&& assets[i].id != assets[j].id
    } by {
        assert(store[assets[i].id].name == assets[i].name@);
        assert(store[assets[j].id].name == assets[j].name@);
    }
}

} // verus!
