//! Hashing of asset contents with several algorithms.
//!
//! Content is fed chunk by chunk into one running hasher per algorithm, so that
//! a stream is read once however many digests are wanted. The digests
//! themselves are computed by the `blake2` and `sha2` crates.

use blake2::Blake2b512;
use sha2::{Digest, Sha256, Sha512};
use vstd::prelude::*;

verus! {

/// A digest algorithm.
#[derive(Clone, Copy, Debug, PartialEq, Eq, Structural)]
pub enum Hash {
    Blake2,
    Sha256,
    Sha512,
}

/// The BLAKE2b-512 digest of `data`, as the `blake2` crate computes it.
pub uninterp spec fn blake2b512(data: Seq<u8>) -> Seq<u8>;

/// The SHA-256 digest of `data`, as the `sha2` crate computes it.
pub uninterp spec fn sha256(data: Seq<u8>) -> Seq<u8>;

/// The SHA-512 digest of `data`, as the `sha2` crate computes it.
pub uninterp spec fn sha512(data: Seq<u8>) -> Seq<u8>;

/// The digest of `data` under the algorithm `hash`.
pub open spec fn digest_of(hash: Hash, data: Seq<u8>) -> Seq<u8> {
    match hash {
        Hash::Blake2 => blake2b512(data),
        Hash::Sha256 => sha256(data),
        Hash::Sha512 => sha512(data),
    }
}

/// The length in bytes of every digest of the algorithm `hash`.
pub open spec fn digest_len(hash: Hash) -> nat {
    match hash {
        Hash::Blake2 => 64,
        Hash::Sha256 => 32,
        Hash::Sha512 => 64,
    }
}

/// A running BLAKE2b-512 computation. It holds a `blake2::Blake2b512`: the
/// state that the bytes fed so far have left, and the bytes of the block that
/// is not full yet.
#[verifier::external_body]
pub struct Blake2State {
    inner: Blake2b512,
}

/// A running SHA-256 computation. It holds a `sha2::Sha256`: the state that
/// the bytes fed so far have left, and the bytes of the block that is not full
/// yet.
#[verifier::external_body]
pub struct Sha256State {
    inner: Sha256,
}

/// A running SHA-512 computation. It holds a `sha2::Sha512`: the state that
/// the bytes fed so far have left, and the bytes of the block that is not full
/// yet.
#[verifier::external_body]
pub struct Sha512State {
    inner: Sha512,
}

/// The bytes a BLAKE2b-512 computation has been fed so far, in order.
pub uninterp spec fn blake2_absorbed(state: Blake2State) -> Seq<u8>;

/// The bytes a SHA-256 computation has been fed so far, in order.
pub uninterp spec fn sha256_absorbed(state: Sha256State) -> Seq<u8>;

/// The bytes a SHA-512 computation has been fed so far, in order.
pub uninterp spec fn sha512_absorbed(state: Sha512State) -> Seq<u8>;

/// Calls `Blake2b512::new`: a computation that has been fed nothing.
#[verifier::external_body]
fn blake2_new() -> (state: Blake2State)
    ensures
        blake2_absorbed(state) == Seq::<u8>::empty(),
{
    Blake2State { inner: Blake2b512::new() }
}

/// Calls `Digest::update` on a BLAKE2b-512 computation, which processes `data`
/// after everything fed before.
#[verifier::external_body]
fn blake2_update(state: &mut Blake2State, data: &[u8])
    ensures
        blake2_absorbed(*final(state)) == blake2_absorbed(*old(state)) + data@,
{
    state.inner.update(data);
}

/// Calls `Digest::finalize` on a BLAKE2b-512 computation. The result is the
/// 64-byte digest of everything fed to it.
#[verifier::external_body]
fn blake2_finalize(state: Blake2State) -> (digest: Vec<u8>)
    ensures
        digest@ == blake2b512(blake2_absorbed(state)),
        digest@.len() == 64,
{
    state.inner.finalize().to_vec()
}

/// Calls `Sha256::new`: a computation that has been fed nothing.
#[verifier::external_body]
fn sha256_new() -> (state: Sha256State)
    ensures
        sha256_absorbed(state) == Seq::<u8>::empty(),
{
    Sha256State { inner: Sha256::new() }
}

/// Calls `Digest::update` on a SHA-256 computation, which processes `data`
/// after everything fed before.
#[verifier::external_body]
fn sha256_update(state: &mut Sha256State, data: &[u8])
    ensures
        sha256_absorbed(*final(state)) == sha256_absorbed(*old(state)) + data@,
{
    state.inner.update(data);
}

/// Calls `Digest::finalize` on a SHA-256 computation. The result is the
/// 32-byte digest of everything fed to it.
#[verifier::external_body]
fn sha256_finalize(state: Sha256State) -> (digest: Vec<u8>)
    ensures
        digest@ == sha256(sha256_absorbed(state)),
        digest@.len() == 32,
{
    state.inner.finalize().to_vec()
}

/// Calls `Sha512::new`: a computation that has been fed nothing.
#[verifier::external_body]
fn sha512_new() -> (state: Sha512State)
    ensures
        sha512_absorbed(state) == Seq::<u8>::empty(),
{
    Sha512State { inner: Sha512::new() }
}

/// Calls `Digest::update` on a SHA-512 computation, which processes `data`
/// after everything fed before.
#[verifier::external_body]
fn sha512_update(state: &mut Sha512State, data: &[u8])
    ensures
        sha512_absorbed(*final(state)) == sha512_absorbed(*old(state)) + data@,
{
    state.inner.update(data);
}

/// Calls `Digest::finalize` on a SHA-512 computation. The result is the
/// 64-byte digest of everything fed to it.
#[verifier::external_body]
fn sha512_finalize(state: Sha512State) -> (digest: Vec<u8>)
    ensures
        digest@ == sha512(sha512_absorbed(state)),
        digest@.len() == 64,
{
    state.inner.finalize().to_vec()
}

/// The algorithms every checksum run uses, in the order their files are built.
pub open spec fn default_hashes_spec() -> Seq<Hash> {
    seq![Hash::Blake2, Hash::Sha256, Hash::Sha512]
}

/// The algorithms every checksum run uses.
pub fn default_hashes() -> (hashes: Vec<Hash>)
    ensures
        hashes@ == default_hashes_spec(),
{
    let mut hashes = Vec::new();
    hashes.push(Hash::Blake2);
    hashes.push(Hash::Sha256);
    hashes.push(Hash::Sha512);
    assert(hashes@ =~= default_hashes_spec());
    hashes
}

impl Hash {
    /// The file extension of this algorithm's checksum file.
    pub open spec fn extension_spec(self) -> Seq<char> {
        match self {
            Hash::Blake2 => "b2"@,
            Hash::Sha256 => "sha256"@,
            Hash::Sha512 => "sha512"@,
        }
    }

    /// The file extension of this algorithm's checksum file.
    pub fn extension(self) -> (text: &'static str)
        ensures
            text@ == self.extension_spec(),
    {
        match self {
            Hash::Blake2 => "b2",
            Hash::Sha256 => "sha256",
            Hash::Sha512 => "sha512",
        }
    }

    /// A fresh hasher for this algorithm.
    pub fn hasher(self) -> (hasher: Hasher)
        ensures
            hasher.algorithm() == self,
            hasher.absorbed() == Seq::<u8>::empty(),
    {
        match self {
            Hash::Blake2 => Hasher::Blake2(blake2_new()),
            Hash::Sha256 => Hasher::Sha256(sha256_new()),
            Hash::Sha512 => Hasher::Sha512(sha512_new()),
        }
    }
}

/// A running digest computation of one algorithm.
pub enum Hasher {
    Blake2(Blake2State),
    Sha256(Sha256State),
    Sha512(Sha512State),
}

impl Hasher {
    /// The algorithm this hasher computes.
    pub open spec fn algorithm(&self) -> Hash {
        match self {
            Hasher::Blake2(_) => Hash::Blake2,
            Hasher::Sha256(_) => Hash::Sha256,
            Hasher::Sha512(_) => Hash::Sha512,
        }
    }

    /// The bytes fed to this hasher so far, in order.
    pub open spec fn absorbed(&self) -> Seq<u8> {
        match self {
            Hasher::Blake2(state) => blake2_absorbed(*state),
            Hasher::Sha256(state) => sha256_absorbed(*state),
            Hasher::Sha512(state) => sha512_absorbed(*state),
        }
    }

    /// The algorithm this hasher computes.
    pub fn hash(&self) -> (hash: Hash)
        ensures
            hash == self.algorithm(),
    {
        match self {
            Hasher::Blake2(_) => Hash::Blake2,
            Hasher::Sha256(_) => Hash::Sha256,
            Hasher::Sha512(_) => Hash::Sha512,
        }
    }

    /// Feeds `value` to the hasher, after everything fed before.
    pub fn update(&mut self, value: &[u8])
        ensures
            final(self).algorithm() == old(self).algorithm(),
            final(self).absorbed() == old(self).absorbed() + value@,
    {
        match self {
            Hasher::Blake2(state) => blake2_update(state, value),
            Hasher::Sha256(state) => sha256_update(state, value),
            Hasher::Sha512(state) => sha512_update(state, value),
        }
    }

    /// Ends the computation and returns the digest of everything fed to it.
    pub fn finalize(self) -> (digest: Vec<u8>)
        ensures
            digest@ == digest_of(self.algorithm(), self.absorbed()),
            digest@.len() == digest_len(self.algorithm()),
    {
        match self {
            Hasher::Blake2(state) => blake2_finalize(state),
            Hasher::Sha256(state) => sha256_finalize(state),
            Hasher::Sha512(state) => sha512_finalize(state),
        }
    }
}

/// The digests of one content, at most one per algorithm.
pub struct Hashes {
    blake2: Option<Vec<u8>>,
    sha256: Option<Vec<u8>>,
    sha512: Option<Vec<u8>>,
}

impl Hashes {
    /// The digest held for the algorithm `hash`, if any.
    pub closed spec fn value(&self, hash: Hash) -> Option<Seq<u8>> {
        match hash {
            Hash::Blake2 => match self.blake2 {
                Some(digest) => Some(digest@),
                None => None,
            },
            Hash::Sha256 => match self.sha256 {
                Some(digest) => Some(digest@),
                None => None,
            },
            Hash::Sha512 => match self.sha512 {
                Some(digest) => Some(digest@),
                None => None,
            },
        }
    }

    /// A value that holds no digest.
    pub fn new() -> (hashes: Hashes)
        ensures
            forall|hash: Hash| hashes.value(hash) is None,
    {
        Hashes { blake2: None, sha256: None, sha512: None }
    }

    /// Records `digest` for the algorithm `hash`, in place of an earlier one.
    pub fn insert(&mut self, hash: Hash, digest: Vec<u8>)
        ensures
            final(self).value(hash) == Some(digest@),
            forall|other: Hash| other != hash ==> final(self).value(other) == old(self).value(other),
    {
        match hash {
            Hash::Blake2 => {
                self.blake2 = Some(digest);
            },
            Hash::Sha256 => {
                self.sha256 = Some(digest);
            },
            Hash::Sha512 => {
                self.sha512 = Some(digest);
            },
        }
    }

    /// The digest held for the algorithm `hash`, if any.
    pub fn get(&self, hash: Hash) -> (digest: Option<&Vec<u8>>)
        ensures
            match digest {
                Some(bytes) => self.value(hash) == Some(bytes@),
                None => self.value(hash) is None,
            },
    {
        match hash {
            Hash::Blake2 => self.blake2.as_ref(),
            Hash::Sha256 => self.sha256.as_ref(),
            Hash::Sha512 => self.sha512.as_ref(),
        }
    }

    /// Digests a content given as a sequence of chunks with every algorithm of
    /// `hashes`. Each chunk is fed once to all the algorithms.
    pub fn digest(chunks: &Vec<Vec<u8>>, hashes: &[Hash]) -> (digests: Hashes)
        ensures
            forall|hash: Hash|
                #[trigger] digests.value(hash) == if hashes@.contains(hash) {
                    Some(digest_of(hash, concat_chunks(chunks@)))
                } else {
                    None
                },
            forall|hash: Hash|
                #[trigger] digests.value(hash) matches Some(digest) ==> digest.len() == digest_len(
                    hash,
                ),
    {
        let mut digester = Digester::new(hashes);
        let mut i: usize = 0;
        while i < chunks.len()
            invariant
                0 <= i <= chunks@.len(),
                digester.input() == concat_chunks(chunks@.take(i as int)),
                forall|hash: Hash| digester.computes(hash) == hashes@.contains(hash),
            decreases chunks@.len() - i,
        {
            digester.update(chunks[i].as_slice());
            proof {
                let next = chunks@.take(i as int + 1);
                assert(next.drop_last() =~= chunks@.take(i as int));
                assert(next.last() == chunks@[i as int]);
            }
            i += 1;
        }
        assert(chunks@.take(i as int) =~= chunks@);
        digester.finalize()
    }
}

/// The bytes of a content given as a sequence of chunks.
pub open spec fn concat_chunks(chunks: Seq<Vec<u8>>) -> Seq<u8>
    decreases chunks.len(),
{
    if chunks.len() == 0 {
        Seq::empty()
    } else {
        concat_chunks(chunks.drop_last()) + chunks.last()@
    }
}

/// Several running digest computations that are fed the same content.
pub struct Digester {
    hashers: Vec<Hasher>,
    fed: Ghost<Seq<u8>>,
}

impl Digester {
    /// Every hasher has been fed the same bytes, and no algorithm occurs twice.
    #[verifier::type_invariant]
    spec fn well_formed(&self) -> bool {
        &&& forall|i: int|
            0 <= i < self.hashers@.len() ==> (#[trigger] self.hashers@[i]).absorbed() == self.fed@
        &&& forall|i: int, j: int|
            0 <= i < j < self.hashers@.len() ==> (#[trigger] self.hashers@[i]).algorithm() != (
            #[trigger] self.hashers@[j]).algorithm()
    }

    /// The bytes fed so far, in order.
    pub closed spec fn input(&self) -> Seq<u8> {
        self.fed@
    }

    /// Whether a digest of the algorithm `hash` is being computed.
    pub closed spec fn computes(&self, hash: Hash) -> bool {
        exists|i: int| 0 <= i < self.hashers@.len() && (#[trigger] self.hashers@[i]).algorithm() == hash
    }

    /// Starts one computation for each algorithm that occurs in `hashes`.
    pub fn new(hashes: &[Hash]) -> (digester: Digester)
        ensures
            digester.input() == Seq::<u8>::empty(),
            forall|hash: Hash| digester.computes(hash) == hashes@.contains(hash),
    {
        let mut hashers: Vec<Hasher> = Vec::new();
        let mut i: usize = 0;
        while i < hashes.len()
            invariant
                0 <= i <= hashes@.len(),
                forall|k: int|
                    0 <= k < hashers@.len() ==> (#[trigger] hashers@[k]).absorbed() == Seq::<
                        u8,
                    >::empty(),
                forall|k: int, l: int|
                    0 <= k < l < hashers@.len() ==> (#[trigger] hashers@[k]).algorithm() != (
                    #[trigger] hashers@[l]).algorithm(),
                forall|hash: Hash|
                    (exists|k: int|
                        0 <= k < hashers@.len() && (#[trigger] hashers@[k]).algorithm() == hash)
                        == hashes@.take(i as int).contains(hash),
            decreases hashes@.len() - i,
        {
            let hash = hashes[i];
            let mut present = false;
            let mut k: usize = 0;
            while k < hashers.len()
                invariant
                    0 <= k <= hashers@.len(),
                    present == (exists|l: int|
                        0 <= l < k && (#[trigger] hashers@[l]).algorithm() == hash),
                decreases hashers@.len() - k,
            {
                if hashers[k].hash() == hash {
                    present = true;
                }
                k += 1;
            }
            let ghost before = hashers@;
            if !present {
                hashers.push(hash.hasher());
            }
            proof {
                let prefix = hashes@.take(i as int);
                let next = hashes@.take(i as int + 1);
                assert(next =~= prefix.push(hash));
                assert forall|other: Hash|
                    (exists|k: int|
                        0 <= k < hashers@.len() && (#[trigger] hashers@[k]).algorithm() == other)
                        == next.contains(other) by {
                    let had = exists|k: int|
                        0 <= k < before.len() && (#[trigger] before[k]).algorithm() == other;
                    assert(had == prefix.contains(other));
                    if next.contains(other) {
                        let at = choose|at: int| 0 <= at < next.len() && next[at] == other;
                        if at < prefix.len() {
                            assert(prefix[at] == other);
                            assert(prefix.contains(other));
                            let k = choose|k: int|
                                0 <= k < before.len() && (#[trigger] before[k]).algorithm()
                                    == other;
                            assert(hashers@[k].algorithm() == other);
                        } else {
                            assert(other == hash);
                            if present {
                                let k = choose|k: int|
                                    0 <= k < before.len() && (#[trigger] before[k]).algorithm()
                                        == hash;
                                assert(hashers@[k].algorithm() == other);
                            } else {
                                assert(hashers@[before.len() as int].algorithm() == other);
                            }
                        }
                    } else {
                        assert(next[i as int] == hash);
                        assert(other != hash);
                        if exists|k: int|
                            0 <= k < hashers@.len() && (#[trigger] hashers@[k]).algorithm()
                                == other {
                            let k = choose|k: int|
                                0 <= k < hashers@.len() && (#[trigger] hashers@[k]).algorithm()
                                    == other;
                            assert(k < before.len());
                            assert(before[k].algorithm() == other);
                            assert(prefix.contains(other));
                            let at = choose|at: int| 0 <= at < prefix.len() && prefix[at] == other;
                            assert(next[at] == other);
                        }
                    }
                }
            }
            i += 1;
        }
        assert(hashes@.take(i as int) =~= hashes@);
        Digester { hashers, fed: Ghost(Seq::empty()) }
    }

    /// Feeds `chunk` to every computation.
    pub fn update(&mut self, chunk: &[u8])
        ensures
            final(self).input() == old(self).input() + chunk@,
            forall|hash: Hash| final(self).computes(hash) == old(self).computes(hash),
    {
        proof {
            use_type_invariant(&*self);
        }
        let ghost before = self.hashers@;
        let ghost fed = self.fed@;
        let mut hashers: Vec<Hasher> = Vec::new();
        core::mem::swap(&mut hashers, &mut self.hashers);
        let mut i: usize = 0;
        while i < hashers.len()
            invariant
                0 <= i <= hashers@.len(),
                hashers@.len() == before.len(),
                forall|k: int|
                    0 <= k < hashers@.len() ==> (#[trigger] hashers@[k]).algorithm()
                        == before[k].algorithm(),
                forall|k: int| 0 <= k < i ==> (#[trigger] hashers@[k]).absorbed() == fed + chunk@,
                forall|k: int|
                    i <= k < hashers@.len() ==> (#[trigger] hashers@[k]).absorbed() == fed,
            decreases hashers@.len() - i,
        {
            hashers[i].update(chunk);
            i += 1;
        }
        *self = Digester { hashers, fed: Ghost(fed + chunk@) };
        proof {
            assert forall|hash: Hash| final(self).computes(hash) == old(self).computes(hash) by {
                if old(self).computes(hash) {
                    let k = choose|k: int|
                        0 <= k < old(self).hashers@.len() && (#[trigger] old(
                            self,
                        ).hashers@[k]).algorithm() == hash;
                    assert(self.hashers@[k].algorithm() == hash);
                }
                if self.computes(hash) {
                    let k = choose|k: int|
                        0 <= k < self.hashers@.len() && (#[trigger] self.hashers@[k]).algorithm()
                            == hash;
                    assert(old(self).hashers@[k].algorithm() == hash);
                }
            }
        }
    }

    /// Ends every computation and collects the digests.
    pub fn finalize(self) -> (digests: Hashes)
        ensures
            forall|hash: Hash|
                #[trigger] digests.value(hash) == if self.computes(hash) {
                    Some(digest_of(hash, self.input()))
                } else {
                    None
                },
            forall|hash: Hash|
                #[trigger] digests.value(hash) matches Some(digest) ==> digest.len() == digest_len(
                    hash,
                ),
    {
        proof {
            use_type_invariant(&self);
        }
        let ghost all = self.hashers@;
        let ghost fed = self.fed@;
        let mut hashers = self.hashers;
        let mut digests = Hashes::new();
        while hashers.len() > 0
            invariant
                hashers@.len() <= all.len(),
                hashers@ == all.take(hashers@.len() as int),
                forall|k: int| 0 <= k < all.len() ==> (#[trigger] all[k]).absorbed() == fed,
                forall|k: int, l: int|
                    0 <= k < l < all.len() ==> (#[trigger] all[k]).algorithm() != (
                    #[trigger] all[l]).algorithm(),
                forall|hash: Hash|
                    #[trigger] digests.value(hash) == if (exists|k: int|
                        hashers@.len() <= k < all.len() && (#[trigger] all[k]).algorithm()
                            == hash) {
                        Some(digest_of(hash, fed))
                    } else {
                        None
                    },
                forall|hash: Hash|
                    #[trigger] digests.value(hash) matches Some(digest) ==> digest.len()
                        == digest_len(hash),
            decreases hashers@.len(),
        {
            let ghost before = digests;
            let ghost rest = hashers@.len() - 1;
            let hasher = hashers.pop().unwrap();
            assert(hasher == all[rest]);
            let hash = hasher.hash();
            let digest = hasher.finalize();
            digests.insert(hash, digest);
            proof {
                assert forall|other: Hash|
                    (#[trigger] digests.value(other) matches Some(bytes) ==> bytes.len()
                        == digest_len(other)) by {
                    if other != hash {
                        assert(digests.value(other) == before.value(other));
                    }
                }
                assert(hashers@ =~= all.take(rest));
                assert forall|other: Hash|
                    #[trigger] digests.value(other) == if (exists|k: int|
                        rest <= k < all.len() && (#[trigger] all[k]).algorithm() == other) {
                        Some(digest_of(other, fed))
                    } else {
                        None
                    } by {
                    if other == hash {
                        assert(all[rest].algorithm() == other);
                    } else {
                        assert(digests.value(other) == before.value(other));
                        if exists|k: int|
                            rest <= k < all.len() && (#[trigger] all[k]).algorithm() == other {
                            let k = choose|k: int|
                                rest <= k < all.len() && (#[trigger] all[k]).algorithm() == other;
                            assert(k != rest);
                            assert(rest + 1 <= k < all.len() && all[k].algorithm() == other);
                        }
                    }
                }
            }
        }
        digests
    }
}

/// A content is the same however it is cut into chunks: the chunks of one
/// list followed by those of another make up the bytes of both.
pub proof fn lemma_concat_chunks(first: Seq<Vec<u8>>, second: Seq<Vec<u8>>)
    ensures
        concat_chunks(first + second) == concat_chunks(first) + concat_chunks(second),
    decreases second.len(),
{
    if second.len() == 0 {
        assert(first + second =~= first);
        assert(concat_chunks(first) + concat_chunks(second) =~= concat_chunks(first));
    } else {
        lemma_concat_chunks(first, second.drop_last());
        assert((first + second).drop_last() =~= first + second.drop_last());
        assert((first + second).last() == second.last());
        assert(concat_chunks(first + second) =~= concat_chunks(first) + concat_chunks(second));
    }
}

/// Digests are deterministic. Two contents that hold the same bytes, however
/// they are cut into chunks, have the same digest under every algorithm.
pub proof fn lemma_digest_deterministic(hash: Hash, first: Seq<Vec<u8>>, second: Seq<Vec<u8>>)
    requires
        concat_chunks(first) == concat_chunks(second),
    ensures
        digest_of(hash, concat_chunks(first)) == digest_of(hash, concat_chunks(second)),
{
}

} // verus!
