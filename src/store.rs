use vstd::prelude::*;
use crate::accounts::{CustomError, Pubkey};

verus! {

/// The hash that light-hasher's SHA-256 gives for a byte string.
pub uninterp spec fn sha256_of(b: Seq<u8>) -> Seq<u8>;

/// Relies on light_hasher::Sha256::hash, which returns the SHA-256 digest of
/// its input and has no error path on or off chain.
#[verifier::external_body]
fn leaf_hash(b: &Vec<u8>) -> (r: [u8; 32])
    ensures
        r@ == sha256_of(b@),
{
    <light_hasher::Sha256 as light_hasher::Hasher>::hash(b.as_slice()).expect("sha256 has no error path")
}

/// One committed leaf: the address it stands at, the hash of its image, the
/// image, and whether it has been nullified. Its tree position is its index.
#[derive(Clone, Debug)]
pub struct LeafRecord {
    pub address: Pubkey,
    pub hash: [u8; 32],
    pub data: Vec<u8>,
    pub nullified: bool,
}

/// The leaf a transition consumes: its tree position and committed hash.
#[derive(Clone, Copy, Debug, PartialEq, Eq)]
pub struct LeafInput {
    pub leaf_index: u64,
    pub hash: [u8; 32],
}

/// What the proof verifier is handed for one record: its address, the leaf
/// to nullify (none when the record is created), and the new leaf's image
/// and hash.
#[derive(Clone, Debug, PartialEq, Eq)]
pub struct TransitionInputs {
    pub address: Pubkey,
    pub nullify: Option<LeafInput>,
    pub output_data: Vec<u8>,
    pub output_hash: [u8; 32],
}

/// The inputs that create the first leaf at `address`, holding `output`.
pub fn creation_inputs(address: &Pubkey, output: Vec<u8>) -> (r: TransitionInputs)
    ensures
        r.address@ == address@,
        r.nullify is None,
        r.output_data@ == output@,
        r.output_hash@ == sha256_of(output@),
{
    let output_hash = leaf_hash(&output);
    TransitionInputs { address: *address, nullify: None, output_data: output, output_hash }
}

/// The inputs that replace the leaf at `leaf_index`, claimed to hold
/// `claimed`, by a leaf at the same `address` holding `output`.
pub fn update_inputs(address: &Pubkey, leaf_index: u64, claimed: &Vec<u8>, output: Vec<u8>) -> (r: TransitionInputs)
    ensures
        r.address@ == address@,
        r.nullify matches Some(l) && l.leaf_index == leaf_index && l.hash@ == sha256_of(claimed@),
        r.output_data@ == output@,
        r.output_hash@ == sha256_of(output@),
{
    let hash = leaf_hash(claimed);
    let output_hash = leaf_hash(&output);
    TransitionInputs {
        address: *address,
        nullify: Some(LeafInput { leaf_index, hash }),
        output_data: output,
        output_hash,
    }
}

/// A leaf as a mathematical value.
pub struct LeafView {
    pub address: Seq<u8>,
    pub hash: Seq<u8>,
    pub data: Seq<u8>,
    pub nullified: bool,
}

impl View for LeafRecord {
    type V = LeafView;

    open spec fn view(&self) -> LeafView {
        LeafView {
            address: self.address@,
            hash: self.hash@,
            data: self.data@,
            nullified: self.nullified,
        }
    }
}

/// A live (never nullified) leaf at `address` holding `data`.
pub open spec fn fresh_leaf(address: Seq<u8>, data: Seq<u8>) -> LeafView {
    LeafView { address, hash: sha256_of(data), data, nullified: false }
}

/// Some live leaf stands at `address`.
pub open spec fn has_live(s: Seq<LeafView>, address: Seq<u8>) -> bool {
    exists|i: int| 0 <= i < s.len() && !s[i].nullified && #[trigger] s[i].address == address
}

/// The leaf at position `i` is live, stands at `address`, and holds an image
/// whose hash is `h`: what a validity proof for that leaf attests.
pub open spec fn accepts(s: Seq<LeafView>, address: Seq<u8>, i: int, h: Seq<u8>) -> bool {
    &&& 0 <= i < s.len()
    &&& !s[i].nullified
    &&& s[i].address == address
    &&& s[i].hash == h
}

/// The live leaf at `address` holds `data`.
pub open spec fn live_holds(s: Seq<LeafView>, address: Seq<u8>, data: Seq<u8>) -> bool {
    exists|i: int| #[trigger] accepts(s, address, i, sha256_of(data)) && s[i].data == data
}

/// At most one live leaf stands at any address.
pub open spec fn live_unique(s: Seq<LeafView>) -> bool {
    forall|i: int, j: int|
        0 <= i < s.len() && 0 <= j < s.len() && i != j && !s[i].nullified && !s[j].nullified
            ==> #[trigger] s[i].address != #[trigger] s[j].address
}

/// Every leaf's hash is the hash of its image.
pub open spec fn hashes_bound(s: Seq<LeafView>) -> bool {
    forall|i: int| 0 <= i < s.len() ==> #[trigger] s[i].hash == sha256_of(s[i].data)
}

/// The state after an update: the leaf at `i` nullified, `leaf` appended at a
/// fresh position.
pub open spec fn superseded(s: Seq<LeafView>, i: int, leaf: LeafView) -> Seq<LeafView> {
    s.update(i, LeafView { nullified: true, ..s[i] }).push(leaf)
}

/// The committed state of compressed accounts under one address tree: every
/// leaf ever inserted, in tree order, with its nullification mark.
pub struct LeafStore {
    tree: Pubkey,
    leaves: Vec<LeafRecord>,
}

/// Whether two 32-byte keys are equal.
pub fn keys_equal(a: &[u8; 32], b: &[u8; 32]) -> (r: bool)
    ensures
        r == (a@ == b@),
{
    let mut i: usize = 0;
    while i < 32
        invariant
            i <= 32,
            a@.len() == 32,
            b@.len() == 32,
            a@.subrange(0, i as int) == b@.subrange(0, i as int),
        decreases 32 - i,
    {
        if a[i] != b[i] {
            assert(a@[i as int] != b@[i as int]);
            return false;
        }
        i = i + 1;
        assert(a@.subrange(0, i as int) =~= a@.subrange(0, i - 1).push(a@[i - 1]));
        assert(b@.subrange(0, i as int) =~= b@.subrange(0, i - 1).push(b@[i - 1]));
    }
    assert(a@ =~= a@.subrange(0, 32));
    assert(b@ =~= b@.subrange(0, 32));
    true
}

impl LeafStore {
    /// The leaves in tree order.
    pub closed spec fn view(&self) -> Seq<LeafView> {
        self.leaves@.map_values(|l: LeafRecord| l@)
    }

    /// The key of the address tree the leaves belong to.
    pub closed spec fn tree_key(&self) -> Seq<u8> {
        self.tree@
    }

    /// The store's invariant.
    pub open spec fn wf(&self) -> bool {
        live_unique(self.view()) && hashes_bound(self.view())
    }

    /// An empty store for address tree `tree`.
    pub fn new(tree: Pubkey) -> (r: LeafStore)
        ensures
            r.wf(),
            r.view() == Seq::<LeafView>::empty(),
            r.tree_key() == tree@,
    {
        let r = LeafStore { tree, leaves: Vec::new() };
        assert(r.view() =~= Seq::<LeafView>::empty());
        r
    }

    /// The key of the address tree.
    pub fn address_tree(&self) -> (r: Pubkey)
        ensures
            r@ == self.tree_key(),
    {
        self.tree
    }

    /// How many leaves were ever inserted.
    pub fn len(&self) -> (r: usize)
        ensures
            r == self.view().len(),
    {
        self.leaves.len()
    }

    /// Whether the leaf at position `i` has been nullified.
    pub fn is_nullified(&self, i: usize) -> (r: bool)
        requires
            i < self.view().len(),
        ensures
            r == self.view()[i as int].nullified,
    {
        self.leaves[i].nullified
    }

    /// The hash committed for the leaf at position `i`.
    pub fn hash_at(&self, i: usize) -> (r: [u8; 32])
        requires
            i < self.view().len(),
        ensures
            r@ == self.view()[i as int].hash,
    {
        self.leaves[i].hash
    }

    /// The position of the live leaf at `address`, if one stands there.
    pub fn find_live(&self, address: &Pubkey) -> (r: Option<usize>)
        requires
            self.wf(),
        ensures
            match r {
                Some(i) => i < self.view().len() && !self.view()[i as int].nullified
                    && self.view()[i as int].address == address@,
                None => !has_live(self.view(), address@),
            },
    {
        let mut i: usize = 0;
        while i < self.leaves.len()
            invariant
                i <= self.leaves@.len(),
                self.view().len() == self.leaves@.len(),
                forall|j: int| 0 <= j < i ==> !(!self.view()[j].nullified
                    && self.view()[j].address == address@),
            decreases self.leaves@.len() - i,
        {
            if !self.leaves[i].nullified && keys_equal(&self.leaves[i].address, address) {
                return Some(i);
            }
            i = i + 1;
        }
        None
    }

    /// The image held by the live leaf at `address`, if one stands there.
    pub fn live_data(&self, address: &Pubkey) -> (r: Option<Vec<u8>>)
        requires
            self.wf(),
        ensures
            match r {
                Some(d) => live_holds(self.view(), address@, d@),
                None => !has_live(self.view(), address@),
            },
    {
        match self.find_live(address) {
            Some(i) => {
                let d = self.leaves[i].data.clone();
                assert(d@ =~= self.view()[i as int].data);
                assert(self.view()[i as int].hash == sha256_of(self.view()[i as int].data));
                assert(accepts(self.view(), address@, i as int, sha256_of(d@)));
                Some(d)
            },
            None => None,
        }
    }

    /// Whether the leaf at `leaf_index` is the live leaf at `address` and
    /// holds an image with the hash of `claimed`.
    pub fn check_leaf(&self, address: &Pubkey, leaf_index: u64, claimed: &Vec<u8>) -> (r: bool)
        ensures
            r == accepts(self.view(), address@, leaf_index as int, sha256_of(claimed@)),
    {
        if leaf_index >= self.leaves.len() as u64 {
            return false;
        }
        let i = leaf_index as usize;
        let h = leaf_hash(claimed);
        !self.leaves[i].nullified && keys_equal(&self.leaves[i].address, address)
            && keys_equal(&self.leaves[i].hash, &h)
    }

    /// Creates the first leaf at `address`, holding `data`; refused when a
    /// live leaf already stands there. Returns the new leaf's position.
    pub fn create_leaf(&mut self, address: &Pubkey, data: Vec<u8>) -> (r: Result<u64, CustomError>)
        requires
            old(self).wf(),
        ensures
            final(self).wf(),
            final(self).tree_key() == old(self).tree_key(),
            match r {
                Ok(p) => !has_live(old(self).view(), address@)
                    && p == old(self).view().len()
                    && final(self).view() == old(self).view().push(fresh_leaf(address@, data@)),
                Err(e) => has_live(old(self).view(), address@)
                    && e == CustomError::UniquenessViolation
                    && final(self).view() == old(self).view(),
            },
    {
        if self.find_live(address).is_some() {
            return Err(CustomError::UniquenessViolation);
        }
        let p = self.leaves.len() as u64;
        let hash = leaf_hash(&data);
        let ghost d = data@;
        self.leaves.push(LeafRecord { address: *address, hash, data, nullified: false });
        assert(self.view() =~= old(self).view().push(fresh_leaf(address@, d)));
        Ok(p)
    }

    /// Replaces the live leaf at `address` with one holding `data`: the leaf
    /// at `leaf_index` must be that leaf and hold an image with the hash of
    /// `claimed`; it is nullified and the new leaf takes a fresh position,
    /// which is returned. Anything else is a stale proof and changes nothing.
    pub fn update_leaf(
        &mut self,
        address: &Pubkey,
        leaf_index: u64,
        claimed: &Vec<u8>,
        data: Vec<u8>,
    ) -> (r: Result<u64, CustomError>)
        requires
            old(self).wf(),
        ensures
            final(self).wf(),
            final(self).tree_key() == old(self).tree_key(),
            match r {
                Ok(p) => accepts(old(self).view(), address@, leaf_index as int, sha256_of(claimed@))
                    && p == old(self).view().len()
                    && final(self).view() == superseded(
                        old(self).view(),
                        leaf_index as int,
                        fresh_leaf(address@, data@),
                    ),
                Err(e) => !accepts(old(self).view(), address@, leaf_index as int, sha256_of(claimed@))
                    && e == CustomError::StaleProof
                    && final(self).view() == old(self).view(),
            },
    {
        if !self.check_leaf(address, leaf_index, claimed) {
            return Err(CustomError::StaleProof);
        }
        let i = leaf_index as usize;
        let p = self.leaves.len() as u64;
        let kept = self.leaves[i].data.clone();
        assert(kept@ =~= self.leaves@[i as int].data@);
        let old_leaf = LeafRecord {
            address: self.leaves[i].address,
            hash: self.leaves[i].hash,
            data: kept,
            nullified: true,
        };
        self.leaves.set(i, old_leaf);
        let hash = leaf_hash(&data);
        let ghost d = data@;
        self.leaves.push(LeafRecord { address: *address, hash, data, nullified: false });
        assert(self.view() =~= superseded(old(self).view(), i as int, fresh_leaf(address@, d)));
        Ok(p)
    }
}

/// Replacing a live leaf by a fresh leaf at the same address keeps every
/// address that had a live leaf live.
pub proof fn lemma_live_kept_by_update(s: Seq<LeafView>, i: int, data: Seq<u8>, a: Seq<u8>)
    requires
        0 <= i < s.len(),
        !s[i].nullified,
        has_live(s, a),
    ensures
        has_live(superseded(s, i, fresh_leaf(s[i].address, data)), a),
{
    let t = superseded(s, i, fresh_leaf(s[i].address, data));
    let j = choose|j: int| 0 <= j < s.len() && !s[j].nullified && #[trigger] s[j].address == a;
    if j == i {
        assert(!t[s.len() as int].nullified && t[s.len() as int].address == a);
    } else {
        assert(!t[j].nullified && t[j].address == a);
    }
}

/// A superseded leaf is never accepted again: once the leaf at `i` has been
/// replaced, and its successor replaced in turn, no transition that presents
/// position `i` is accepted, whatever address and image it claims.
pub proof fn lemma_superseded_leaf_rejected(
    s0: Seq<LeafView>,
    i: int,
    first: Seq<u8>,
    second: Seq<u8>,
    address: Seq<u8>,
    h: Seq<u8>,
)
    requires
        0 <= i < s0.len(),
        !s0[i].nullified,
    ensures
        !accepts(superseded(s0, i, fresh_leaf(s0[i].address, first)), address, i, h),
        !accepts(
            superseded(
                superseded(s0, i, fresh_leaf(s0[i].address, first)),
                s0.len() as int,
                fresh_leaf(s0[i].address, second),
            ),
            address,
            i,
            h,
        ),
{
    let s1 = superseded(s0, i, fresh_leaf(s0[i].address, first));
    assert(s1[i].nullified);
    let s2 = superseded(s1, s0.len() as int, fresh_leaf(s0[i].address, second));
    assert(s2[i].nullified);
}

} // verus!
