use vstd::prelude::*;

verus! {

/// A sequence of bytes, as contracts speak of records and digests.
pub type Bytes = Seq<u8>;

/// The label of a tree node: the fixed-size output of a hash role, held as bytes.
#[derive(Clone, Debug)]
pub struct Digest {
    pub bytes: Vec<u8>,
}

impl View for Digest {
    type V = Seq<u8>;

    open spec fn view(&self) -> Seq<u8> {
        self.bytes@
    }
}

impl Digest {
    /// A digest made of the given bytes.
    pub fn new(bytes: Vec<u8>) -> (digest: Digest)
        ensures
            digest@ == bytes@,
    {
        Digest { bytes }
    }

    /// A second copy of the digest.
    pub fn duplicate(&self) -> (copy: Digest)
        ensures
            copy@ == self@,
    {
        let mut bytes: Vec<u8> = Vec::new();
        let mut i: usize = 0;
        while i < self.bytes.len()
            invariant
                i <= self.bytes@.len(),
                bytes@ == self.bytes@.subrange(0, i as int),
            decreases self.bytes@.len() - i,
        {
            bytes.push(self.bytes[i]);
            i = i + 1;
            assert(bytes@ =~= self.bytes@.subrange(0, i as int));
        }
        assert(bytes@ =~= self.bytes@);
        Digest { bytes }
    }

    /// Whether two digests hold the same bytes.
    pub fn same_as(&self, other: &Digest) -> (same: bool)
        ensures
            same == (self@ == other@),
    {
        same_bytes(&self.bytes, &other.bytes)
    }
}

/// Whether two byte vectors hold the same bytes.
pub fn same_bytes(first: &Vec<u8>, second: &Vec<u8>) -> (same: bool)
    ensures
        same == (first@ == second@),
{
    if first.len() != second.len() {
        return false;
    }
    let mut i: usize = 0;
    while i < first.len()
        invariant
            i <= first@.len(),
            first@.len() == second@.len(),
            first@.subrange(0, i as int) == second@.subrange(0, i as int),
        decreases first@.len() - i,
    {
        if first[i] != second[i] {
            assert(first@[i as int] != second@[i as int]);
            return false;
        }
        i = i + 1;
        assert(first@.subrange(0, i as int) =~= first@.subrange(0, i - 1).push(first@[i - 1]));
        assert(second@.subrange(0, i as int) =~= second@.subrange(0, i - 1).push(second@[i - 1]));
    }
    assert(first@ =~= first@.subrange(0, i as int));
    assert(second@ =~= second@.subrange(0, i as int));
    true
}

/// The two hash roles a tree is built from. Both are functions of their arguments: the
/// same scheme gives the same digest for the same input, every time. That is all a
/// scheme is held to; which function it computes is its own business, and the two
/// model functions below only give that function a name. A scheme written outside
/// verified code is taken at its word on this: the laws of the tree hold of the
/// schemes that keep it.
pub trait HashScheme {
    /// The digest of a leaf record, or `None` for a record the scheme cannot take.
    spec fn leaf_digest(&self, record: Bytes) -> Option<Bytes>;

    /// The digest of an inner node with the given left and right children.
    spec fn node_digest(&self, left: Bytes, right: Bytes) -> Bytes;

    /// Hashes a leaf record.
    fn hash_leaf(&self, record: &[u8]) -> (digest: Option<Digest>)
        ensures
            digest.is_some() == self.leaf_digest(record@).is_some(),
            digest matches Some(d) ==> self.leaf_digest(record@) == Some(d@),
    ;

    /// Compresses two child digests, left child first, into their parent's digest.
    fn compress(&self, left: &Digest, right: &Digest) -> (digest: Digest)
        ensures
            digest@ == self.node_digest(left@, right@),
    ;

    /// A second scheme with the same parameters: it hashes as this one does.
    fn duplicate(&self) -> (copy: Self) where Self: Sized
        ensures
            forall|record: Bytes| #[trigger]
                copy.leaf_digest(record) == self.leaf_digest(record),
            forall|left: Bytes, right: Bytes| #[trigger]
                copy.node_digest(left, right) == self.node_digest(left, right),
    ;
}

/// Two schemes give the same digests in both roles.
pub open spec fn same_scheme<H: HashScheme>(first: &H, second: &H) -> bool {
    &&& forall|record: Seq<u8>| #[trigger]
        first.leaf_digest(record) == second.leaf_digest(record)
    &&& forall|left: Seq<u8>, right: Seq<u8>| #[trigger]
        first.node_digest(left, right) == second.node_digest(left, right)
}

} // verus!
