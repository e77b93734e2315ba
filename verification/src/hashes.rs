//! Agent keys and action hashes, held as their raw bytes.
use vstd::prelude::*;

verus! {

/// Compares two byte vectors element by element.
pub fn bytes_equal(a: &Vec<u8>, b: &Vec<u8>) -> (r: bool)
    ensures
        r == (a@ == b@),
{
    if a.len() != b.len() {
        return false;
    }
    let mut i: usize = 0;
    while i < a.len()
        invariant
            a@.len() == b@.len(),
            i <= a@.len(),
            forall|j: int| 0 <= j < i ==> a@[j] == b@[j],
        decreases a@.len() - i,
    {
        if a[i] != b[i] {
            return false;
        }
        i = i + 1;
    }
    assert(a@ =~= b@);
    true
}

/// Copies a byte vector.
pub fn copy_bytes(a: &Vec<u8>) -> (r: Vec<u8>)
    ensures
        r@ == a@,
{
    let mut r: Vec<u8> = Vec::new();
    let mut i: usize = 0;
    while i < a.len()
        invariant
            i <= a@.len(),
            r@ == a@.subrange(0, i as int),
        decreases a@.len() - i,
    {
        r.push(a[i]);
        i = i + 1;
        assert(r@ =~= a@.subrange(0, i as int));
    }
    assert(a@.subrange(0, a@.len() as int) =~= a@);
    r
}

/// The public key of an agent (its 39-byte Holochain hash).
pub struct AgentKey {
    pub bytes: Vec<u8>,
}

impl View for AgentKey {
    type V = Seq<u8>;

    open spec fn view(&self) -> Seq<u8> {
        self.bytes@
    }
}

impl AgentKey {
    pub fn new(bytes: Vec<u8>) -> (r: AgentKey)
        ensures
            r@ == bytes@,
    {
        AgentKey { bytes }
    }

    /// Whether both keys are the same key.
    pub fn same_as(&self, other: &AgentKey) -> (r: bool)
        ensures
            r == (self@ == other@),
    {
        bytes_equal(&self.bytes, &other.bytes)
    }

    pub fn copy(&self) -> (r: AgentKey)
        ensures
            r@ == self@,
    {
        AgentKey { bytes: copy_bytes(&self.bytes) }
    }
}

/// The hash of an action on a source chain (its 39-byte Holochain hash).
pub struct ActionId {
    pub bytes: Vec<u8>,
}

impl View for ActionId {
    type V = Seq<u8>;

    open spec fn view(&self) -> Seq<u8> {
        self.bytes@
    }
}

impl ActionId {
    pub fn new(bytes: Vec<u8>) -> (r: ActionId)
        ensures
            r@ == bytes@,
    {
        ActionId { bytes }
    }

    /// Whether both hashes are the same hash.
    pub fn same_as(&self, other: &ActionId) -> (r: bool)
        ensures
            r == (self@ == other@),
    {
        bytes_equal(&self.bytes, &other.bytes)
    }

    pub fn copy(&self) -> (r: ActionId)
        ensures
            r@ == self@,
    {
        ActionId { bytes: copy_bytes(&self.bytes) }
    }
}

/// The view of an optional hash.
pub open spec fn opt_view(h: Option<ActionId>) -> Option<Seq<u8>> {
    match h {
        Some(x) => Some(x@),
        None => None,
    }
}

/// Copies an optional hash.
pub fn copy_opt(h: &Option<ActionId>) -> (r: Option<ActionId>)
    ensures
        opt_view(r) == opt_view(*h),
{
    match h {
        Some(x) => Some(x.copy()),
        None => None,
    }
}

/// Whether two optional hashes are both absent or the same hash.
pub fn same_opt(a: &Option<ActionId>, b: &Option<ActionId>) -> (r: bool)
    ensures
        r == (opt_view(*a) == opt_view(*b)),
{
    match (a, b) {
        (None, None) => true,
        (Some(x), Some(y)) => x.same_as(y),
        _ => false,
    }
}

} // verus!
