use vstd::prelude::*;

verus! {

/// A server-internal player index, kept as close to zero as possible so that
/// data structures indexed by it stay small.
#[derive(Clone, Copy, PartialEq, Eq, Structural, Debug)]
pub struct PlayerId(u8);

impl View for PlayerId {
    type V = u8;

    closed spec fn view(&self) -> u8 {
        self.0
    }
}

impl PlayerId {
    pub fn from_raw(raw: u8) -> (r: Self)
        ensures
            r@ == raw,
    {
        Self(raw)
    }

    pub fn raw(self) -> (r: u8)
        ensures
            r == self@,
    {
        self.0
    }
}

/// The id by which client and server refer to an entity. Id 0 is reserved as
/// invalid and never assigned.
#[derive(Clone, Copy, PartialEq, Eq, Structural, Debug)]
pub struct NetworkId(u16);

impl View for NetworkId {
    type V = u16;

    closed spec fn view(&self) -> u16 {
        self.0
    }
}

impl NetworkId {
    /// The reserved invalid id.
    pub fn invalid() -> (r: Self)
        ensures
            r@ == 0,
    {
        Self(0)
    }

    pub fn from_raw(raw: u16) -> (r: Self)
        ensures
            r@ == raw,
    {
        Self(raw)
    }

    pub fn raw(self) -> (r: u16)
        ensures
            r == self@,
    {
        self.0
    }
}

/// Ids are equal exactly when their raw values are.
pub proof fn lemma_network_id_eq(a: NetworkId, b: NetworkId)
    ensures
        (a == b) <==> (a@ == b@),
{
    if a@ == b@ {
        assert(a.0 == b.0);
    }
}

} // verus!
