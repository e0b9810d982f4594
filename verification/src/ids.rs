use vstd::prelude::*;

verus! {

/// Identifier of an account.
#[derive(Copy, Clone, Debug, PartialEq, Eq, Structural, PartialOrd, Ord, Hash)]
pub struct AccountId(pub u64);

impl AccountId {
    pub fn new(value: u64) -> (id: Self)
        ensures
            id.0 == value,
    {
        AccountId(value)
    }

    pub fn raw(self) -> (value: u64)
        ensures
            value == self.0,
    {
        self.0
    }
}

/// Identifier of an asset.
#[derive(Copy, Clone, Debug, PartialEq, Eq, Structural, PartialOrd, Ord, Hash)]
pub struct AssetId(pub u64);

impl AssetId {
    pub fn new(value: u64) -> (id: Self)
        ensures
            id.0 == value,
    {
        AssetId(value)
    }

    pub fn raw(self) -> (value: u64)
        ensures
            value == self.0,
    {
        self.0
    }
}

/// Identifier of a vault.
#[derive(Copy, Clone, Debug, PartialEq, Eq, Structural, PartialOrd, Ord, Hash)]
pub struct VaultId(pub u64);

impl VaultId {
    pub fn new(value: u64) -> (id: Self)
        ensures
            id.0 == value,
    {
        VaultId(value)
    }

    pub fn raw(self) -> (value: u64)
        ensures
            value == self.0,
    {
        self.0
    }
}

/// Identifier of a route.
#[derive(Copy, Clone, Debug, PartialEq, Eq, Structural, PartialOrd, Ord, Hash)]
pub struct RouteId(pub u64);

impl RouteId {
    pub fn new(value: u64) -> (id: Self)
        ensures
            id.0 == value,
    {
        RouteId(value)
    }

    pub fn raw(self) -> (value: u64)
        ensures
            value == self.0,
    {
        self.0
    }
}

/// Identifier of a transfer intent.
#[derive(Copy, Clone, Debug, PartialEq, Eq, Structural, PartialOrd, Ord, Hash)]
pub struct IntentId(pub u64);

impl IntentId {
    pub fn new(value: u64) -> (id: Self)
        ensures
            id.0 == value,
    {
        IntentId(value)
    }

    pub fn raw(self) -> (value: u64)
        ensures
            value == self.0,
    {
        self.0
    }
}

/// Identifier of a settlement session.
#[derive(Copy, Clone, Debug, PartialEq, Eq, Structural, PartialOrd, Ord, Hash)]
pub struct SessionId(pub u64);

impl SessionId {
    pub fn new(value: u64) -> (id: Self)
        ensures
            id.0 == value,
    {
        SessionId(value)
    }

    pub fn raw(self) -> (value: u64)
        ensures
            value == self.0,
    {
        self.0
    }
}

/// Identifier of a settlement transaction.
#[derive(Copy, Clone, Debug, PartialEq, Eq, Structural, PartialOrd, Ord, Hash)]
pub struct TxId(pub u64);

impl TxId {
    pub fn new(value: u64) -> (id: Self)
        ensures
            id.0 == value,
    {
        TxId(value)
    }

    pub fn raw(self) -> (value: u64)
        ensures
            value == self.0,
    {
        self.0
    }
}

} // verus!
