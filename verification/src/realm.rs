//! A realm as it is stored and as it is listed to clients.

use vstd::prelude::*;

verus! {

/// The kind of play on a realm.
#[derive(Debug, Clone, Copy, PartialEq, Eq, Structural)]
pub enum RealmType {
    Normal,
    PvP,
    RolePlay,
    RolePlayPvP,
}

/// The kind of realm that a stored code stands for, if it stands for one.
pub open spec fn realm_type_of(code: i64) -> Option<RealmType> {
    if code == 0 {
        Some(RealmType::Normal)
    } else if code == 1 {
        Some(RealmType::PvP)
    } else if code == 6 {
        Some(RealmType::RolePlay)
    } else if code == 8 {
        Some(RealmType::RolePlayPvP)
    } else {
        None
    }
}

impl RealmType {
    /// The code under which this kind of realm is stored.
    pub open spec fn spec_code(self) -> i64 {
        match self {
            RealmType::Normal => 0,
            RealmType::PvP => 1,
            RealmType::RolePlay => 6,
            RealmType::RolePlayPvP => 8,
        }
    }

    /// The kind of realm that `code` stands for, or `None` for a code that
    /// stands for none.
    pub fn from_code(code: i64) -> (kind: Option<RealmType>)
        ensures
            kind == realm_type_of(code),
    {
        if code == 0 {
            Some(RealmType::Normal)
        } else if code == 1 {
            Some(RealmType::PvP)
        } else if code == 6 {
            Some(RealmType::RolePlay)
        } else if code == 8 {
            Some(RealmType::RolePlayPvP)
        } else {
            None
        }
    }

    /// The code under which this kind of realm is stored.
    #[verifier::when_used_as_spec(spec_code)]
    pub fn code(self) -> (code: i64)
        ensures
            code == self.spec_code(),
            realm_type_of(code) == Some(self),
    {
        match self {
            RealmType::Normal => 0,
            RealmType::PvP => 1,
            RealmType::RolePlay => 6,
            RealmType::RolePlayPvP => 8,
        }
    }
}

/// The number of characters reported for a realm. It is not stored, so every
/// realm is listed with this value.
pub const DEFAULT_NUM_CHARS: u8 = 1;

/// One row of the realm table, as read from storage. The population is a
/// floating-point number there; it is carried as its IEEE 754 bit pattern.
#[derive(Debug, Clone)]
pub struct RealmRow {
    pub id: i64,
    pub realm_type: i64,
    pub is_locked: i64,
    pub flags: i64,
    pub name: String,
    pub address: String,
    pub population_bits: u64,
    pub category: i64,
}

/// A stored row, as mathematical values.
pub struct RealmRowView {
    pub id: i64,
    pub realm_type: i64,
    pub is_locked: i64,
    pub flags: i64,
    pub name: Seq<char>,
    pub address: Seq<char>,
    pub population_bits: u64,
    pub category: i64,
}

impl View for RealmRow {
    type V = RealmRowView;

    open spec fn view(&self) -> RealmRowView {
        RealmRowView {
            id: self.id,
            realm_type: self.realm_type,
            is_locked: self.is_locked,
            flags: self.flags,
            name: self.name@,
            address: self.address@,
            population_bits: self.population_bits,
            category: self.category,
        }
    }
}

/// A realm of the directory.
#[derive(Debug, Clone)]
pub struct Realm {
    pub id: i64,
    pub realm_type: RealmType,
    pub locked: bool,
    pub flags: i64,
    pub name: String,
    pub address: String,
    pub population_bits: u64,
    pub num_chars: u8,
    pub category: i64,
}

/// A realm, as mathematical values.
pub struct RealmView {
    pub id: i64,
    pub realm_type: RealmType,
    pub locked: bool,
    pub flags: i64,
    pub name: Seq<char>,
    pub address: Seq<char>,
    pub population_bits: u64,
    pub num_chars: u8,
    pub category: i64,
}

impl View for Realm {
    type V = RealmView;

    open spec fn view(&self) -> RealmView {
        RealmView {
            id: self.id,
            realm_type: self.realm_type,
            locked: self.locked,
            flags: self.flags,
            name: self.name@,
            address: self.address@,
            population_bits: self.population_bits,
            num_chars: self.num_chars,
            category: self.category,
        }
    }
}

/// The realm that a stored row describes, where its code stands for a kind
/// of realm: the stored fields as they are, locked where the stored flag is
/// not zero.
pub open spec fn realm_of(row: RealmRowView) -> RealmView
    recommends
        realm_type_of(row.realm_type) is Some,
{
    RealmView {
        id: row.id,
        realm_type: realm_type_of(row.realm_type).unwrap(),
        locked: row.is_locked != 0,
        flags: row.flags,
        name: row.name,
        address: row.address,
        population_bits: row.population_bits,
        num_chars: DEFAULT_NUM_CHARS,
        category: row.category,
    }
}

} // verus!
