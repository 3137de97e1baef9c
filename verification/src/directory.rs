//! The realm directory: the realms that clients may be sent to, loaded once
//! from the stored rows and only read afterwards.
//!
//! Loading is all or nothing. The rows are taken in order, and the first one
//! that cannot be listed refuses the whole load.

use vstd::prelude::*;
use vstd::utf8::encode_utf8;
use crate::naming::{address_is_valid, name_is_valid, valid_address, valid_name};
use crate::realm::{
    realm_of, realm_type_of, Realm, RealmRow, RealmRowView, RealmType, RealmView,
    DEFAULT_NUM_CHARS,
};

verus! {

/// Why a stored row cannot be listed.
#[derive(Debug, Clone, Copy, PartialEq, Eq, Structural)]
pub enum RowFault {
    /// Its realm type code stands for no kind of realm.
    UnknownRealmType,
    /// Its name is empty, too long, or holds a NUL byte.
    InvalidName,
    /// Its address is too long, holds a NUL byte, or is not `host:port`.
    InvalidAddress,
    /// An earlier row has the same identifier.
    DuplicateId,
}

/// The refusal of a load: the first row that cannot be listed, by its
/// position among the rows, and what is wrong with it.
#[derive(Debug, Clone, Copy, PartialEq, Eq, Structural)]
pub struct DirectoryLoadError {
    pub row: usize,
    pub reason: RowFault,
}

/// The rows of a table, as mathematical values.
pub open spec fn row_views(rows: Seq<RealmRow>) -> Seq<RealmRowView> {
    rows.map_values(|row: RealmRow| row@)
}

/// The realms of a list, as mathematical values.
pub open spec fn realm_views(realms: Seq<Realm>) -> Seq<RealmView> {
    realms.map_values(|realm: Realm| realm@)
}

/// Some realm of `realms` has the identifier `id`.
pub open spec fn has_id(realms: Seq<RealmView>, id: i64) -> bool {
    exists|i: int| 0 <= i < realms.len() && (#[trigger] realms[i]).id == id
}

/// No two realms of `realms` share an identifier.
pub open spec fn unique_ids(realms: Seq<RealmView>) -> bool {
    forall|i: int, j: int|
        0 <= i < j < realms.len() ==> (#[trigger] realms[i]).id != (#[trigger] realms[j]).id
}

/// The realm of `realms` with the identifier `id`, if there is one.
pub open spec fn find(realms: Seq<RealmView>, id: i64) -> Option<RealmView> {
    if has_id(realms, id) {
        Some(realms[choose|i: int| 0 <= i < realms.len() && (#[trigger] realms[i]).id == id])
    } else {
        None
    }
}

/// What a directory holds at all times: identifiers that are unique, names
/// and addresses that may be listed, and the default character count.
pub open spec fn listing_wf(realms: Seq<RealmView>) -> bool {
    &&& unique_ids(realms)
    &&& forall|i: int|
        0 <= i < realms.len() ==> {
            &&& valid_name(encode_utf8((#[trigger] realms[i]).name))
            &&& valid_address(encode_utf8(realms[i].address))
            &&& realms[i].num_chars == DEFAULT_NUM_CHARS
        }
}

/// What is wrong with `row`, if anything, when `listed` are the realms of
/// the rows before it.
pub open spec fn row_fault(listed: Seq<RealmView>, row: RealmRowView) -> Option<RowFault> {
    if realm_type_of(row.realm_type) is None {
        Some(RowFault::UnknownRealmType)
    } else if !valid_name(encode_utf8(row.name)) {
        Some(RowFault::InvalidName)
    } else if !valid_address(encode_utf8(row.address)) {
        Some(RowFault::InvalidAddress)
    } else if has_id(listed, row.id) {
        Some(RowFault::DuplicateId)
    } else {
        None
    }
}

/// What loading `rows` gives: one realm for each row, in the order of the
/// rows, or the refusal on account of the first row that cannot be listed.
pub open spec fn loaded(rows: Seq<RealmRowView>) -> Result<Seq<RealmView>, DirectoryLoadError>
    decreases rows.len(),
{
    if rows.len() == 0 {
        Ok(Seq::empty())
    } else {
        match loaded(rows.drop_last()) {
            Err(refusal) => Err(refusal),
            Ok(listed) => match row_fault(listed, rows.last()) {
                Some(reason) => Err(
                    DirectoryLoadError { row: (rows.len() - 1) as usize, reason },
                ),
                None => Ok(listed.push(realm_of(rows.last()))),
            },
        }
    }
}

/// The realms that clients may be sent to.
#[derive(Debug)]
pub struct RealmDirectory {
    realms: Vec<Realm>,
}

impl View for RealmDirectory {
    type V = Seq<RealmView>;

    closed spec fn view(&self) -> Seq<RealmView> {
        realm_views(self.realms@)
    }
}

/// Whether a realm of `realms` has the identifier `id`.
fn contains_id(realms: &Vec<Realm>, id: i64) -> (found: bool)
    ensures
        found == has_id(realm_views(realms@), id),
{
    let mut i: usize = 0;
    while i < realms.len()
        invariant
            i <= realms@.len(),
            forall|j: int| 0 <= j < i ==> (#[trigger] realm_views(realms@)[j]).id != id,
        decreases realms@.len() - i,
    {
        if realms[i].id == id {
            assert(realm_views(realms@)[i as int].id == id);
            return true;
        }
        i += 1;
    }
    false
}

impl RealmDirectory {
    #[verifier::type_invariant]
    spec fn well_formed(self) -> bool {
        listing_wf(self@)
    }

    /// Builds the directory from the stored rows, or refuses them all on
    /// account of the first row that cannot be listed.
    pub fn load(rows: &Vec<RealmRow>) -> (res: Result<RealmDirectory, DirectoryLoadError>)
        ensures
            match res {
                Ok(directory) => loaded(row_views(rows@)) == Ok::<
                    Seq<RealmView>,
                    DirectoryLoadError,
                >(directory@) && listing_wf(directory@),
                Err(refusal) => loaded(row_views(rows@)) == Err::<
                    Seq<RealmView>,
                    DirectoryLoadError,
                >(refusal),
            },
    {
        let ghost table = row_views(rows@);
        let mut realms: Vec<Realm> = Vec::new();
        let mut i: usize = 0;
        assert(table.take(0) =~= Seq::empty());
        assert(realm_views(realms@) =~= Seq::empty());
        while i < rows.len()
            invariant
                i <= rows@.len(),
                table == row_views(rows@),
                loaded(table.take(i as int)) == Ok::<Seq<RealmView>, DirectoryLoadError>(
                    realm_views(realms@),
                ),
                listing_wf(realm_views(realms@)),
            decreases rows@.len() - i,
        {
            let row = &rows[i];
            let ghost listed = realm_views(realms@);
            proof {
                assert(table.take(i + 1).drop_last() =~= table.take(i as int));
                assert(table.take(i + 1).last() == row@);
            }
            let realm_type = match RealmType::from_code(row.realm_type) {
                Some(kind) => kind,
                None => {
                    proof {
                        lemma_refusal_stays(table, i + 1);
                    }
                    return Err(
                        DirectoryLoadError { row: i, reason: RowFault::UnknownRealmType },
                    );
                },
            };
            if !name_is_valid(row.name.as_str()) {
                proof {
                    lemma_refusal_stays(table, i + 1);
                }
                return Err(DirectoryLoadError { row: i, reason: RowFault::InvalidName });
            }
            if !address_is_valid(row.address.as_str()) {
                proof {
                    lemma_refusal_stays(table, i + 1);
                }
                return Err(DirectoryLoadError { row: i, reason: RowFault::InvalidAddress });
            }
            if contains_id(&realms, row.id) {
                proof {
                    lemma_refusal_stays(table, i + 1);
                }
                return Err(DirectoryLoadError { row: i, reason: RowFault::DuplicateId });
            }
            let realm = Realm {
                id: row.id,
                realm_type,
                locked: row.is_locked != 0,
                flags: row.flags,
                name: row.name.clone(),
                address: row.address.clone(),
                population_bits: row.population_bits,
                num_chars: DEFAULT_NUM_CHARS,
                category: row.category,
            };
            assert(realm@ == realm_of(row@));
            realms.push(realm);
            proof {
                assert(realm_views(realms@) =~= listed.push(realm_of(row@)));
                assert(listing_wf(realm_views(realms@))) by {
                    let now = realm_views(realms@);
                    assert forall|a: int, b: int| 0 <= a < b < now.len() implies (
                    #[trigger] now[a]).id != (#[trigger] now[b]).id by {
                        if b == listed.len() {
                            assert(listed[a].id != row.id);
                        } else {
                            assert(listed[a].id != listed[b].id);
                        }
                    }
                }
            }
            i += 1;
        }
        assert(table.take(i as int) =~= table);
        Ok(RealmDirectory { realms })
    }

    /// The realm with the identifier `id`, if the directory has one.
    pub fn get(&self, id: i64) -> (found: Option<&Realm>)
        ensures
            match found {
                Some(realm) => find(self@, id) == Some(realm@) && realm@.id == id,
                None => find(self@, id).is_none() && !has_id(self@, id),
            },
            listing_wf(self@),
    {
        proof {
            use_type_invariant(self);
        }
        let mut i: usize = 0;
        while i < self.realms.len()
            invariant
                i <= self.realms@.len(),
                listing_wf(self@),
                forall|j: int| 0 <= j < i ==> (#[trigger] self@[j]).id != id,
            decreases self.realms@.len() - i,
        {
            if self.realms[i].id == id {
                assert(self@[i as int] == self.realms@[i as int]@);
                proof {
                    lemma_find_at(self@, i as int);
                }
                return Some(&self.realms[i]);
            }
            i += 1;
        }
        None
    }

    /// Every realm of the directory, in the order of the rows they were
    /// loaded from.
    pub fn all(&self) -> (realms: &[Realm])
        ensures
            realm_views(realms@) == self@,
            listing_wf(self@),
    {
        proof {
            use_type_invariant(self);
        }
        self.realms.as_slice()
    }

    /// The number of realms.
    pub fn len(&self) -> (count: usize)
        ensures
            count == self@.len(),
    {
        self.realms.len()
    }
}

/// In a list with unique identifiers, looking up the identifier of the realm
/// at `at` finds that realm.
pub proof fn lemma_find_at(realms: Seq<RealmView>, at: int)
    requires
        unique_ids(realms),
        0 <= at < realms.len(),
    ensures
        find(realms, realms[at].id) == Some(realms[at]),
{
    let id = realms[at].id;
    assert(has_id(realms, id));
    let chosen = choose|i: int| 0 <= i < realms.len() && (#[trigger] realms[i]).id == id;
    if chosen < at {
        assert(realms[chosen].id != realms[at].id);
    } else if at < chosen {
        assert(realms[at].id != realms[chosen].id);
    }
}

/// A load that is refused on the first `upto` rows is refused in the same way
/// on all of them.
pub proof fn lemma_refusal_stays(rows: Seq<RealmRowView>, upto: int)
    requires
        0 <= upto <= rows.len(),
        loaded(rows.take(upto)) is Err,
    ensures
        loaded(rows) == loaded(rows.take(upto)),
    decreases rows.len(),
{
    if upto == rows.len() {
        assert(rows.take(upto) =~= rows);
    } else {
        assert(rows.drop_last().take(upto) =~= rows.take(upto));
        lemma_refusal_stays(rows.drop_last(), upto);
    }
}

/// Every row can be listed by itself and no two rows share an identifier.
pub open spec fn listable(rows: Seq<RealmRowView>) -> bool {
    &&& forall|i: int|
        0 <= i < rows.len() ==> {
            &&& realm_type_of((#[trigger] rows[i]).realm_type) is Some
            &&& valid_name(encode_utf8(rows[i].name))
            &&& valid_address(encode_utf8(rows[i].address))
        }
    &&& forall|i: int, j: int|
        0 <= i < j < rows.len() ==> (#[trigger] rows[i]).id != (#[trigger] rows[j]).id
}

/// A load that succeeds lists one realm for each row, in order, with the
/// stored fields of that row, and what it lists is a well-formed directory.
pub proof fn lemma_loaded_listing(rows: Seq<RealmRowView>)
    ensures
        loaded(rows) matches Ok(listed) ==> {
            &&& listed.len() == rows.len()
            &&& forall|i: int| 0 <= i < rows.len() ==> #[trigger] listed[i] == realm_of(rows[i])
            &&& listing_wf(listed)
            &&& listable(rows)
        },
    decreases rows.len(),
{
    if rows.len() > 0 {
        let front = rows.drop_last();
        lemma_loaded_listing(front);
        if let Ok(listed) = loaded(rows) {
            let before = loaded(front).unwrap();
            assert(listed == before.push(realm_of(rows.last())));
            assert forall|i: int, j: int| 0 <= i < j < listed.len() implies (
            #[trigger] listed[i]).id != (#[trigger] listed[j]).id by {
                if j == before.len() {
                    assert(before[i].id != rows.last().id);
                } else {
                    assert(before[i].id != before[j].id);
                }
            }
            assert forall|i: int, j: int| 0 <= i < j < rows.len() implies (#[trigger] rows[i]).id
                != (#[trigger] rows[j]).id by {
                assert(listed[i].id != listed[j].id);
                assert(listed[i] == realm_of(rows[i]));
                assert(listed[j] == realm_of(rows[j]));
            }
            assert forall|i: int| 0 <= i < rows.len() implies {
                &&& realm_type_of((#[trigger] rows[i]).realm_type) is Some
                &&& valid_name(encode_utf8(rows[i].name))
                &&& valid_address(encode_utf8(rows[i].address))
            } by {
                if i < front.len() {
                    assert(rows[i] == front[i]);
                }
            }
        }
    }
}

/// A load succeeds exactly on rows of which each can be listed by itself and
/// no two share an identifier.
pub proof fn lemma_load_succeeds_iff(rows: Seq<RealmRowView>)
    ensures
        loaded(rows) is Ok <==> listable(rows),
    decreases rows.len(),
{
    lemma_loaded_listing(rows);
    if rows.len() > 0 && listable(rows) {
        let front = rows.drop_last();
        assert(listable(front)) by {
            assert forall|i: int| 0 <= i < front.len() implies {
                &&& realm_type_of((#[trigger] front[i]).realm_type) is Some
                &&& valid_name(encode_utf8(front[i].name))
                &&& valid_address(encode_utf8(front[i].address))
            } by {
                assert(front[i] == rows[i]);
            }
            assert forall|i: int, j: int| 0 <= i < j < front.len() implies (
            #[trigger] front[i]).id != (#[trigger] front[j]).id by {
                assert(rows[i].id != rows[j].id);
            }
        }
        lemma_load_succeeds_iff(front);
        lemma_loaded_listing(front);
        let before = loaded(front).unwrap();
        let row = rows.last();
        assert(rows[rows.len() - 1] == row);
        assert(!has_id(before, row.id)) by {
            if has_id(before, row.id) {
                let k = choose|k: int| 0 <= k < before.len() && (#[trigger] before[k]).id == row.id;
                assert(before[k] == realm_of(front[k]));
                assert(rows[k].id != rows[rows.len() - 1].id);
            }
        }
    }
}

/// One row whose realm type code stands for no kind of realm refuses the
/// whole load, wherever it stands and whatever the other rows hold.
pub proof fn lemma_unknown_type_refuses(rows: Seq<RealmRowView>, at: int)
    requires
        0 <= at < rows.len(),
        realm_type_of(rows[at].realm_type) is None,
    ensures
        loaded(rows) is Err,
{
    lemma_load_succeeds_iff(rows);
}

/// After a load that succeeds, looking up the identifier of any row finds
/// the realm with the stored fields of that row.
pub proof fn lemma_loaded_rows_are_found(rows: Seq<RealmRowView>, at: int)
    requires
        loaded(rows) is Ok,
        0 <= at < rows.len(),
    ensures
        find(loaded(rows).unwrap(), rows[at].id) == Some(realm_of(rows[at])),
{
    lemma_loaded_listing(rows);
    let listed = loaded(rows).unwrap();
    assert(listed[at] == realm_of(rows[at]));
    lemma_find_at(listed, at);
}

/// A refusal names the first row that cannot be listed: the rows before it
/// load, and the reason is what is wrong with that row after them.
pub proof fn lemma_refusal_names_first_fault(rows: Seq<RealmRowView>)
    requires
        rows.len() <= usize::MAX,
    ensures
        loaded(rows) matches Err(refusal) ==> {
            &&& refusal.row < rows.len()
            &&& loaded(rows.take(refusal.row as int)) matches Ok(listed)
            &&& row_fault(listed, rows[refusal.row as int]) == Some(refusal.reason)
        },
    decreases rows.len(),
{
    if rows.len() > 0 {
        let front = rows.drop_last();
        match loaded(front) {
            Err(refusal) => {
                lemma_refusal_names_first_fault(front);
                assert(front.take(refusal.row as int) =~= rows.take(refusal.row as int));
                assert(front[refusal.row as int] == rows[refusal.row as int]);
            },
            Ok(listed) => {
                assert(rows.take(rows.len() - 1) =~= front);
            },
        }
    }
}

} // verus!
