//! The store model and the capability contract every persistable entity
//! satisfies.
//!
//! [`Db`] is the relational store reduced to what the service observes of it:
//! one table of pages, one table of modules, and the monotone clock the store
//! stamps onto freshly created pages. Each entity implements [`Model`], the
//! create / read-one / read-all / update / delete contract that the generic
//! handler layer is written against.

use crate::module_models::{Module, ModuleV};
use crate::page_models::{Page, PageV};
use vstd::prelude::*;

verus! {

/// A store-level failure, as the persistence layer reports it.
///
/// `NotFound` is the zero-rows outcome of an exact-match read; every other
/// store failure (constraint violation, connectivity loss, malformed query)
/// is collapsed into `Other`, which the handler layer maps to a generic
/// server-side error.
#[derive(Clone, Copy, Debug, PartialEq, Eq, Structural)]
pub enum StoreError {
    NotFound,
    Other,
}

/// The relational store: both tables, and the clock that stamps new pages.
///
/// Rows keep their insertion order; reads return them in that (store-native)
/// order. The invariant [`DbV::wf`] — identities unique within each table —
/// is what the real store's primary keys enforce.
pub struct Db {
    pub pages: Vec<Page>,
    pub modules: Vec<Module>,
    pub clock: i64,
}

/// The mathematical value of a [`Db`]: both tables as sequences of row
/// values, and the clock as an integer.
#[verifier::ext_equal]
pub ghost struct DbV {
    pub pages: Seq<PageV>,
    pub modules: Seq<ModuleV>,
    pub clock: int,
}

/// The sequence of row values of a page table.
pub open spec fn pages_view(pages: Seq<Page>) -> Seq<PageV> {
    pages.map_values(|p: Page| p@)
}

/// The sequence of row values of a module table.
pub open spec fn modules_view(modules: Seq<Module>) -> Seq<ModuleV> {
    modules.map_values(|m: Module| m@)
}

impl View for Db {
    type V = DbV;

    open spec fn view(&self) -> DbV {
        DbV {
            pages: pages_view(self.pages@),
            modules: modules_view(self.modules@),
            clock: self.clock as int,
        }
    }
}

impl DbV {
    /// Well-formedness: each table keys its rows by a unique identity, as the
    /// store's primary keys guarantee.
    pub open spec fn wf(self) -> bool {
        &&& unique_ids(self.pages, crate::page_models::page_key())
        &&& unique_ids(self.modules, crate::module_models::module_key())
    }
}

/// No two rows of the table carry the same identity under the table's key.
pub open spec fn unique_ids<T>(rows: Seq<T>, key: spec_fn(T) -> int) -> bool {
    forall|i: int, j: int| 0 <= i < j < rows.len() ==> key(rows[i]) != key(rows[j])
}

/// Some row of the table carries the given identity.
pub open spec fn has_row<T>(rows: Seq<T>, key: spec_fn(T) -> int, id: int) -> bool {
    exists|i: int| 0 <= i < rows.len() && key(rows[i]) == id
}

/// The index of a row carrying the given identity; meaningful only when
/// [`has_row`] holds, and unambiguous under [`unique_ids`].
pub open spec fn row_index<T>(rows: Seq<T>, key: spec_fn(T) -> int, id: int) -> int {
    choose|i: int| 0 <= i < rows.len() && key(rows[i]) == id
}

/// The row carrying the given identity, if one exists.
pub open spec fn find_row<T>(rows: Seq<T>, key: spec_fn(T) -> int, id: int) -> Option<T> {
    if has_row(rows, key, id) {
        Some(rows[row_index(rows, key, id)])
    } else {
        None
    }
}

/// The identity the store assigns to a row created without a forced one: one
/// past the largest identity in the table, and at least 1 on an empty table,
/// as an auto-increment column behaves.
pub open spec fn fresh_row_id<T>(rows: Seq<T>, key: spec_fn(T) -> int) -> int
    decreases rows.len(),
{
    if rows.len() == 0 {
        1
    } else {
        let rest = fresh_row_id(rows.drop_last(), key);
        let candidate = key(rows.last()) + 1;
        if candidate > rest {
            candidate
        } else {
            rest
        }
    }
}

/// The assigned identity is strictly larger than every identity in the table,
/// so a row created with it cannot collide.
pub proof fn lemma_fresh_row_id_exceeds<T>(rows: Seq<T>, key: spec_fn(T) -> int)
    ensures
        forall|i: int| 0 <= i < rows.len() ==> key(rows[i]) < fresh_row_id(rows, key),
        fresh_row_id(rows, key) >= 1,
    decreases rows.len(),
{
    if rows.len() > 0 {
        lemma_fresh_row_id_exceeds(rows.drop_last(), key);
        assert forall|i: int| 0 <= i < rows.len() implies key(rows[i]) < fresh_row_id(
            rows,
            key,
        ) by {
            if i < rows.len() - 1 {
                assert(rows.drop_last()[i] == rows[i]);
            } else {
                assert(rows.last() == rows[i]);
            }
        }
    }
}

/// A table none of whose rows carries the identity has no row for it.
pub proof fn lemma_no_row<T>(rows: Seq<T>, key: spec_fn(T) -> int, id: int)
    requires
        forall|i: int| 0 <= i < rows.len() ==> #[trigger] key(rows[i]) != id,
    ensures
        !has_row(rows, key, id),
{
    if has_row(rows, key, id) {
        let w = row_index(rows, key, id);
        assert(0 <= w < rows.len() && key(rows[w]) == id);
    }
}

/// Appending a row whose identity the table does not hold keeps identities
/// unique.
pub proof fn lemma_unique_push<T>(rows: Seq<T>, key: spec_fn(T) -> int, x: T)
    requires
        unique_ids(rows, key),
        !has_row(rows, key, key(x)),
    ensures
        unique_ids(rows.push(x), key),
{
    let rows2 = rows.push(x);
    assert forall|a: int, b: int| 0 <= a < b < rows2.len() implies key(rows2[a]) != key(
        rows2[b],
    ) by {
        if b < rows2.len() - 1 {
            assert(key(rows[a]) != key(rows[b]));
        } else {
            assert(rows2[a] == rows[a]);
            assert(rows2[b] == x);
            assert(key(rows[a]) != key(x));
        }
    }
}

/// A row with a known index and identity is exactly what [`find_row`] returns
/// for that identity, provided identities are unique.
pub proof fn lemma_find_row_at<T>(rows: Seq<T>, key: spec_fn(T) -> int, id: int, i: int)
    requires
        unique_ids(rows, key),
        0 <= i < rows.len(),
        key(rows[i]) == id,
    ensures
        has_row(rows, key, id),
        row_index(rows, key, id) == i,
        find_row(rows, key, id) == Some(rows[i]),
{
    assert(has_row(rows, key, id)) by {
        assert(0 <= i < rows.len() && key(rows[i]) == id);
    }
    let k = row_index(rows, key, id);
    assert(0 <= k < rows.len() && key(rows[k]) == id);
    if k < i {
        assert(key(rows[k]) != key(rows[i]));
    } else if i < k {
        assert(key(rows[i]) != key(rows[k]));
    }
}

/// An empty store whose clock starts at zero.
pub fn empty_db() -> (db: Db)
    ensures
        db@.wf(),
        db@.pages.len() == 0,
        db@.modules.len() == 0,
        db@.clock == 0,
{
    Db { pages: Vec::new(), modules: Vec::new(), clock: 0 }
}

/// The store's clock after it stamped one more page; it sticks at its
/// maximum rather than wrapping.
pub open spec fn tick(clock: int) -> int {
    if clock < i64::MAX {
        clock + 1
    } else {
        clock
    }
}

/// The capability contract: the five operations an entity must support to be
/// served by the generic handler layer. `Self` is the row type, `M` the
/// mutation shape a client may send for it.
///
/// Each implementation fixes the meaning of its operations once, as the four
/// spec functions; the executable methods are then pinned to those meanings,
/// and the handler layer is verified against them alone.
pub trait Model<M: View>: View + Sized {
    /// The entity's table within the store.
    spec fn table(db: DbV) -> Seq<Self::V>;

    /// The row carrying the given identity, if one exists.
    spec fn find_spec(db: DbV, id: int) -> Option<Self::V>;

    /// The store after inserting the mutation, and the reported row count.
    /// Insert-or-ignore: an identity conflict leaves the store unchanged and
    /// reports zero rows rather than erroring.
    spec fn create_spec(db: DbV, m: M::V) -> (DbV, Result<usize, StoreError>);

    /// The store after overwriting the row with the given identity, and the
    /// reported row count; zero rows (and no change) when no row matches.
    spec fn update_spec(db: DbV, id: int, m: M::V) -> (DbV, Result<usize, StoreError>);

    /// The store after removing the row with the given identity, and the
    /// number of rows removed; zero when no row matches.
    spec fn delete_spec(db: DbV, id: int) -> (DbV, usize);

    /// Inserts a new row from the mutation shape, ignoring an identity
    /// conflict.
    fn create(db: &mut Db, new: &M) -> (r: Result<usize, StoreError>)
        requires
            old(db)@.wf(),
        ensures
            final(db)@.wf(),
            final(db)@ == Self::create_spec(old(db)@, new@).0,
            r == Self::create_spec(old(db)@, new@).1,
    ;

    /// Exact-match lookup by identity; `NotFound` when zero rows match.
    fn read_one(db: &Db, id: i32) -> (r: Result<Self, StoreError>)
        requires
            db@.wf(),
        ensures
            match Self::find_spec(db@, id as int) {
                Some(v) => r is Ok && r->Ok_0@ == v,
                None => r is Err && r->Err_0 == StoreError::NotFound,
            },
    ;

    /// Unfiltered scan of the entity's table, in store order.
    fn read_all(db: &Db) -> (r: Result<Vec<Self>, StoreError>)
        requires
            db@.wf(),
        ensures
            r is Ok,
            r->Ok_0@.len() == Self::table(db@).len(),
            forall|k: int|
                0 <= k < Self::table(db@).len() ==> (#[trigger] r->Ok_0@[k])@ == Self::table(
                    db@,
                )[k],
    ;

    /// Full-field overwrite of the row matching the identity; zero affected
    /// rows, not an error, when no row matches.
    fn update(db: &mut Db, id: i32, new: &M) -> (r: Result<usize, StoreError>)
        requires
            old(db)@.wf(),
        ensures
            final(db)@.wf(),
            final(db)@ == Self::update_spec(old(db)@, id as int, new@).0,
            r == Self::update_spec(old(db)@, id as int, new@).1,
    ;

    /// Removes the row matching the identity; zero-match is not an error.
    fn delete(db: &mut Db, id: i32) -> (r: Result<usize, StoreError>)
        requires
            old(db)@.wf(),
        ensures
            final(db)@.wf(),
            final(db)@ == Self::delete_spec(old(db)@, id as int).0,
            r is Ok && r->Ok_0 == Self::delete_spec(old(db)@, id as int).1,
    ;
}

} // verus!
