//! The Page entity: its row shape, its mutation shape, the nested
//! page-with-modules projection, and the meaning of its store operations.

use crate::models::{
    find_row, fresh_row_id, has_row, lemma_find_row_at, lemma_fresh_row_id_exceeds, lemma_no_row,
    pages_view, row_index, tick, Db, DbV, Model, StoreError,
};
use crate::module_models::{Module, ModuleV};
use vstd::prelude::*;

verus! {

/// A persisted page row. `page_id` and `time_created` are store-assigned;
/// clients never supply them directly.
#[derive(Debug, PartialEq, Eq)]
pub struct Page {
    pub page_id: i32,
    pub title: String,
    pub time_created: i64,
}

/// The mathematical value of a [`Page`] row.
#[verifier::ext_equal]
pub ghost struct PageV {
    pub page_id: int,
    pub title: Seq<char>,
    pub time_created: int,
}

impl View for Page {
    type V = PageV;

    open spec fn view(&self) -> PageV {
        PageV {
            page_id: self.page_id as int,
            title: self.title@,
            time_created: self.time_created as int,
        }
    }
}

impl Clone for Page {
    /// A clone carries the same row value.
    fn clone(&self) -> (res: Self)
        ensures
            res@ == self@,
    {
        Page { page_id: self.page_id, title: self.title.clone(), time_created: self.time_created }
    }
}

/// The mutation shape for pages: what a client may send on create or update.
/// It doubles as both the insertable and the update object, since `title` is
/// the only column that is not store-filled; a forced `page_id` is honoured,
/// an absent one leaves identity assignment to the store.
#[derive(Debug, PartialEq, Eq)]
pub struct MutPage {
    pub page_id: Option<i32>,
    pub title: String,
}

/// The mathematical value of a [`MutPage`].
#[verifier::ext_equal]
pub ghost struct MutPageV {
    pub page_id: Option<int>,
    pub title: Seq<char>,
}

impl View for MutPage {
    type V = MutPageV;

    open spec fn view(&self) -> MutPageV {
        MutPageV {
            page_id: match self.page_id {
                Some(i) => Some(i as int),
                None => None,
            },
            title: self.title@,
        }
    }
}

impl Clone for MutPage {
    /// A clone carries the same mutation value.
    fn clone(&self) -> (res: Self)
        ensures
            res@ == self@,
    {
        MutPage { page_id: self.page_id, title: self.title.clone() }
    }
}

/// A page together with the ordered list of modules it owns: the nested
/// projection a join read responds with. Never persisted as such.
#[derive(Debug, PartialEq, Eq)]
pub struct PageModuleRelation {
    pub page_id: i32,
    pub title: String,
    pub time_created: i64,
    pub modules: Vec<Module>,
}

/// The mathematical value of a [`PageModuleRelation`].
#[verifier::ext_equal]
pub ghost struct PageModuleRelationV {
    pub page_id: int,
    pub title: Seq<char>,
    pub time_created: int,
    pub modules: Seq<ModuleV>,
}

impl View for PageModuleRelation {
    type V = PageModuleRelationV;

    open spec fn view(&self) -> PageModuleRelationV {
        PageModuleRelationV {
            page_id: self.page_id as int,
            title: self.title@,
            time_created: self.time_created as int,
            modules: self.modules@.map_values(|m: Module| m@),
        }
    }
}

/// The key of the page table: its identity column.
pub open spec fn page_key() -> spec_fn(PageV) -> int {
    |p: PageV| p.page_id
}

/// The page carrying the given identity, if one exists.
pub open spec fn find_page(db: DbV, id: int) -> Option<PageV> {
    find_row(db.pages, page_key(), id)
}

/// The store after a page row with the given identity and title is inserted:
/// the row is stamped with the clock and appended in store order.
pub open spec fn insert_page(db: DbV, id: int, title: Seq<char>) -> DbV {
    DbV {
        pages: db.pages.push(PageV { page_id: id, title: title, time_created: db.clock }),
        modules: db.modules,
        clock: tick(db.clock),
    }
}

/// What creating a page means: insert-or-ignore on a forced identity, store
/// assignment of a fresh identity otherwise. Identity assignment fails with a
/// generic store error only when the identity column is exhausted.
pub open spec fn page_create_spec(db: DbV, m: MutPageV) -> (DbV, Result<usize, StoreError>) {
    match m.page_id {
        Some(id) => if has_row(db.pages, page_key(), id) {
            (db, Ok(0usize))
        } else {
            (insert_page(db, id, m.title), Ok(1usize))
        },
        None => {
            let id = fresh_row_id(db.pages, page_key());
            if id > i32::MAX as int {
                (db, Err(StoreError::Other))
            } else {
                (insert_page(db, id, m.title), Ok(1usize))
            }
        },
    }
}

/// What updating a page means: a full-field overwrite of the row matching the
/// identity, keeping the store-assigned creation time. No matching row is a
/// zero-row success; forcing the identity onto one another row already
/// carries is a store-level constraint violation.
pub open spec fn page_update_spec(db: DbV, id: int, m: MutPageV) -> (
    DbV,
    Result<usize, StoreError>,
) {
    if !has_row(db.pages, page_key(), id) {
        (db, Ok(0usize))
    } else {
        let idx = row_index(db.pages, page_key(), id);
        let new_id = match m.page_id {
            Some(j) => j,
            None => id,
        };
        if new_id != id && has_row(db.pages, page_key(), new_id) {
            (db, Err(StoreError::Other))
        } else {
            let row = PageV {
                page_id: new_id,
                title: m.title,
                time_created: db.pages[idx].time_created,
            };
            (DbV { pages: db.pages.update(idx, row), modules: db.modules, clock: db.clock }, Ok(
                1usize,
            ))
        }
    }
}

/// The modules of a table owned by the page with the given identity, in
/// store order.
pub open spec fn modules_owned_by(modules: Seq<ModuleV>, id: int) -> Seq<ModuleV> {
    modules.filter(|m: ModuleV| m.page_id == id)
}

/// The modules the store holds for the page with the given identity.
pub open spec fn owned_modules(db: DbV, id: int) -> Seq<ModuleV> {
    modules_owned_by(db.modules, id)
}

/// Every module the filter keeps carries the owning identity it was filtered
/// by, and is a row of the table it was filtered from.
pub proof fn lemma_owned_modules_membership(modules: Seq<ModuleV>, id: int)
    ensures
        forall|k: int|
            0 <= k < modules_owned_by(modules, id).len() ==> (#[trigger] modules_owned_by(
                modules,
                id,
            )[k]).page_id == id && modules.contains(modules_owned_by(modules, id)[k]),
    decreases modules.len(),
{
    reveal(Seq::filter);
    if modules.len() > 0 {
        let prefix = modules.drop_last();
        lemma_owned_modules_membership(prefix, id);
        let owned = modules_owned_by(modules, id);
        let owned_prefix = modules_owned_by(prefix, id);
        assert forall|k: int| 0 <= k < owned.len() implies (#[trigger] owned[k]).page_id == id
            && modules.contains(owned[k]) by {
            if k < owned_prefix.len() {
                assert(owned[k] == owned_prefix[k]);
                let w = choose|w: int| 0 <= w < prefix.len() && prefix[w] == owned_prefix[k];
                assert(modules[w] == owned[k]);
            } else {
                assert(owned[k] == modules.last());
                assert(modules[modules.len() - 1] == owned[k]);
            }
        }
    }
}

/// The rows of the inner join between the page table and the module table on
/// the owning-page column, filtered to the given page identity: one
/// (page, module) pair per owned module, in module store order. Empty both
/// when the page does not exist and when it owns no modules.
pub open spec fn join_rows(db: DbV, id: int) -> Seq<(PageV, ModuleV)> {
    match find_page(db, id) {
        Some(p) => modules_owned_by(db.modules, id).map_values(|m: ModuleV| (p, m)),
        None => Seq::empty(),
    }
}

impl Page {
    /// The equality-filtered inner join: every pair of the page carrying the
    /// identity with one of its modules, in store order. An absent page and a
    /// page without modules both yield zero rows, not an error.
    pub fn read_one_join_on(db: &Db, id: i32) -> (r: Result<Vec<(Page, Module)>, StoreError>)
        requires
            db@.wf(),
        ensures
            r is Ok,
            r->Ok_0@.len() == join_rows(db@, id as int).len(),
            forall|k: int|
                0 <= k < r->Ok_0@.len() ==> ((#[trigger] r->Ok_0@[k]).0@, r->Ok_0@[k].1@)
                    == join_rows(db@, id as int)[k],
    {
        match page_pos(&db.pages, id) {
            None => {
                proof {
                    assert(join_rows(db@, id as int) =~= Seq::<(PageV, ModuleV)>::empty());
                }
                Ok(Vec::new())
            },
            Some(i) => {
                proof {
                    assert(db@.pages[i as int] == db.pages@[i as int]@);
                    lemma_find_row_at(db@.pages, page_key(), id as int, i as int);
                }
                let mut out: Vec<(Page, Module)> = Vec::new();
                let mut j: usize = 0;
                while j < db.modules.len()
                    invariant
                        db@.wf(),
                        0 <= i < db.pages@.len(),
                        db@.pages[i as int].page_id == id as int,
                        find_page(db@, id as int) == Some(db@.pages[i as int]),
                        0 <= j <= db.modules@.len(),
                        out@.len() == modules_owned_by(db@.modules.take(j as int), id as int).len(),
                        forall|k: int|
                            0 <= k < out@.len() ==> ((#[trigger] out@[k]).0@, out@[k].1@) == (
                                db@.pages[i as int],
                                modules_owned_by(db@.modules.take(j as int), id as int)[k],
                            ),
                    decreases db.modules@.len() - j,
                {
                    proof {
                        reveal(Seq::filter);
                        let pre = db@.modules.take(j as int);
                        let post = db@.modules.take(j as int + 1);
                        assert(post.drop_last() =~= pre);
                        assert(post.last() == db@.modules[j as int]);
                        assert(db@.modules[j as int] == db.modules@[j as int]@);
                        assert(modules_owned_by(post, id as int) == (
                        if db@.modules[j as int].page_id == id as int {
                            modules_owned_by(pre, id as int).push(db@.modules[j as int])
                        } else {
                            modules_owned_by(pre, id as int)
                        }));
                    }
                    if db.modules[j].page_id == id {
                        out.push((db.pages[i].clone(), db.modules[j].clone()));
                    }
                    j += 1;
                }
                proof {
                    assert(db@.modules.take(db.modules@.len() as int) =~= db@.modules);
                }
                Ok(out)
            },
        }
    }
}

/// Index of the page row carrying the identity, scanning in store order.
fn page_pos(pages: &Vec<Page>, id: i32) -> (r: Option<usize>)
    ensures
        match r {
            Some(i) => 0 <= i < pages@.len() && pages@[i as int]@.page_id == id as int,
            None => !has_row(pages_view(pages@), page_key(), id as int),
        },
{
    let mut i: usize = 0;
    while i < pages.len()
        invariant
            0 <= i <= pages@.len(),
            forall|j: int| 0 <= j < i ==> pages@[j]@.page_id != id as int,
        decreases pages@.len() - i,
    {
        if pages[i].page_id == id {
            return Some(i);
        }
        i += 1;
    }
    proof {
        let rows = pages_view(pages@);
        let key = page_key();
        assert forall|j: int| 0 <= j < rows.len() implies #[trigger] key(rows[j]) != id as int by {
            assert(rows[j] == pages@[j]@);
        }
        lemma_no_row(rows, key, id as int);
    }
    None
}

/// The identity the store would auto-assign to the next page row.
fn next_page_id(pages: &Vec<Page>) -> (r: i64)
    ensures
        r as int == fresh_row_id(pages_view(pages@), page_key()),
        1 <= r <= 0x8000_0000i64,
{
    let mut acc: i64 = 1;
    let mut i: usize = 0;
    while i < pages.len()
        invariant
            0 <= i <= pages@.len(),
            1 <= acc <= 0x8000_0000i64,
            acc as int == fresh_row_id(pages_view(pages@).take(i as int), page_key()),
        decreases pages@.len() - i,
    {
        let c: i64 = pages[i].page_id as i64 + 1;
        if c > acc {
            acc = c;
        }
        i += 1;
        proof {
            let rows = pages_view(pages@);
            assert(rows.take(i as int).drop_last() =~= rows.take(i as int - 1));
            assert(rows.take(i as int).last() == rows[i as int - 1]);
            assert(rows[i as int - 1] == pages@[i as int - 1]@);
        }
    }
    proof {
        assert(pages_view(pages@).take(pages@.len() as int) =~= pages_view(pages@));
    }
    acc
}

impl Model<MutPage> for Page {
    open spec fn table(db: DbV) -> Seq<PageV> {
        db.pages
    }

    open spec fn find_spec(db: DbV, id: int) -> Option<PageV> {
        find_page(db, id)
    }

    open spec fn create_spec(db: DbV, m: MutPageV) -> (DbV, Result<usize, StoreError>) {
        page_create_spec(db, m)
    }

    open spec fn update_spec(db: DbV, id: int, m: MutPageV) -> (DbV, Result<usize, StoreError>) {
        page_update_spec(db, id, m)
    }

    open spec fn delete_spec(db: DbV, id: int) -> (DbV, usize) {
        page_delete_spec(db, id)
    }

    fn create(db: &mut Db, new: &MutPage) -> (r: Result<usize, StoreError>) {
        let id: i32 = match new.page_id {
            Some(forced) => {
                match page_pos(&db.pages, forced) {
                    Some(i) => {
                        proof {
                            let rows = old(db)@.pages;
                            assert(rows[i as int] == old(db).pages@[i as int]@);
                            lemma_find_row_at(rows, page_key(), forced as int, i as int);
                        }
                        return Ok(0);
                    },
                    None => forced,
                }
            },
            None => {
                let next = next_page_id(&db.pages);
                proof {
                    lemma_fresh_row_id_exceeds(old(db)@.pages, page_key());
                }
                if next > 0x7fff_ffffi64 {
                    return Err(StoreError::Other);
                }
                proof {
                    let rows = old(db)@.pages;
                    let key = page_key();
                    assert forall|k: int| 0 <= k < rows.len() implies #[trigger] key(rows[k])
                        != next as int by {}
                    lemma_no_row(rows, key, next as int);
                }
                next as i32
            },
        };
        let row = Page { page_id: id, title: new.title.clone(), time_created: db.clock };
        db.pages.push(row);
        if db.clock < i64::MAX {
            db.clock = db.clock + 1;
        }
        proof {
            let rows = old(db)@.pages;
            let key = page_key();
            let rows2 = db@.pages;
            assert(rows2 =~= rows.push(
                PageV {
                    page_id: id as int,
                    title: new@.title,
                    time_created: old(db)@.clock,
                },
            ));
            assert forall|a: int, b: int| 0 <= a < b < rows2.len() implies key(rows2[a]) != key(
                rows2[b],
            ) by {
                if b < rows2.len() - 1 {
                    assert(key(rows[a]) != key(rows[b]));
                }
            }
            assert(db@ =~~= page_create_spec(old(db)@, new@).0);
        }
        Ok(1)
    }

    fn read_one(db: &Db, id: i32) -> (r: Result<Page, StoreError>) {
        match page_pos(&db.pages, id) {
            Some(i) => {
                proof {
                    assert(db@.pages[i as int] == db.pages@[i as int]@);
                    lemma_find_row_at(db@.pages, page_key(), id as int, i as int);
                }
                Ok(db.pages[i].clone())
            },
            None => Err(StoreError::NotFound),
        }
    }

    fn read_all(db: &Db) -> (r: Result<Vec<Page>, StoreError>) {
        let mut out: Vec<Page> = Vec::new();
        let mut i: usize = 0;
        while i < db.pages.len()
            invariant
                0 <= i <= db.pages@.len(),
                out@.len() == i as int,
                forall|k: int| 0 <= k < i ==> (#[trigger] out@[k])@ == db@.pages[k],
            decreases db.pages@.len() - i,
        {
            out.push(db.pages[i].clone());
            i += 1;
            proof {
                assert(db@.pages[i as int - 1] == db.pages@[i as int - 1]@);
            }
        }
        Ok(out)
    }

    fn update(db: &mut Db, id: i32, new: &MutPage) -> (r: Result<usize, StoreError>) {
        match page_pos(&db.pages, id) {
            None => Ok(0),
            Some(i) => {
                proof {
                    assert(old(db)@.pages[i as int] == old(db).pages@[i as int]@);
                    lemma_find_row_at(old(db)@.pages, page_key(), id as int, i as int);
                }
                let new_id: i32 = match new.page_id {
                    Some(j) => j,
                    None => id,
                };
                if new_id != id {
                    match page_pos(&db.pages, new_id) {
                        Some(w) => {
                            proof {
                                let rows = old(db)@.pages;
                                assert(rows[w as int] == old(db).pages@[w as int]@);
                                lemma_find_row_at(rows, page_key(), new_id as int, w as int);
                            }
                            return Err(StoreError::Other);
                        },
                        None => {},
                    }
                }
                let old_row = db.pages.remove(i);
                let row = Page {
                    page_id: new_id,
                    title: new.title.clone(),
                    time_created: old_row.time_created,
                };
                db.pages.insert(i, row);
                proof {
                    let rows = old(db)@.pages;
                    let key = page_key();
                    let rows2 = db@.pages;
                    let target = rows.update(
                        i as int,
                        PageV {
                            page_id: new_id as int,
                            title: new@.title,
                            time_created: rows[i as int].time_created,
                        },
                    );
                    assert(rows2 =~= target);
                    assert forall|a: int, b: int| 0 <= a < b < rows2.len() implies key(rows2[a])
                        != key(rows2[b]) by {
                        if a == i as int {
                            assert(key(rows[i as int]) != key(rows[b]));
                            if new_id != id {
                                assert(key(rows[b]) != new_id as int);
                            }
                        } else if b == i as int {
                            assert(key(rows[a]) != key(rows[i as int]));
                            if new_id != id {
                                assert(key(rows[a]) != new_id as int);
                            }
                        } else {
                            assert(key(rows[a]) != key(rows[b]));
                        }
                    }
                    assert(db@ =~~= page_update_spec(old(db)@, id as int, new@).0);
                }
                Ok(1)
            },
        }
    }

    fn delete(db: &mut Db, id: i32) -> (r: Result<usize, StoreError>) {
        match page_pos(&db.pages, id) {
            None => Ok(0),
            Some(i) => {
                proof {
                    assert(old(db)@.pages[i as int] == old(db).pages@[i as int]@);
                    lemma_find_row_at(old(db)@.pages, page_key(), id as int, i as int);
                }
                db.pages.remove(i);
                proof {
                    let rows = old(db)@.pages;
                    let key = page_key();
                    let rows2 = db@.pages;
                    assert(rows2 =~= rows.remove(i as int));
                    assert forall|a: int, b: int| 0 <= a < b < rows2.len() implies key(rows2[a])
                        != key(rows2[b]) by {
                        let a2 = if a < i as int { a } else { a + 1 };
                        let b2 = if b < i as int { b } else { b + 1 };
                        assert(rows2[a] == rows[a2]);
                        assert(rows2[b] == rows[b2]);
                        assert(key(rows[a2]) != key(rows[b2]));
                    }
                    assert(db@ =~~= page_delete_spec(old(db)@, id as int).0);
                }
                Ok(1)
            },
        }
    }
}

/// What deleting a page means: the row matching the identity is removed and
/// counted; no matching row is a zero-row success.
pub open spec fn page_delete_spec(db: DbV, id: int) -> (DbV, usize) {
    if has_row(db.pages, page_key(), id) {
        (
            DbV {
                pages: db.pages.remove(row_index(db.pages, page_key(), id)),
                modules: db.modules,
                clock: db.clock,
            },
            1usize,
        )
    } else {
        (db, 0usize)
    }
}

} // verus!
