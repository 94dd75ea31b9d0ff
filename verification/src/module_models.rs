//! The Module entity: a block of content owned by exactly one page.

use crate::models::{
    find_row, fresh_row_id, has_row, lemma_find_row_at, lemma_fresh_row_id_exceeds, lemma_no_row,
    modules_view, row_index, Db, DbV, Model, StoreError,
};
use vstd::prelude::*;

verus! {

/// A persisted module row. `module_id` is store-assigned; `page_id` names the
/// owning page; `module_type_id` references a module-type enumeration kept
/// outside this crate; `content` may be absent.
#[derive(Debug, PartialEq, Eq)]
pub struct Module {
    pub module_id: i32,
    pub module_type_id: i32,
    pub page_id: i32,
    pub content: Option<String>,
}

/// The mathematical value of a [`Module`] row.
#[verifier::ext_equal]
pub ghost struct ModuleV {
    pub module_id: int,
    pub module_type_id: int,
    pub page_id: int,
    pub content: Option<Seq<char>>,
}

impl View for Module {
    type V = ModuleV;

    open spec fn view(&self) -> ModuleV {
        ModuleV {
            module_id: self.module_id as int,
            module_type_id: self.module_type_id as int,
            page_id: self.page_id as int,
            content: match self.content {
                Some(s) => Some(s@),
                None => None,
            },
        }
    }
}

impl Clone for Module {
    /// A clone carries the same row value.
    fn clone(&self) -> (res: Self)
        ensures
            res@ == self@,
    {
        Module {
            module_id: self.module_id,
            module_type_id: self.module_type_id,
            page_id: self.page_id,
            content: match &self.content {
                Some(s) => Some(s.clone()),
                None => None,
            },
        }
    }
}

/// The mutation shape for modules: what a client may send on create or
/// update. A forced `module_id` is honoured, an absent one leaves identity
/// assignment to the store; the other fields overwrite the row's.
#[derive(Debug, PartialEq, Eq)]
pub struct MutModule {
    pub module_id: Option<i32>,
    pub module_type_id: i32,
    pub page_id: i32,
    pub content: Option<String>,
}

/// The mathematical value of a [`MutModule`].
#[verifier::ext_equal]
pub ghost struct MutModuleV {
    pub module_id: Option<int>,
    pub module_type_id: int,
    pub page_id: int,
    pub content: Option<Seq<char>>,
}

impl View for MutModule {
    type V = MutModuleV;

    open spec fn view(&self) -> MutModuleV {
        MutModuleV {
            module_id: match self.module_id {
                Some(i) => Some(i as int),
                None => None,
            },
            module_type_id: self.module_type_id as int,
            page_id: self.page_id as int,
            content: match self.content {
                Some(s) => Some(s@),
                None => None,
            },
        }
    }
}

impl Clone for MutModule {
    /// A clone carries the same mutation value.
    fn clone(&self) -> (res: Self)
        ensures
            res@ == self@,
    {
        MutModule {
            module_id: self.module_id,
            module_type_id: self.module_type_id,
            page_id: self.page_id,
            content: match &self.content {
                Some(s) => Some(s.clone()),
                None => None,
            },
        }
    }
}

/// The key of the module table: its identity column.
pub open spec fn module_key() -> spec_fn(ModuleV) -> int {
    |m: ModuleV| m.module_id
}

/// The module carrying the given identity, if one exists.
pub open spec fn find_module(db: DbV, id: int) -> Option<ModuleV> {
    find_row(db.modules, module_key(), id)
}

/// The store after a module row is inserted with the given identity and the
/// client-settable fields of the mutation.
pub open spec fn insert_module(db: DbV, id: int, m: MutModuleV) -> DbV {
    DbV {
        pages: db.pages,
        modules: db.modules.push(
            ModuleV {
                module_id: id,
                module_type_id: m.module_type_id,
                page_id: m.page_id,
                content: m.content,
            },
        ),
        clock: db.clock,
    }
}

/// What creating a module means: insert-or-ignore on a forced identity,
/// store assignment of a fresh identity otherwise.
pub open spec fn module_create_spec(db: DbV, m: MutModuleV) -> (DbV, Result<usize, StoreError>) {
    match m.module_id {
        Some(id) => if has_row(db.modules, module_key(), id) {
            (db, Ok(0usize))
        } else {
            (insert_module(db, id, m), Ok(1usize))
        },
        None => {
            let id = fresh_row_id(db.modules, module_key());
            if id > i32::MAX as int {
                (db, Err(StoreError::Other))
            } else {
                (insert_module(db, id, m), Ok(1usize))
            }
        },
    }
}

/// What updating a module means: a full-field overwrite of the row matching
/// the identity. No matching row is a zero-row success; forcing the identity
/// onto one another row already carries is a store-level constraint
/// violation.
pub open spec fn module_update_spec(db: DbV, id: int, m: MutModuleV) -> (
    DbV,
    Result<usize, StoreError>,
) {
    if !has_row(db.modules, module_key(), id) {
        (db, Ok(0usize))
    } else {
        let idx = row_index(db.modules, module_key(), id);
        let new_id = match m.module_id {
            Some(j) => j,
            None => id,
        };
        if new_id != id && has_row(db.modules, module_key(), new_id) {
            (db, Err(StoreError::Other))
        } else {
            let row = ModuleV {
                module_id: new_id,
                module_type_id: m.module_type_id,
                page_id: m.page_id,
                content: m.content,
            };
            (DbV { pages: db.pages, modules: db.modules.update(idx, row), clock: db.clock }, Ok(
                1usize,
            ))
        }
    }
}

/// Index of the module row carrying the identity, scanning in store order.
fn module_pos(modules: &Vec<Module>, id: i32) -> (r: Option<usize>)
    ensures
        match r {
            Some(i) => 0 <= i < modules@.len() && modules@[i as int]@.module_id == id as int,
            None => !has_row(modules_view(modules@), module_key(), id as int),
        },
{
    let mut i: usize = 0;
    while i < modules.len()
        invariant
            0 <= i <= modules@.len(),
            forall|j: int| 0 <= j < i ==> modules@[j]@.module_id != id as int,
        decreases modules@.len() - i,
    {
        if modules[i].module_id == id {
            return Some(i);
        }
        i += 1;
    }
    proof {
        let rows = modules_view(modules@);
        let key = module_key();
        assert forall|j: int| 0 <= j < rows.len() implies #[trigger] key(rows[j]) != id as int by {
            assert(rows[j] == modules@[j]@);
        }
        lemma_no_row(rows, key, id as int);
    }
    None
}

/// The identity the store would auto-assign to the next module row.
fn next_module_id(modules: &Vec<Module>) -> (r: i64)
    ensures
        r as int == fresh_row_id(modules_view(modules@), module_key()),
        1 <= r <= 0x8000_0000i64,
{
    let mut acc: i64 = 1;
    let mut i: usize = 0;
    while i < modules.len()
        invariant
            0 <= i <= modules@.len(),
            1 <= acc <= 0x8000_0000i64,
            acc as int == fresh_row_id(modules_view(modules@).take(i as int), module_key()),
        decreases modules@.len() - i,
    {
        let c: i64 = modules[i].module_id as i64 + 1;
        if c > acc {
            acc = c;
        }
        i += 1;
        proof {
            let rows = modules_view(modules@);
            assert(rows.take(i as int).drop_last() =~= rows.take(i as int - 1));
            assert(rows.take(i as int).last() == rows[i as int - 1]);
            assert(rows[i as int - 1] == modules@[i as int - 1]@);
        }
    }
    proof {
        assert(modules_view(modules@).take(modules@.len() as int) =~= modules_view(modules@));
    }
    acc
}

impl Model<MutModule> for Module {
    open spec fn table(db: DbV) -> Seq<ModuleV> {
        db.modules
    }

    open spec fn find_spec(db: DbV, id: int) -> Option<ModuleV> {
        find_module(db, id)
    }

    open spec fn create_spec(db: DbV, m: MutModuleV) -> (DbV, Result<usize, StoreError>) {
        module_create_spec(db, m)
    }

    open spec fn update_spec(db: DbV, id: int, m: MutModuleV) -> (DbV, Result<usize, StoreError>) {
        module_update_spec(db, id, m)
    }

    open spec fn delete_spec(db: DbV, id: int) -> (DbV, usize) {
        module_delete_spec(db, id)
    }

    fn create(db: &mut Db, new: &MutModule) -> (r: Result<usize, StoreError>) {
        let id: i32 = match new.module_id {
            Some(forced) => {
                match module_pos(&db.modules, forced) {
                    Some(i) => {
                        proof {
                            let rows = old(db)@.modules;
                            assert(rows[i as int] == old(db).modules@[i as int]@);
                            lemma_find_row_at(rows, module_key(), forced as int, i as int);
                        }
                        return Ok(0);
                    },
                    None => forced,
                }
            },
            None => {
                let next = next_module_id(&db.modules);
                proof {
                    lemma_fresh_row_id_exceeds(old(db)@.modules, module_key());
                }
                if next > 0x7fff_ffffi64 {
                    return Err(StoreError::Other);
                }
                proof {
                    let rows = old(db)@.modules;
                    let key = module_key();
                    assert forall|k: int| 0 <= k < rows.len() implies #[trigger] key(rows[k])
                        != next as int by {}
                    lemma_no_row(rows, key, next as int);
                }
                next as i32
            },
        };
        let row = Module {
            module_id: id,
            module_type_id: new.module_type_id,
            page_id: new.page_id,
            content: match &new.content {
                Some(s) => Some(s.clone()),
                None => None,
            },
        };
        db.modules.push(row);
        proof {
            let rows = old(db)@.modules;
            let key = module_key();
            let rows2 = db@.modules;
            assert(rows2 =~= rows.push(
                ModuleV {
                    module_id: id as int,
                    module_type_id: new@.module_type_id,
                    page_id: new@.page_id,
                    content: new@.content,
                },
            ));
            assert forall|a: int, b: int| 0 <= a < b < rows2.len() implies key(rows2[a]) != key(
                rows2[b],
            ) by {
                if b < rows2.len() - 1 {
                    assert(key(rows[a]) != key(rows[b]));
                }
            }
            assert(db@ =~~= module_create_spec(old(db)@, new@).0);
        }
        Ok(1)
    }

    fn read_one(db: &Db, id: i32) -> (r: Result<Module, StoreError>) {
        match module_pos(&db.modules, id) {
            Some(i) => {
                proof {
                    assert(db@.modules[i as int] == db.modules@[i as int]@);
                    lemma_find_row_at(db@.modules, module_key(), id as int, i as int);
                }
                Ok(db.modules[i].clone())
            },
            None => Err(StoreError::NotFound),
        }
    }

    fn read_all(db: &Db) -> (r: Result<Vec<Module>, StoreError>) {
        let mut out: Vec<Module> = Vec::new();
        let mut i: usize = 0;
        while i < db.modules.len()
            invariant
                0 <= i <= db.modules@.len(),
                out@.len() == i as int,
                forall|k: int| 0 <= k < i ==> (#[trigger] out@[k])@ == db@.modules[k],
            decreases db.modules@.len() - i,
        {
            out.push(db.modules[i].clone());
            i += 1;
            proof {
                assert(db@.modules[i as int - 1] == db.modules@[i as int - 1]@);
            }
        }
        Ok(out)
    }

    fn update(db: &mut Db, id: i32, new: &MutModule) -> (r: Result<usize, StoreError>) {
        match module_pos(&db.modules, id) {
            None => Ok(0),
            Some(i) => {
                proof {
                    assert(old(db)@.modules[i as int] == old(db).modules@[i as int]@);
                    lemma_find_row_at(old(db)@.modules, module_key(), id as int, i as int);
                }
                let new_id: i32 = match new.module_id {
                    Some(j) => j,
                    None => id,
                };
                if new_id != id {
                    match module_pos(&db.modules, new_id) {
                        Some(w) => {
                            proof {
                                let rows = old(db)@.modules;
                                assert(rows[w as int] == old(db).modules@[w as int]@);
                                lemma_find_row_at(rows, module_key(), new_id as int, w as int);
                            }
                            return Err(StoreError::Other);
                        },
                        None => {},
                    }
                }
                db.modules.remove(i);
                let row = Module {
                    module_id: new_id,
                    module_type_id: new.module_type_id,
                    page_id: new.page_id,
                    content: match &new.content {
                        Some(s) => Some(s.clone()),
                        None => None,
                    },
                };
                db.modules.insert(i, row);
                proof {
                    let rows = old(db)@.modules;
                    let key = module_key();
                    let rows2 = db@.modules;
                    let target = rows.update(
                        i as int,
                        ModuleV {
                            module_id: new_id as int,
                            module_type_id: new@.module_type_id,
                            page_id: new@.page_id,
                            content: new@.content,
                        },
                    );
                    assert(rows2 =~= target);
                    assert forall|a: int, b: int| 0 <= a < b < rows2.len() implies key(rows2[a])
                        != key(rows2[b]) by {
                        if a == i as int {
                            assert(key(rows[i as int]) != key(rows[b]));
                            if new_id != id {
                                assert(key(rows[b]) != new_id as int);
                            }
                        } else if b == i as int {
                            assert(key(rows[a]) != key(rows[i as int]));
                            if new_id != id {
                                assert(key(rows[a]) != new_id as int);
                            }
                        } else {
                            assert(key(rows[a]) != key(rows[b]));
                        }
                    }
                    assert(db@ =~~= module_update_spec(old(db)@, id as int, new@).0);
                }
                Ok(1)
            },
        }
    }

    fn delete(db: &mut Db, id: i32) -> (r: Result<usize, StoreError>) {
        match module_pos(&db.modules, id) {
            None => Ok(0),
            Some(i) => {
                proof {
                    assert(old(db)@.modules[i as int] == old(db).modules@[i as int]@);
                    lemma_find_row_at(old(db)@.modules, module_key(), id as int, i as int);
                }
                db.modules.remove(i);
                proof {
                    let rows = old(db)@.modules;
                    let key = module_key();
                    let rows2 = db@.modules;
                    assert(rows2 =~= rows.remove(i as int));
                    assert forall|a: int, b: int| 0 <= a < b < rows2.len() implies key(rows2[a])
                        != key(rows2[b]) by {
                        let a2 = if a < i as int { a } else { a + 1 };
                        let b2 = if b < i as int { b } else { b + 1 };
                        assert(rows2[a] == rows[a2]);
                        assert(rows2[b] == rows[b2]);
                        assert(key(rows[a2]) != key(rows[b2]));
                    }
                    assert(db@ =~~= module_delete_spec(old(db)@, id as int).0);
                }
                Ok(1)
            },
        }
    }
}

/// What deleting a module means: the row matching the identity is removed
/// and counted; no matching row is a zero-row success.
pub open spec fn module_delete_spec(db: DbV, id: int) -> (DbV, usize) {
    if has_row(db.modules, module_key(), id) {
        (
            DbV {
                pages: db.pages,
                modules: db.modules.remove(row_index(db.modules, module_key(), id)),
                clock: db.clock,
            },
            1usize,
        )
    } else {
        (db, 0usize)
    }
}

} // verus!
