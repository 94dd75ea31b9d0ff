//! The service-level laws, stated over the store semantics that the
//! executable operations are pinned to, and proved once and for all inputs.

use crate::models::{has_row, lemma_find_row_at, lemma_unique_push, DbV, StoreError};
use crate::module_models::{
    find_module, module_create_spec, module_delete_spec, module_key, module_update_spec, ModuleV,
    MutModuleV,
};
use crate::page_controllers::flatten_join_rows;
use crate::page_models::{
    find_page, join_rows, lemma_owned_modules_membership, owned_modules, page_create_spec,
    page_delete_spec, page_key, page_update_spec, MutPageV, PageV,
};
use vstd::prelude::*;

verus! {

/// Round-trip: creating a page from a payload whose forced identity the
/// store does not hold succeeds with one row, and reading that identity back
/// yields a row whose client-settable fields equal the payload's, stamped
/// with the store clock of the moment of creation.
pub proof fn page_create_then_read_one(db: DbV, m: MutPageV, id: int)
    requires
        db.wf(),
        m.page_id == Some(id),
        find_page(db, id) is None,
    ensures
        page_create_spec(db, m).1 == Ok::<usize, StoreError>(1),
        page_create_spec(db, m).0.wf(),
        find_page(page_create_spec(db, m).0, id) == Some(
            PageV { page_id: id, title: m.title, time_created: db.clock },
        ),
{
    let d2 = page_create_spec(db, m).0;
    let row = PageV { page_id: id, title: m.title, time_created: db.clock };
    assert(d2.pages == db.pages.push(row));
    lemma_unique_push(db.pages, page_key(), row);
    assert(d2.pages[d2.pages.len() - 1] == row);
    lemma_find_row_at(d2.pages, page_key(), id, d2.pages.len() - 1);
}

/// Round-trip: creating a module from a payload whose forced identity the
/// store does not hold succeeds with one row, and reading that identity back
/// yields a row whose client-settable fields equal the payload's.
pub proof fn module_create_then_read_one(db: DbV, m: MutModuleV, id: int)
    requires
        db.wf(),
        m.module_id == Some(id),
        find_module(db, id) is None,
    ensures
        module_create_spec(db, m).1 == Ok::<usize, StoreError>(1),
        module_create_spec(db, m).0.wf(),
        find_module(module_create_spec(db, m).0, id) == Some(
            ModuleV {
                module_id: id,
                module_type_id: m.module_type_id,
                page_id: m.page_id,
                content: m.content,
            },
        ),
{
    let d2 = module_create_spec(db, m).0;
    let row = ModuleV {
        module_id: id,
        module_type_id: m.module_type_id,
        page_id: m.page_id,
        content: m.content,
    };
    assert(d2.modules == db.modules.push(row));
    lemma_unique_push(db.modules, module_key(), row);
    assert(d2.modules[d2.modules.len() - 1] == row);
    lemma_find_row_at(d2.modules, module_key(), id, d2.modules.len() - 1);
}

/// Idempotent create: issuing create twice with the same forced identity
/// never errors and never produces two rows — the second call reports zero
/// rows and leaves the store exactly as it was, and afterwards exactly one
/// row carries the identity.
pub proof fn page_create_idempotent(db: DbV, m: MutPageV, id: int)
    requires
        db.wf(),
        m.page_id == Some(id),
    ensures
        page_create_spec(db, m).1 is Ok,
        ({
            let d1 = page_create_spec(db, m).0;
            &&& page_create_spec(d1, m).0 == d1
            &&& page_create_spec(d1, m).1 == Ok::<usize, StoreError>(0)
            &&& has_row(d1.pages, page_key(), id)
            &&& forall|a: int, b: int|
                (0 <= a < d1.pages.len() && 0 <= b < d1.pages.len() && (#[trigger] d1.pages[a]).page_id
                    == id && (#[trigger] d1.pages[b]).page_id == id) ==> a == b
        }),
{
    let key = page_key();
    let d1 = page_create_spec(db, m).0;
    if has_row(db.pages, key, id) {
        assert(d1 == db);
    } else {
        let row = PageV { page_id: id, title: m.title, time_created: db.clock };
        lemma_unique_push(db.pages, key, row);
        assert(d1.pages[d1.pages.len() - 1] == row);
        assert(has_row(d1.pages, key, id)) by {
            assert(key(d1.pages[d1.pages.len() - 1]) == id);
        }
    }
    assert forall|a: int, b: int|
        (0 <= a < d1.pages.len() && 0 <= b < d1.pages.len() && (#[trigger] d1.pages[a]).page_id
            == id && (#[trigger] d1.pages[b]).page_id == id) implies a == b by {
        if a < b {
            assert(key(d1.pages[a]) != key(d1.pages[b]));
        } else if b < a {
            assert(key(d1.pages[b]) != key(d1.pages[a]));
        }
    }
}

/// Idempotent create: issuing create twice with the same forced module
/// identity never errors and never produces two rows — the second call
/// reports zero rows and leaves the store exactly as it was, and afterwards
/// exactly one row carries the identity.
pub proof fn module_create_idempotent(db: DbV, m: MutModuleV, id: int)
    requires
        db.wf(),
        m.module_id == Some(id),
    ensures
        module_create_spec(db, m).1 is Ok,
        ({
            let d1 = module_create_spec(db, m).0;
            &&& module_create_spec(d1, m).0 == d1
            &&& module_create_spec(d1, m).1 == Ok::<usize, StoreError>(0)
            &&& has_row(d1.modules, module_key(), id)
            &&& forall|a: int, b: int|
                (0 <= a < d1.modules.len() && 0 <= b < d1.modules.len() && (
                #[trigger] d1.modules[a]).module_id == id && (#[trigger] d1.modules[b]).module_id
                    == id) ==> a == b
        }),
{
    let key = module_key();
    let d1 = module_create_spec(db, m).0;
    if has_row(db.modules, key, id) {
        assert(d1 == db);
    } else {
        let row = ModuleV {
            module_id: id,
            module_type_id: m.module_type_id,
            page_id: m.page_id,
            content: m.content,
        };
        lemma_unique_push(db.modules, key, row);
        assert(d1.modules[d1.modules.len() - 1] == row);
        assert(has_row(d1.modules, key, id)) by {
            assert(key(d1.modules[d1.modules.len() - 1]) == id);
        }
    }
    assert forall|a: int, b: int|
        (0 <= a < d1.modules.len() && 0 <= b < d1.modules.len() && (
        #[trigger] d1.modules[a]).module_id == id && (#[trigger] d1.modules[b]).module_id == id)
            implies a == b by {
        if a < b {
            assert(key(d1.modules[a]) != key(d1.modules[b]));
        } else if b < a {
            assert(key(d1.modules[b]) != key(d1.modules[a]));
        }
    }
}

/// Update of an absent identity is a zero-row success that leaves the store
/// unchanged, for any payload.
pub proof fn page_update_absent_no_op(db: DbV, m: MutPageV, id: int)
    requires
        db.wf(),
        find_page(db, id) is None,
    ensures
        page_update_spec(db, id, m) == (db, Ok::<usize, StoreError>(0usize)),
{
}

/// Delete of an absent identity is a zero-row success that leaves the store
/// unchanged.
pub proof fn page_delete_absent_no_op(db: DbV, id: int)
    requires
        db.wf(),
        find_page(db, id) is None,
    ensures
        page_delete_spec(db, id) == (db, 0usize),
{
}

/// Update of an absent module identity is a zero-row success that leaves the
/// store unchanged, for any payload.
pub proof fn module_update_absent_no_op(db: DbV, m: MutModuleV, id: int)
    requires
        db.wf(),
        find_module(db, id) is None,
    ensures
        module_update_spec(db, id, m) == (db, Ok::<usize, StoreError>(0usize)),
{
}

/// Delete of an absent module identity is a zero-row success that leaves the
/// store unchanged.
pub proof fn module_delete_absent_no_op(db: DbV, id: int)
    requires
        db.wf(),
        find_module(db, id) is None,
    ensures
        module_delete_spec(db, id) == (db, 0usize),
{
}

/// Join completeness: for a page that exists and owns at least one module,
/// the join read flattens to that page's fields with exactly its owned
/// modules, in store order — and each nested module is precisely what a
/// direct read of its identity returns.
///
/// A page that owns no modules yields zero join rows, which the handler
/// answers with NotFound rather than an empty nesting; such pages are
/// therefore outside this law.
pub proof fn join_read_complete(db: DbV, id: int)
    requires
        db.wf(),
        find_page(db, id) is Some,
        owned_modules(db, id).len() > 0,
    ensures
        join_rows(db, id).len() == owned_modules(db, id).len(),
        ({
            let rel = flatten_join_rows(join_rows(db, id));
            &&& rel.page_id == id
            &&& rel.title == find_page(db, id)->0.title
            &&& rel.time_created == find_page(db, id)->0.time_created
            &&& rel.modules == owned_modules(db, id)
            &&& forall|k: int|
                0 <= k < rel.modules.len() ==> find_module(
                    db,
                    (#[trigger] rel.modules[k]).module_id,
                ) == Some(rel.modules[k])
        }),
{
    let key = page_key();
    let p = find_page(db, id)->0;
    assert(key(p) == id);
    let rows = join_rows(db, id);
    let owned = owned_modules(db, id);
    let rel = flatten_join_rows(rows);
    assert(rel.modules =~= owned);
    lemma_owned_modules_membership(db.modules, id);
    assert forall|k: int|
        0 <= k < rel.modules.len() implies find_module(
        db,
        (#[trigger] rel.modules[k]).module_id,
    ) == Some(rel.modules[k]) by {
        let elem = owned[k];
        assert(db.modules.contains(elem));
        let w = choose|w: int| 0 <= w < db.modules.len() && db.modules[w] == elem;
        lemma_find_row_at(db.modules, module_key(), elem.module_id, w);
    }
}

/// Join absence: a page identity the store does not hold yields zero join
/// rows, the outcome the join read answers with NotFound.
pub proof fn join_read_absent(db: DbV, id: int)
    requires
        db.wf(),
        find_page(db, id) is None,
    ensures
        join_rows(db, id).len() == 0,
{
}

} // verus!
