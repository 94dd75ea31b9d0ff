//! The page half of the handler layer: the generic controller instantiated
//! for pages, plus the join read that answers with a page and its modules as
//! one nested object.

use crate::controllers::{
    int_literal_val, map_sql_error, parse_i32, Controller, CustomHttpError, HttpResponse,
};
use crate::models::Db;
use crate::module_models::ModuleV;
use crate::page_models::{
    join_rows, MutPage, Page, PageModuleRelation, PageModuleRelationV, PageV,
};
use vstd::prelude::*;

verus! {

/// Serves pages through the generic [`Controller`] handlers.
pub struct PageController;

impl Controller<Page, MutPage> for PageController {

}

/// The nested object a non-empty run of join rows flattens into: the shared
/// parent's fields, and every row's module in row order.
pub open spec fn flatten_join_rows(rows: Seq<(PageV, ModuleV)>) -> PageModuleRelationV
    recommends
        rows.len() > 0,
{
    PageModuleRelationV {
        page_id: rows[0].0.page_id,
        title: rows[0].0.title,
        time_created: rows[0].0.time_created,
        modules: rows.map_values(|t: (PageV, ModuleV)| t.1),
    }
}

/// The join read: parses the path identity, joins the page with its modules,
/// and flattens the (page, module) pair rows into one page owning the
/// ordered list of its modules. A missing or non-numeric path identity is a
/// `BadRequest`; zero joined rows — a page that does not exist, or one that
/// owns no modules — is a `NotFound`.
pub fn get_page_join_modules(db: &Db, raw_id: Option<&str>) -> (r: Result<
    HttpResponse<PageModuleRelation>,
    CustomHttpError,
>)
    requires
        db@.wf(),
    ensures
        match raw_id {
            None => r is Err && r->Err_0 == CustomHttpError::BadRequest,
            Some(s) => ({
                let v = int_literal_val(s@);
                if v is Some && i32::MIN <= v->0 <= i32::MAX {
                    let rows = join_rows(db@, v->0);
                    if rows.len() == 0 {
                        r is Err && r->Err_0 == CustomHttpError::NotFound
                    } else {
                        r is Ok && r->Ok_0.status == 200 && r->Ok_0.body@ == flatten_join_rows(
                            rows,
                        )
                    }
                } else {
                    r is Err && r->Err_0 == CustomHttpError::BadRequest
                }
            }),
        },
{
    let s = match raw_id {
        Some(s) => s,
        None => {
            return Err(CustomHttpError::BadRequest);
        },
    };
    let id = match parse_i32(s) {
        Some(id) => id,
        None => {
            return Err(CustomHttpError::BadRequest);
        },
    };
    let rows = match Page::read_one_join_on(db, id) {
        Ok(rows) => rows,
        Err(e) => {
            return Err(map_sql_error(e));
        },
    };
    if rows.len() == 0 {
        return Err(CustomHttpError::NotFound);
    }
    let mut res = PageModuleRelation {
        page_id: rows[0].0.page_id,
        title: rows[0].0.title.clone(),
        time_created: rows[0].0.time_created,
        modules: Vec::new(),
    };
    let ghost target = join_rows(db@, id as int);
    let mut k: usize = 0;
    while k < rows.len()
        invariant
            rows@.len() == target.len(),
            forall|j: int|
                0 <= j < rows@.len() ==> ((#[trigger] rows@[j]).0@, rows@[j].1@) == target[j],
            0 <= k <= rows@.len(),
            rows@.len() > 0,
            res.page_id == rows@[0].0.page_id,
            res.title@ == rows@[0].0.title@,
            res.time_created == rows@[0].0.time_created,
            res.modules@.len() == k,
            forall|j: int| 0 <= j < k ==> (#[trigger] res.modules@[j])@ == target[j].1,
        decreases rows@.len() - k,
    {
        res.modules.push(rows[k].1.clone());
        k = k + 1;
    }
    proof {
        assert(res@ =~~= flatten_join_rows(target));
    }
    Ok(HttpResponse { status: 200, body: res })
}

} // verus!
