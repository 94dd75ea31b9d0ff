//! The module half of the handler layer: the generic controller instantiated
//! for modules, and the per-verb handler functions that decode the raw path
//! identity before delegating to it.

use crate::controllers::{
    delete_message, parse_i32, path_id_of, store_error_to_http, Controller, CustomHttpError,
    HttpResponse, Req,
};
use crate::models::Db;
use crate::module_models::{
    find_module, module_create_spec, module_delete_spec, module_update_spec, Module, ModuleV,
    MutModule,
};
use vstd::prelude::*;

verus! {

/// Serves modules through the generic [`Controller`] handlers.
pub struct ModuleController;

impl Controller<Module, MutModule> for ModuleController {

}

/// Creates a module from a decoded module mutation payload: 201 echoing the
/// input, `BadRequest` when the payload failed to decode.
pub fn create_module(db: &mut Db, body: Option<MutModule>) -> (r: Result<
    HttpResponse<MutModule>,
    CustomHttpError,
>)
    requires
        old(db)@.wf(),
    ensures
        final(db)@.wf(),
        match body {
            None => final(db)@ == old(db)@ && r is Err && r->Err_0 == CustomHttpError::BadRequest,
            Some(m) => ({
                let (d2, sr) = module_create_spec(old(db)@, m@);
                final(db)@ == d2 && match sr {
                    Ok(n) => r is Ok && r->Ok_0.status == 201 && r->Ok_0.body@ == m@,
                    Err(e) => r is Err && r->Err_0 == store_error_to_http(e),
                }
            }),
        },
{
    ModuleController::create(db, body)
}

/// Gets all modules: 200 with the module table in store order.
pub fn get_modules(db: &Db) -> (r: Result<HttpResponse<Vec<Module>>, CustomHttpError>)
    requires
        db@.wf(),
    ensures
        r is Ok && r->Ok_0.status == 200,
        r->Ok_0.body@.len() == db@.modules.len(),
        forall|k: int|
            0 <= k < db@.modules.len() ==> (#[trigger] r->Ok_0.body@[k])@ == db@.modules[k],
{
    ModuleController::read_all(db)
}

/// Gets one module by its raw path identity: 200 with the row, `NotFound`
/// when no row matches, `BadRequest` when the identity is missing or not a
/// 32-bit integer.
pub fn get_module(db: &Db, raw_id: Option<&str>) -> (r: Result<
    HttpResponse<Module>,
    CustomHttpError,
>)
    requires
        db@.wf(),
    ensures
        match raw_id {
            None => r is Err && r->Err_0 == CustomHttpError::BadRequest,
            Some(s) => match path_id_of(s@) {
                None => r is Err && r->Err_0 == CustomHttpError::BadRequest,
                Some(id) => match find_module(db@, id) {
                    Some(mv) => r is Ok && r->Ok_0.status == 200 && r->Ok_0.body@ == mv,
                    None => r is Err && r->Err_0 == CustomHttpError::NotFound,
                },
            },
        },
{
    let s = match raw_id {
        Some(s) => s,
        None => {
            return Err(CustomHttpError::BadRequest);
        },
    };
    let id = match parse_i32(s) {
        Some(id) => id,
        None => {
            return Err(CustomHttpError::BadRequest);
        },
    };
    ModuleController::read_one(db, Req { id })
}

/// Updates a module from a decoded mutation payload and its raw path
/// identity: 200 echoing the input, whether or not a row matched;
/// `BadRequest` when the payload or the identity failed to decode.
pub fn update_module(db: &mut Db, body: Option<MutModule>, raw_id: Option<&str>) -> (r: Result<
    HttpResponse<MutModule>,
    CustomHttpError,
>)
    requires
        old(db)@.wf(),
    ensures
        final(db)@.wf(),
        match body {
            None => final(db)@ == old(db)@ && r is Err && r->Err_0 == CustomHttpError::BadRequest,
            Some(m) => match raw_id {
                None => final(db)@ == old(db)@ && r is Err && r->Err_0
                    == CustomHttpError::BadRequest,
                Some(s) => match path_id_of(s@) {
                    None => final(db)@ == old(db)@ && r is Err && r->Err_0
                        == CustomHttpError::BadRequest,
                    Some(id) => ({
                        let (d2, sr) = module_update_spec(old(db)@, id, m@);
                        final(db)@ == d2 && match sr {
                            Ok(n) => r is Ok && r->Ok_0.status == 200 && r->Ok_0.body@ == m@,
                            Err(e) => r is Err && r->Err_0 == store_error_to_http(e),
                        }
                    }),
                },
            },
        },
{
    let m = match body {
        Some(m) => m,
        None => {
            return Err(CustomHttpError::BadRequest);
        },
    };
    let s = match raw_id {
        Some(s) => s,
        None => {
            return Err(CustomHttpError::BadRequest);
        },
    };
    let id = match parse_i32(s) {
        Some(id) => id,
        None => {
            return Err(CustomHttpError::BadRequest);
        },
    };
    ModuleController::update(db, Some(m), Req { id })
}

/// Deletes a module by its raw path identity: 200 with a confirmation
/// message naming the identity, whether or not a row matched; `BadRequest`
/// when the identity failed to decode.
pub fn delete_module(db: &mut Db, raw_id: Option<&str>) -> (r: Result<
    HttpResponse<String>,
    CustomHttpError,
>)
    requires
        old(db)@.wf(),
    ensures
        final(db)@.wf(),
        match raw_id {
            None => final(db)@ == old(db)@ && r is Err && r->Err_0 == CustomHttpError::BadRequest,
            Some(s) => match path_id_of(s@) {
                None => final(db)@ == old(db)@ && r is Err && r->Err_0
                    == CustomHttpError::BadRequest,
                Some(id) => final(db)@ == module_delete_spec(old(db)@, id).0 && r is Ok
                    && r->Ok_0.status == 200 && r->Ok_0.body@ == delete_message(id),
            },
        },
{
    let s = match raw_id {
        Some(s) => s,
        None => {
            return Err(CustomHttpError::BadRequest);
        },
    };
    let id = match parse_i32(s) {
        Some(id) => id,
        None => {
            return Err(CustomHttpError::BadRequest);
        },
    };
    ModuleController::delete(db, Req { id })
}

} // verus!
