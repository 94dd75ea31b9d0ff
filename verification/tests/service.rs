use page_service::controllers::{Controller, CustomHttpError, Req};
use page_service::models::{empty_db, Db, Model, StoreError};
use page_service::module_controllers::{
    create_module, delete_module, get_module, get_modules, update_module, ModuleController,
};
use page_service::module_models::{Module, MutModule};
use page_service::page_controllers::{get_page_join_modules, PageController};
use page_service::page_models::{MutPage, Page};

// Creates the page used by the unit tests.
fn create_test_page(db: &mut Db) {
    let new_page = MutPage { page_id: Some(-1), title: String::from("Hello world!") };
    PageController::create(db, Some(new_page)).unwrap();
}

// Creates the module used by the unit tests.
fn create_test_module(db: &mut Db) {
    let new_module = MutModule {
        module_id: Some(-1),
        module_type_id: 1,
        page_id: -1,
        content: Some(String::from("Hello world!")),
    };
    ModuleController::create(db, Some(new_module)).unwrap();
}

// Deletes both the page and the module with the test identities.
fn cleanup_test_values(db: &mut Db) {
    PageController::delete(db, Req { id: -1 }).unwrap();
    ModuleController::delete(db, Req { id: -1 }).unwrap();
}

#[test]
fn create_page() {
    let mut db = empty_db();
    let new_page = MutPage { page_id: Some(-1), title: String::from("Hello world!") };

    let resp = PageController::create(&mut db, Some(new_page)).unwrap();

    cleanup_test_values(&mut db);

    assert_eq!(resp.status, 201);
}

#[test]
fn read_all_pages() {
    let mut db = empty_db();
    println!("before");
    create_test_page(&mut db);
    println!("after");

    let resp = PageController::read_all(&db).unwrap();

    cleanup_test_values(&mut db);

    assert_eq!(resp.status, 200);
}

#[test]
fn read_one_page() {
    let mut db = empty_db();
    create_test_page(&mut db);

    let resp = PageController::read_one(&db, Req { id: -1 }).unwrap();

    cleanup_test_values(&mut db);

    assert_eq!(resp.status, 200);
}

#[test]
fn read_one_page_join() {
    let mut db = empty_db();
    create_test_page(&mut db);
    create_test_module(&mut db);

    let resp = get_page_join_modules(&db, Some("-1")).unwrap();

    cleanup_test_values(&mut db);

    assert_eq!(resp.status, 200);
}

#[test]
fn update_page() {
    let mut db = empty_db();
    create_test_page(&mut db);

    let new_page = MutPage { page_id: None, title: String::from("Hello world! updated") };

    let resp = PageController::update(&mut db, Some(new_page), Req { id: -1 }).unwrap();

    cleanup_test_values(&mut db);

    assert_eq!(resp.status, 200);
}

#[test]
fn create_modules() {
    let mut db = empty_db();
    create_test_page(&mut db);

    let new_module = MutModule {
        module_id: Some(-1),
        module_type_id: 1,
        page_id: -1,
        content: Some(String::from("Hello world!")),
    };
    let resp = ModuleController::create(&mut db, Some(new_module)).unwrap();

    cleanup_test_values(&mut db);

    assert_eq!(resp.status, 201);
}

#[test]
fn read_all_modules() {
    let mut db = empty_db();
    create_test_page(&mut db);
    create_test_module(&mut db);

    let resp = ModuleController::read_all(&db).unwrap();

    cleanup_test_values(&mut db);

    assert_eq!(resp.status, 200);
}

#[test]
fn read_one_module() {
    let mut db = empty_db();
    create_test_page(&mut db);
    create_test_module(&mut db);

    let resp = ModuleController::read_one(&db, Req { id: -1 }).unwrap();

    cleanup_test_values(&mut db);

    assert_eq!(resp.status, 200);
}

#[test]
fn update_modules() {
    let mut db = empty_db();
    create_test_page(&mut db);
    create_test_module(&mut db);

    let new_module = MutModule {
        module_id: None,
        module_type_id: 1,
        page_id: -1,
        content: Some(String::from("Hello world! updated")),
    };

    let resp = ModuleController::update(&mut db, Some(new_module), Req { id: -1 }).unwrap();

    cleanup_test_values(&mut db);

    assert_eq!(resp.status, 200);
}

#[test]
fn round_trip_create_then_read_back() {
    let mut db = empty_db();
    create_test_page(&mut db);

    let resp = PageController::read_one(&db, Req { id: -1 }).unwrap();
    assert_eq!(resp.body.page_id, -1);
    assert_eq!(resp.body.title.as_str(), "Hello world!");

    create_test_module(&mut db);
    let resp = ModuleController::read_one(&db, Req { id: -1 }).unwrap();
    assert_eq!(
        resp.body,
        Module {
            module_id: -1,
            module_type_id: 1,
            page_id: -1,
            content: Some(String::from("Hello world!")),
        }
    );
}

#[test]
fn idempotent_create_leaves_one_row() {
    let mut db = empty_db();
    create_test_page(&mut db);

    let again = MutPage { page_id: Some(-1), title: String::from("Hello world!") };
    let resp = PageController::create(&mut db, Some(again)).unwrap();
    assert_eq!(resp.status, 201);

    let all = PageController::read_all(&db).unwrap();
    assert_eq!(all.body.len(), 1);
    assert_eq!(all.body[0].page_id, -1);
}

#[test]
fn update_and_delete_of_absent_id_are_no_ops() {
    let mut db = empty_db();
    let payload = MutPage { page_id: None, title: String::from("nobody home") };
    assert_eq!(Page::update(&mut db, 77, &payload), Ok(0));
    assert_eq!(Page::delete(&mut db, 77), Ok(0));
    let module_payload =
        MutModule { module_id: None, module_type_id: 1, page_id: 77, content: None };
    assert_eq!(Module::update(&mut db, 77, &module_payload), Ok(0));
    assert_eq!(Module::delete(&mut db, 77), Ok(0));
}

#[test]
fn join_nests_the_owned_module() {
    let mut db = empty_db();
    create_test_page(&mut db);
    create_test_module(&mut db);

    let resp = get_page_join_modules(&db, Some("-1")).unwrap();
    assert_eq!(resp.status, 200);
    assert_eq!(resp.body.page_id, -1);
    assert_eq!(resp.body.title.as_str(), "Hello world!");
    assert_eq!(
        resp.body.modules,
        vec![Module {
            module_id: -1,
            module_type_id: 1,
            page_id: -1,
            content: Some(String::from("Hello world!")),
        }]
    );
}

#[test]
fn join_collects_every_owned_module_and_skips_others() {
    let mut db = empty_db();
    create_test_page(&mut db);
    for (id, owner) in [(1, -1), (2, -1), (3, 8)] {
        let m = MutModule {
            module_id: Some(id),
            module_type_id: 1,
            page_id: owner,
            content: Some(format!("module {}", id)),
        };
        ModuleController::create(&mut db, Some(m)).unwrap();
    }

    let resp = get_page_join_modules(&db, Some("-1")).unwrap();
    let ids: Vec<i32> = resp.body.modules.iter().map(|m| m.module_id).collect();
    assert_eq!(ids, vec![1, 2]);
}

#[test]
fn update_then_get_shows_new_title() {
    let mut db = empty_db();
    create_test_page(&mut db);

    let new_page = MutPage { page_id: None, title: String::from("Hello world! updated") };
    let resp = PageController::update(&mut db, Some(new_page), Req { id: -1 }).unwrap();
    assert_eq!(resp.status, 200);

    let resp = PageController::read_one(&db, Req { id: -1 }).unwrap();
    assert_eq!(resp.body.title.as_str(), "Hello world! updated");
}

#[test]
fn get_of_never_created_page_is_not_found() {
    let db = empty_db();
    let err = PageController::read_one(&db, Req { id: 999999 }).err().unwrap();
    assert_eq!(err, CustomHttpError::NotFound);
    assert_eq!(err.status_code(), 404);
}

#[test]
fn delete_twice_both_succeed() {
    let mut db = empty_db();
    create_test_page(&mut db);

    let first = PageController::delete(&mut db, Req { id: -1 }).unwrap();
    assert_eq!(first.status, 200);
    assert_eq!(first.body.as_str(), "Successfully deleted resource -1");

    let second = PageController::delete(&mut db, Req { id: -1 }).unwrap();
    assert_eq!(second.status, 200);
    assert_eq!(second.body.as_str(), "Successfully deleted resource -1");
}

#[test]
fn join_of_nonexistent_page_is_not_found() {
    let db = empty_db();
    let err = get_page_join_modules(&db, Some("999999")).err().unwrap();
    assert_eq!(err, CustomHttpError::NotFound);
}

#[test]
fn join_of_page_without_modules_is_not_found() {
    let mut db = empty_db();
    create_test_page(&mut db);
    let err = get_page_join_modules(&db, Some("-1")).err().unwrap();
    assert_eq!(err, CustomHttpError::NotFound);
}

#[test]
fn malformed_body_is_bad_request() {
    let mut db = empty_db();
    let err = PageController::create(&mut db, None).err().unwrap();
    assert_eq!(err, CustomHttpError::BadRequest);
    assert_eq!(err.status_code(), 400);
    let err = update_module(&mut db, None, Some("-1")).err().unwrap();
    assert_eq!(err, CustomHttpError::BadRequest);
}

#[test]
fn path_identity_parsing() {
    let mut db = empty_db();
    create_test_page(&mut db);
    create_test_module(&mut db);

    // A missing or non-numeric token is a BadRequest before the store is read.
    assert_eq!(get_module(&db, None).err().unwrap(), CustomHttpError::BadRequest);
    assert_eq!(get_module(&db, Some("abc")).err().unwrap(), CustomHttpError::BadRequest);
    assert_eq!(get_module(&db, Some("")).err().unwrap(), CustomHttpError::BadRequest);
    assert_eq!(get_module(&db, Some("-")).err().unwrap(), CustomHttpError::BadRequest);
    assert_eq!(get_module(&db, Some("12x")).err().unwrap(), CustomHttpError::BadRequest);
    // One past each end of the 32-bit range fails the parse.
    assert_eq!(get_module(&db, Some("2147483648")).err().unwrap(), CustomHttpError::BadRequest);
    assert_eq!(get_module(&db, Some("-2147483649")).err().unwrap(), CustomHttpError::BadRequest);
    // The extremes themselves parse, and merely find no row.
    assert_eq!(get_module(&db, Some("2147483647")).err().unwrap(), CustomHttpError::NotFound);
    assert_eq!(get_module(&db, Some("-2147483648")).err().unwrap(), CustomHttpError::NotFound);
    // Signs and leading zeros parse as a standard integer parse does.
    assert_eq!(get_module(&db, Some("+7")).err().unwrap(), CustomHttpError::NotFound);
    assert_eq!(get_module(&db, Some("-1")).unwrap().body.module_id, -1);
    assert_eq!(get_module(&db, Some("-001")).unwrap().body.module_id, -1);
}

#[test]
fn module_handlers_round_trip() {
    let mut db = empty_db();
    create_test_page(&mut db);

    let m = MutModule {
        module_id: Some(4),
        module_type_id: 2,
        page_id: -1,
        content: None,
    };
    let resp = create_module(&mut db, Some(m)).unwrap();
    assert_eq!(resp.status, 201);

    let all = get_modules(&db).unwrap();
    assert_eq!(all.status, 200);
    assert_eq!(all.body.len(), 1);

    let updated = MutModule {
        module_id: None,
        module_type_id: 3,
        page_id: -1,
        content: Some(String::from("filled in")),
    };
    let resp = update_module(&mut db, Some(updated), Some("4")).unwrap();
    assert_eq!(resp.status, 200);
    let one = get_module(&db, Some("4")).unwrap();
    assert_eq!(one.body.module_type_id, 3);
    assert_eq!(one.body.content, Some(String::from("filled in")));

    let gone = delete_module(&mut db, Some("4")).unwrap();
    assert_eq!(gone.status, 200);
    assert_eq!(gone.body.as_str(), "Successfully deleted resource 4");
    assert_eq!(get_module(&db, Some("4")).err().unwrap(), CustomHttpError::NotFound);
}

#[test]
fn store_assigns_identity_and_creation_time() {
    let mut db = empty_db();
    let first = MutPage { page_id: None, title: String::from("first") };
    PageController::create(&mut db, Some(first)).unwrap();
    let second = MutPage { page_id: None, title: String::from("second") };
    PageController::create(&mut db, Some(second)).unwrap();

    let all = PageController::read_all(&db).unwrap();
    assert_eq!(all.body.len(), 2);
    assert_eq!(all.body[0].page_id, 1);
    assert_eq!(all.body[0].time_created, 0);
    assert_eq!(all.body[1].page_id, 2);
    assert_eq!(all.body[1].time_created, 1);
}

#[test]
fn forcing_a_taken_identity_in_update_is_a_server_error() {
    let mut db = empty_db();
    create_test_page(&mut db);
    let other = MutPage { page_id: Some(-2), title: String::from("other") };
    PageController::create(&mut db, Some(other)).unwrap();

    let clash = MutPage { page_id: Some(-1), title: String::from("clash") };
    let err = PageController::update(&mut db, Some(clash), Req { id: -2 }).err().unwrap();
    assert_eq!(err, CustomHttpError::ServerError);
    assert_eq!(err.status_code(), 500);
}

#[test]
fn identity_column_exhaustion_is_a_server_error() {
    let mut db = empty_db();
    let top = MutPage { page_id: Some(2147483647), title: String::from("top") };
    PageController::create(&mut db, Some(top)).unwrap();
    let next = MutPage { page_id: None, title: String::from("one too many") };
    let err = PageController::create(&mut db, Some(next)).err().unwrap();
    assert_eq!(err, CustomHttpError::ServerError);
    assert_eq!(Page::create(&mut db, &MutPage { page_id: None, title: String::from("again") }),
        Err(StoreError::Other));
}
