use y_sweet::api_types::{Authorization, ErrorKind, StoreError};
use y_sweet::documents::{
    check_connect, check_copy_request, check_delete_request, check_write_access, doc_exists,
    finish_copy, local_upload_url, plan_asset_listing, plan_upload, DeletionAction,
    DocumentDeletion,
};

fn expect_remove(a: DeletionAction) -> String {
    match a {
        DeletionAction::Remove { key } => key,
        _ => panic!("expected a removal"),
    }
}

#[test]
fn delete_document_with_snapshot_and_three_assets() {
    let (mut d, a) = DocumentDeletion::start("d7".to_string(), true, true);
    assert_eq!(expect_remove(a), "d7/data.ysweet");
    let prefix = match d.on_removed(Ok(())) {
        DeletionAction::List { prefix } => prefix,
        _ => panic!("expected a listing"),
    };
    assert_eq!(prefix, "d7/assets/");
    let names = vec!["a.png".to_string(), "b.png".to_string(), "c.mp4".to_string()];
    assert_eq!(expect_remove(d.on_listed(Ok(names))), "d7/assets/a.png");
    assert_eq!(expect_remove(d.on_removed(Ok(()))), "d7/assets/b.png");
    assert_eq!(expect_remove(d.on_removed(Ok(()))), "d7/assets/c.mp4");
    match d.on_removed(Ok(())) {
        DeletionAction::Respond(r) => {
            assert_eq!(r.doc_id, "d7");
            assert!(r.success);
            assert!(r.data_deleted);
            assert_eq!(r.deleted_assets, 3);
        }
        _ => panic!("expected a response"),
    }
}

#[test]
fn delete_treats_missing_objects_as_absent() {
    let (mut d, _) = DocumentDeletion::start("d".to_string(), false, true);
    d.on_removed(Err(StoreError::DoesNotExist("gone".to_string())));
    match d.on_listed(Err(StoreError::DoesNotExist("gone".to_string()))) {
        DeletionAction::Respond(r) => {
            assert!(!r.success);
            assert!(!r.data_deleted);
            assert_eq!(r.deleted_assets, 0);
        }
        _ => panic!("expected a response"),
    }
    let (mut d, _) = DocumentDeletion::start("d".to_string(), false, true);
    d.on_removed(Ok(()));
    d.on_listed(Ok(vec!["x.png".to_string(), "y.png".to_string()]));
    d.on_removed(Err(StoreError::DoesNotExist("gone".to_string())));
    match d.on_removed(Ok(())) {
        DeletionAction::Respond(r) => {
            assert!(r.success);
            assert_eq!(r.deleted_assets, 1);
        }
        _ => panic!("expected a response"),
    }
}

#[test]
fn delete_stops_on_store_failure() {
    let (mut d, _) = DocumentDeletion::start("d".to_string(), true, true);
    match d.on_removed(Err(StoreError::ConnectionError("down".to_string()))) {
        DeletionAction::Fail(e) => assert_eq!(e.kind, ErrorKind::Internal),
        _ => panic!("expected a failure"),
    }
    let (mut d, _) = DocumentDeletion::start("d".to_string(), true, true);
    d.on_removed(Ok(()));
    match d.on_listed(Err(StoreError::NotAuthorized("no".to_string()))) {
        DeletionAction::Fail(e) => assert_eq!(e.kind, ErrorKind::Internal),
        _ => panic!("expected a failure"),
    }
    let (mut d, _) = DocumentDeletion::start("d".to_string(), true, true);
    d.on_removed(Ok(()));
    d.on_listed(Ok(vec!["x.png".to_string()]));
    match d.on_removed(Err(StoreError::BucketDoesNotExist("b".to_string()))) {
        DeletionAction::Fail(e) => assert_eq!(e.kind, ErrorKind::Internal),
        _ => panic!("expected a failure"),
    }
}

#[test]
fn delete_without_store() {
    let (_, a) = DocumentDeletion::start("d".to_string(), true, false);
    match a {
        DeletionAction::Respond(r) => {
            assert!(r.success);
            assert!(!r.data_deleted);
        }
        _ => panic!("expected a response"),
    }
}

#[test]
fn request_checks() {
    assert_eq!(check_delete_request("bad/id", true).err().unwrap().kind, ErrorKind::InvalidInput);
    assert_eq!(check_delete_request("d7", false).err().unwrap().kind, ErrorKind::NotFound);
    assert!(check_delete_request("d7", true).is_ok());
    assert_eq!(check_copy_request("a b", "ok", true).err().unwrap().kind, ErrorKind::InvalidInput);
    assert_eq!(check_copy_request("ok", "", true).err().unwrap().kind, ErrorKind::InvalidInput);
    assert_eq!(check_copy_request("d6", "d6new", false).err().unwrap().kind, ErrorKind::NotFound);
    assert!(check_copy_request("d6", "d6new", true).is_ok());
    assert_eq!(check_write_access(Authorization::ReadOnly).err().unwrap().kind, ErrorKind::Forbidden);
    assert!(check_write_access(Authorization::Full).is_ok());
    assert_eq!(check_connect(Authorization::ReadOnly, false).err().unwrap().kind, ErrorKind::NotFound);
    assert!(check_connect(Authorization::ReadOnly, true).is_ok());
    assert!(check_connect(Authorization::Full, false).is_ok());
}

#[test]
fn existence() {
    assert_eq!(doc_exists(true, None), Ok(true));
    assert_eq!(doc_exists(true, Some(Ok(false))), Ok(true));
    assert_eq!(doc_exists(false, Some(Ok(true))), Ok(true));
    assert_eq!(doc_exists(false, Some(Ok(false))), Ok(false));
    assert_eq!(
        doc_exists(false, Some(Err(StoreError::BucketDoesNotExist("b".to_string())))),
        Err(StoreError::BucketDoesNotExist("b".to_string()))
    );
    assert_eq!(doc_exists(false, None), Ok(false));
}

#[test]
fn copy_response() {
    let r = finish_copy("d6".to_string(), "d6new".to_string(), Some(Ok(()))).ok().unwrap();
    assert!(r.success);
    assert_eq!(r.source_doc_id, "d6");
    assert_eq!(r.destination_doc_id, "d6new");
    let e = finish_copy("d6".to_string(), "x".to_string(), None).err().unwrap();
    assert_eq!(e.kind, ErrorKind::Internal);
    let e = finish_copy("d6".to_string(), "x".to_string(), Some(Err(StoreError::ConnectionError(
        "x".to_string(),
    ))))
    .err()
    .unwrap();
    assert_eq!(e.kind, ErrorKind::Internal);
}

#[test]
fn upload_then_list_gives_back_the_asset_id() {
    let plan = plan_upload("d5", "image/png", true).ok().unwrap();
    assert!(plan.asset_name.ends_with(".png"));
    assert_eq!(plan.asset_name, format!("{}.png", plan.asset_id));
    assert_eq!(plan.key, format!("d5/assets/{}", plan.asset_name));
    let listed = plan_asset_listing("d5", &vec![plan.asset_name.clone()]);
    assert_eq!(listed, vec![(plan.asset_id.clone(), plan.key.clone())]);
    assert_eq!(local_upload_url(&plan.key), format!("file://localhost/{}", plan.key));
}

#[test]
fn upload_checks() {
    assert_eq!(plan_upload("d5", "image/png", false).err().unwrap().kind, ErrorKind::NotFound);
    assert_eq!(plan_upload("d5", "text/plain", true).err().unwrap().kind, ErrorKind::InvalidInput);
    assert_eq!(plan_upload("d5", "nonsense", true).err().unwrap().kind, ErrorKind::InvalidInput);
}

#[test]
fn listing_plan() {
    let names = vec!["x.png".to_string(), "y".to_string(), "z.tar.gz".to_string()];
    let plan = plan_asset_listing("d", &names);
    assert_eq!(
        plan,
        vec![
            ("x".to_string(), "d/assets/x.png".to_string()),
            ("y".to_string(), "d/assets/y".to_string()),
            ("z.tar".to_string(), "d/assets/z.tar.gz".to_string()),
        ]
    );
}
