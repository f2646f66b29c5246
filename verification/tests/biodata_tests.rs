use listing_core::biodata::{MBiodata, MBiodataRequest};

fn valid_request() -> MBiodataRequest {
    MBiodataRequest {
        id: Some(42),
        fullname: Some("Annisa".to_string()),
        mobile_phone: Some("0812".to_string()),
        image: None,
        image_path: None,
        is_delete: Some(false),
    }
}

#[test]
fn a_valid_request_passes_validation() {
    assert!(valid_request().validate().is_ok());
}

#[test]
fn missing_id_is_mandatory() {
    let mut r = valid_request();
    r.id = None;
    let findings = r.validate().unwrap_err();
    assert_eq!(findings, vec![("id".to_string(), "mandatory".to_string())]);
}

#[test]
fn id_out_of_range_is_rejected() {
    let mut r = valid_request();
    r.id = Some(0);
    let findings = r.validate().unwrap_err();
    assert_eq!(
        findings,
        vec![("id".to_string(), "must be between 1-999999 chars".to_string())]
    );
    r.id = Some(1_000_000);
    assert!(r.validate().is_err());
    r.id = Some(999_999);
    assert!(r.validate().is_ok());
}

#[test]
fn short_fullname_is_rejected() {
    let mut r = valid_request();
    r.fullname = Some("ab".to_string());
    let findings = r.validate().unwrap_err();
    assert_eq!(
        findings,
        vec![("fullname".to_string(), "must be greater than 3 chars".to_string())]
    );
}

#[test]
fn missing_fields_report_together_in_field_order() {
    let r = MBiodataRequest {
        id: None,
        fullname: None,
        mobile_phone: None,
        image: None,
        image_path: None,
        is_delete: None,
    };
    let findings = r.validate().unwrap_err();
    assert_eq!(
        findings,
        vec![
            ("id".to_string(), "mandatory".to_string()),
            ("fullname".to_string(), "mandatory".to_string()),
            ("is_delete".to_string(), "mandatory".to_string()),
        ]
    );
}

#[test]
fn new_record_starts_blank() {
    let b = MBiodata::new_at("Ann".to_string(), "0812".to_string(), 1700000000);
    assert_eq!(b.id, 0);
    assert_eq!(b.fullname, Some("Ann".to_string()));
    assert_eq!(b.mobile_phone, Some("0812".to_string()));
    assert_eq!(b.image, None);
    assert_eq!(b.image_path, None);
    assert_eq!(b.created_by, 0);
    assert_eq!(b.created_on, 1700000000);
    assert_eq!(b.modified_by, None);
    assert_eq!(b.modified_on, None);
    assert_eq!(b.deleted_by, None);
    assert_eq!(b.deleted_on, None);
    assert!(!b.is_delete);
}

#[test]
fn new_record_with_wall_clock_keeps_its_names() {
    let b = MBiodata::new("Ann".to_string(), "0812".to_string());
    assert_eq!(b.fullname, Some("Ann".to_string()));
    assert_eq!(b.mobile_phone, Some("0812".to_string()));
    assert_eq!(b.id, 0);
    assert!(!b.is_delete);
}

#[test]
fn create_request_becomes_a_fresh_record() {
    let b = MBiodata::from_create_request_at(valid_request(), 1700000000);
    assert_eq!(b.id, 42);
    assert_eq!(b.fullname, Some("Annisa".to_string()));
    assert_eq!(b.created_by, 0);
    assert_eq!(b.created_on, 1700000000);
    assert_eq!(b.modified_on, None);
    assert_eq!(b.deleted_by, None);
    assert_eq!(b.deleted_on, None);
    assert!(!b.is_delete);
}

#[test]
fn create_request_marked_deleted_gets_deletion_stamps() {
    let mut r = valid_request();
    r.is_delete = Some(true);
    let b = MBiodata::from_create_request_at(r, 1700000000);
    assert!(b.is_delete);
    assert_eq!(b.deleted_by, Some(0));
    assert_eq!(b.deleted_on, Some(1700000000));
}

#[test]
fn update_request_keeps_creation_and_stamps_modification() {
    let existing = MBiodata::new_at("Old".to_string(), "000".to_string(), 1600000000);
    let b = MBiodata::from_update_request_at(valid_request(), existing, 1700000000);
    assert_eq!(b.id, 42);
    assert_eq!(b.fullname, Some("Annisa".to_string()));
    assert_eq!(b.created_on, 1600000000);
    assert_eq!(b.created_by, 0);
    assert_eq!(b.modified_by, Some(0));
    assert_eq!(b.modified_on, Some(1700000000));
    assert_eq!(b.deleted_on, None);
}

#[test]
fn update_request_marked_deleted_gets_deletion_stamps() {
    let existing = MBiodata::new_at("Old".to_string(), "000".to_string(), 1600000000);
    let mut r = valid_request();
    r.is_delete = Some(true);
    let b = MBiodata::from_update_request_at(r, existing, 1700000000);
    assert!(b.is_delete);
    assert_eq!(b.deleted_by, Some(0));
    assert_eq!(b.deleted_on, Some(1700000000));
}
