//! The biodata entity: its row shape, its request shape with the
//! validation rules, and the listing statements of its table.
//!
//! Timestamps are whole seconds since the Unix epoch. The storage layer
//! converts them to its own datetime type at the edge.

use vstd::prelude::*;
use vstd::string::*;

use crate::clock::current_timestamp;
use crate::query::{
    build_listing_statements, retain_known_filters, retain_known_sorts, spec_count_statement,
    spec_data_statement, spec_retained_filters, spec_retained_sorts, Filter, Sort,
};

verus! {

/// One row of the biodata table.
#[derive(Clone, Debug, PartialEq)]
pub struct MBiodata {
    pub id: i64,
    pub fullname: Option<String>,
    pub mobile_phone: Option<String>,
    pub image: Option<Vec<u8>>,
    pub image_path: Option<String>,
    pub created_by: i64,
    pub created_on: i64,
    pub modified_by: Option<i64>,
    pub modified_on: Option<i64>,
    pub deleted_by: Option<i64>,
    pub deleted_on: Option<i64>,
    pub is_delete: bool,
}

/// The create/update request for a biodata row.
#[derive(Clone, Debug, PartialEq)]
pub struct MBiodataRequest {
    pub id: Option<i64>,
    pub fullname: Option<String>,
    pub mobile_phone: Option<String>,
    pub image: Option<Vec<u8>>,
    pub image_path: Option<String>,
    pub is_delete: Option<bool>,
}

/// The validation findings of a biodata request, as field/message pairs in
/// field order: `id` is mandatory and must lie between 1 and 999999,
/// `fullname` is mandatory and must hold at least 3 characters,
/// `is_delete` is mandatory.
pub open spec fn spec_biodata_request_errors(r: MBiodataRequest) -> Seq<(Seq<char>, Seq<char>)> {
    (if r.id is None {
        seq![("id"@, "mandatory"@)]
    } else if r.id.unwrap() < 1 || r.id.unwrap() > 999999 {
        seq![("id"@, "must be between 1-999999 chars"@)]
    } else {
        Seq::empty()
    }) + (if r.fullname is None {
        seq![("fullname"@, "mandatory"@)]
    } else if r.fullname.unwrap()@.len() < 3 {
        seq![("fullname"@, "must be greater than 3 chars"@)]
    } else {
        Seq::empty()
    }) + (if r.is_delete is None {
        seq![("is_delete"@, "mandatory"@)]
    } else {
        Seq::empty()
    })
}

/// Appends one validation finding.
fn push_finding(v: &mut Vec<(String, String)>, field: &str, message: &str)
    ensures
        final(v).deep_view() == old(v).deep_view().push((field@, message@)),
{
    v.push((String::from_str(field), String::from_str(message)));
    proof {
        assert(final(v).deep_view() =~= old(v).deep_view().push((field@, message@)));
    }
}

impl MBiodataRequest {
    /// Checks the request against its rules; a rejected request reports
    /// every failing field with its message.
    pub fn validate(&self) -> (res: Result<(), Vec<(String, String)>>)
        ensures
            match res {
                Ok(_) => spec_biodata_request_errors(*self).len() == 0,
                Err(v) => {
                    &&& v.deep_view() == spec_biodata_request_errors(*self)
                    &&& v.deep_view().len() > 0
                },
            },
    {
        let mut findings: Vec<(String, String)> = Vec::new();
        match &self.id {
            None => {
                push_finding(&mut findings, "id", "mandatory");
            },
            Some(i) => {
                if *i < 1 || *i > 999999 {
                    push_finding(&mut findings, "id", "must be between 1-999999 chars");
                }
            },
        }
        match &self.fullname {
            None => {
                push_finding(&mut findings, "fullname", "mandatory");
            },
            Some(name) => {
                if name.as_str().unicode_len() < 3 {
                    push_finding(&mut findings, "fullname", "must be greater than 3 chars");
                }
            },
        }
        if self.is_delete.is_none() {
            push_finding(&mut findings, "is_delete", "mandatory");
        }
        proof {
            assert(findings.deep_view() =~= spec_biodata_request_errors(*self));
        }
        if findings.is_empty() {
            Ok(())
        } else {
            Err(findings)
        }
    }
}

impl MBiodata {
    /// A fresh record with the given names, stamped with the given time:
    /// every other field starts at its blank value.
    pub fn new_at(fullname: String, mobilephone: String, now: i64) -> (r: MBiodata)
        ensures
            r == (MBiodata {
                id: 0,
                fullname: Some(fullname),
                mobile_phone: Some(mobilephone),
                image: None,
                image_path: None,
                created_by: 0,
                created_on: now,
                modified_by: None,
                modified_on: None,
                deleted_by: None,
                deleted_on: None,
                is_delete: false,
            }),
    {
        MBiodata {
            id: 0,
            fullname: Some(fullname),
            mobile_phone: Some(mobilephone),
            image: None,
            image_path: None,
            created_by: 0,
            created_on: now,
            modified_by: None,
            modified_on: None,
            deleted_by: None,
            deleted_on: None,
            is_delete: false,
        }
    }

    /// A fresh record stamped with the current wall-clock time; apart from
    /// the stamp it behaves exactly like [`MBiodata::new_at`].
    pub fn new(fullname: String, mobilephone: String) -> (r: MBiodata)
        ensures
            r == (MBiodata { created_on: r.created_on, ..MBiodata::spec_new_shape(
                fullname,
                mobilephone,
            ) }),
    {
        let now = current_timestamp();
        MBiodata::new_at(fullname, mobilephone, now)
    }

    /// The shape of a fresh record, with a zero stamp.
    pub open spec fn spec_new_shape(fullname: String, mobilephone: String) -> MBiodata {
        MBiodata {
            id: 0,
            fullname: Some(fullname),
            mobile_phone: Some(mobilephone),
            image: None,
            image_path: None,
            created_by: 0,
            created_on: 0,
            modified_by: None,
            modified_on: None,
            deleted_by: None,
            deleted_on: None,
            is_delete: false,
        }
    }

    /// The record a create request becomes, stamped with the given time: a
    /// request already marked deleted is stamped as deleted by the system
    /// account at the same time.
    pub fn from_create_request_at(request: MBiodataRequest, now: i64) -> (r: MBiodata)
        requires
            request.id is Some,
        ensures
            r.id == request.id.unwrap(),
            r.fullname == request.fullname,
            r.mobile_phone == request.mobile_phone,
            r.image == request.image,
            r.image_path == request.image_path,
            r.created_by == 0,
            r.created_on == now,
            r.modified_by is None,
            r.modified_on is None,
            r.is_delete == request.is_delete.unwrap_or(false),
            r.deleted_by == if request.is_delete.unwrap_or(false) {
                Some(0i64)
            } else {
                None::<i64>
            },
            r.deleted_on == if request.is_delete.unwrap_or(false) {
                Some(now)
            } else {
                None::<i64>
            },
    {
        let is_delete = request.is_delete.unwrap_or(false);
        let mut deleted_by: Option<i64> = None;
        let mut deleted_on: Option<i64> = None;
        if is_delete {
            deleted_by = Some(0);
            deleted_on = Some(now);
        }
        MBiodata {
            id: request.id.unwrap(),
            fullname: request.fullname,
            mobile_phone: request.mobile_phone,
            image: request.image,
            image_path: request.image_path,
            created_by: 0,
            created_on: now,
            modified_by: None,
            modified_on: None,
            deleted_by,
            deleted_on,
            is_delete,
        }
    }

    /// Like [`MBiodata::from_create_request_at`], stamped with the current
    /// wall-clock time; the deletion stamp, when present, equals the
    /// creation stamp.
    pub fn from_create_request(request: MBiodataRequest) -> (r: MBiodata)
        requires
            request.id is Some,
        ensures
            r.id == request.id.unwrap(),
            r.fullname == request.fullname,
            r.mobile_phone == request.mobile_phone,
            r.image == request.image,
            r.image_path == request.image_path,
            r.created_by == 0,
            r.modified_by is None,
            r.modified_on is None,
            r.is_delete == request.is_delete.unwrap_or(false),
            r.deleted_by == if request.is_delete.unwrap_or(false) {
                Some(0i64)
            } else {
                None::<i64>
            },
            r.deleted_on == if request.is_delete.unwrap_or(false) {
                Some(r.created_on)
            } else {
                None::<i64>
            },
    {
        let now = current_timestamp();
        MBiodata::from_create_request_at(request, now)
    }

    /// The record an update request becomes, stamped with the given time:
    /// the creation fields survive from the existing record, the
    /// modification stamp is fresh, and a request marked deleted is stamped
    /// as deleted at the same time.
    pub fn from_update_request_at(request: MBiodataRequest, existing: MBiodata, now: i64) -> (r:
        MBiodata)
        requires
            request.id is Some,
        ensures
            r.id == request.id.unwrap(),
            r.fullname == request.fullname,
            r.mobile_phone == request.mobile_phone,
            r.image == request.image,
            r.image_path == request.image_path,
            r.created_by == existing.created_by,
            r.created_on == existing.created_on,
            r.modified_by == Some(0i64),
            r.modified_on == Some(now),
            r.is_delete == request.is_delete.unwrap_or(false),
            r.deleted_by == if request.is_delete.unwrap_or(false) {
                Some(0i64)
            } else {
                None::<i64>
            },
            r.deleted_on == if request.is_delete.unwrap_or(false) {
                Some(now)
            } else {
                None::<i64>
            },
    {
        let is_delete = request.is_delete.unwrap_or(false);
        let mut deleted_by: Option<i64> = None;
        let mut deleted_on: Option<i64> = None;
        if is_delete {
            deleted_by = Some(0);
            deleted_on = Some(now);
        }
        MBiodata {
            id: request.id.unwrap(),
            fullname: request.fullname,
            mobile_phone: request.mobile_phone,
            image: request.image,
            image_path: request.image_path,
            created_by: existing.created_by,
            created_on: existing.created_on,
            modified_by: Some(0),
            modified_on: Some(now),
            deleted_by,
            deleted_on,
            is_delete,
        }
    }

    /// Like [`MBiodata::from_update_request_at`], stamped with the current
    /// wall-clock time; the deletion stamp, when present, equals the
    /// modification stamp.
    pub fn from_update_request(request: MBiodataRequest, existing: MBiodata) -> (r: MBiodata)
        requires
            request.id is Some,
        ensures
            r.id == request.id.unwrap(),
            r.fullname == request.fullname,
            r.mobile_phone == request.mobile_phone,
            r.image == request.image,
            r.image_path == request.image_path,
            r.created_by == existing.created_by,
            r.created_on == existing.created_on,
            r.modified_by == Some(0i64),
            r.modified_on is Some,
            r.is_delete == request.is_delete.unwrap_or(false),
            r.deleted_by == if request.is_delete.unwrap_or(false) {
                Some(0i64)
            } else {
                None::<i64>
            },
            r.deleted_on == if request.is_delete.unwrap_or(false) {
                r.modified_on
            } else {
                None::<i64>
            },
    {
        let now = current_timestamp();
        MBiodata::from_update_request_at(request, existing, now)
    }
}

/// The columns of the biodata table that a filter or sort may name.
pub open spec fn spec_biodata_columns() -> Seq<Seq<char>> {
    seq![
        "id"@,
        "fullname"@,
        "mobile_phone"@,
        "image"@,
        "image_path"@,
        "created_by"@,
        "created_on"@,
        "modified_by"@,
        "modified_on"@,
        "deleted_by"@,
        "deleted_on"@,
        "is_delete"@,
    ]
}

/// Builds the column allow-list of the biodata table.
pub fn biodata_columns() -> (r: Vec<String>)
    ensures
        r.deep_view() == spec_biodata_columns(),
{
    let mut cols: Vec<String> = Vec::new();
    cols.push(String::from_str("id"));
    cols.push(String::from_str("fullname"));
    cols.push(String::from_str("mobile_phone"));
    cols.push(String::from_str("image"));
    cols.push(String::from_str("image_path"));
    cols.push(String::from_str("created_by"));
    cols.push(String::from_str("created_on"));
    cols.push(String::from_str("modified_by"));
    cols.push(String::from_str("modified_on"));
    cols.push(String::from_str("deleted_by"));
    cols.push(String::from_str("deleted_on"));
    cols.push(String::from_str("is_delete"));
    proof {
        assert(cols.deep_view() =~= spec_biodata_columns());
    }
    cols
}

/// Builds the data and count statements of a biodata listing request.
///
/// Filters and sorts naming a column outside the table's allow-list are
/// ignored before anything reaches the clause compilers; the free-text
/// search runs over the `fullname` column. `page` and `size` must already
/// be clamped.
pub fn pagination_statements(
    filters: &Vec<Filter>,
    sorts: &Vec<Sort>,
    search: &str,
    page: i64,
    size: i64,
) -> (r: (String, String))
    requires
        0 <= page,
        1 <= size,
        size as int * page as int <= i64::MAX,
    ensures
        r.0@ == spec_data_statement(
            "m_biodata"@,
            "fullname"@,
            spec_retained_filters(filters@, spec_biodata_columns()),
            spec_retained_sorts(sorts@, spec_biodata_columns()),
            search@,
            page as int,
            size as int,
        ),
        r.1@ == spec_count_statement(
            "m_biodata"@,
            "fullname"@,
            spec_retained_filters(filters@, spec_biodata_columns()),
            search@,
        ),
{
    let cols = biodata_columns();
    let known_filters = retain_known_filters(filters, &cols);
    let known_sorts = retain_known_sorts(sorts, &cols);
    build_listing_statements(
        "m_biodata",
        "fullname",
        &known_filters,
        &known_sorts,
        search,
        page,
        size,
    )
}

} // verus!
