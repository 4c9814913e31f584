//! The request envelope: an object whose first entry names the operation.
use vstd::prelude::*;

use crate::fields::key_is;
use crate::json::{Entry, Json, JsonValue, entries_view, has_key, holds_entry, lemma_object_view};

verus! {

broadcast use lemma_object_view;

/// An operation of the server, as the `operation` entry of a request names it.
#[derive(Clone, Copy, Debug, PartialEq, Eq)]
pub enum Operation {
    CreateSchema,
    DropSchema,
    DescribeSchema,
    DescribeAll,
    CreateTable,
    DescribeTable,
    DropTable,
    DropAttribute,
    Sql,
    Insert,
    Update,
    Delete,
    SearchByHash,
    SearchByValue,
    CsvDataLoad,
    CsvUrlLoad,
    CsvFileLoad,
    ListUsers,
    UserInfo,
    AddUser,
    AlterUser,
    DropUser,
    ListRoles,
    AddRole,
    AlterRole,
    DropRole,
    SystemInformation,
    DeleteFilesBefore,
    ExportToS3,
    ExportLocal,
    ReadLog,
    GetJob,
    SearchJobsByStartDate,
    RegistrationInfo,
    GetFingerprint,
    SetLicense,
    AddNode,
    UpdateNode,
    RemoveNode,
    ClusterStatus,
}

impl Operation {
    /// The name under which the server knows this operation.
    pub open spec fn spec_name(self) -> Seq<char> {
        match self {
            Operation::CreateSchema => "create_schema"@,
            Operation::DropSchema => "drop_schema"@,
            Operation::DescribeSchema => "describe_schema"@,
            Operation::DescribeAll => "describe_all"@,
            Operation::CreateTable => "create_table"@,
            Operation::DescribeTable => "describe_table"@,
            Operation::DropTable => "drop_table"@,
            Operation::DropAttribute => "drop_attribute"@,
            Operation::Sql => "sql"@,
            Operation::Insert => "insert"@,
            Operation::Update => "update"@,
            Operation::Delete => "delete"@,
            Operation::SearchByHash => "search_by_hash"@,
            Operation::SearchByValue => "search_by_value"@,
            Operation::CsvDataLoad => "csv_data_load"@,
            Operation::CsvUrlLoad => "csv_url_load"@,
            Operation::CsvFileLoad => "csv_file_load"@,
            Operation::ListUsers => "list_users"@,
            Operation::UserInfo => "user_info"@,
            Operation::AddUser => "add_user"@,
            Operation::AlterUser => "alter_user"@,
            Operation::DropUser => "drop_user"@,
            Operation::ListRoles => "list_roles"@,
            Operation::AddRole => "add_role"@,
            Operation::AlterRole => "alter_role"@,
            Operation::DropRole => "drop_role"@,
            Operation::SystemInformation => "system_information"@,
            Operation::DeleteFilesBefore => "delete_files_before"@,
            Operation::ExportToS3 => "export_to_s3"@,
            Operation::ExportLocal => "export_local"@,
            Operation::ReadLog => "read_log"@,
            Operation::GetJob => "get_job"@,
            Operation::SearchJobsByStartDate => "search_jobs_by_start_date"@,
            Operation::RegistrationInfo => "registration_info"@,
            Operation::GetFingerprint => "get_fingerprint"@,
            Operation::SetLicense => "set_license"@,
            Operation::AddNode => "add_node"@,
            Operation::UpdateNode => "update_node"@,
            Operation::RemoveNode => "remove_node"@,
            Operation::ClusterStatus => "cluster_status"@,
        }
    }

    /// The name under which the server knows this operation.
    pub fn name(&self) -> (r: &'static str)
        ensures
            r@ == self.spec_name(),
    {
        match self {
            Operation::CreateSchema => "create_schema",
            Operation::DropSchema => "drop_schema",
            Operation::DescribeSchema => "describe_schema",
            Operation::DescribeAll => "describe_all",
            Operation::CreateTable => "create_table",
            Operation::DescribeTable => "describe_table",
            Operation::DropTable => "drop_table",
            Operation::DropAttribute => "drop_attribute",
            Operation::Sql => "sql",
            Operation::Insert => "insert",
            Operation::Update => "update",
            Operation::Delete => "delete",
            Operation::SearchByHash => "search_by_hash",
            Operation::SearchByValue => "search_by_value",
            Operation::CsvDataLoad => "csv_data_load",
            Operation::CsvUrlLoad => "csv_url_load",
            Operation::CsvFileLoad => "csv_file_load",
            Operation::ListUsers => "list_users",
            Operation::UserInfo => "user_info",
            Operation::AddUser => "add_user",
            Operation::AlterUser => "alter_user",
            Operation::DropUser => "drop_user",
            Operation::ListRoles => "list_roles",
            Operation::AddRole => "add_role",
            Operation::AlterRole => "alter_role",
            Operation::DropRole => "drop_role",
            Operation::SystemInformation => "system_information",
            Operation::DeleteFilesBefore => "delete_files_before",
            Operation::ExportToS3 => "export_to_s3",
            Operation::ExportLocal => "export_local",
            Operation::ReadLog => "read_log",
            Operation::GetJob => "get_job",
            Operation::SearchJobsByStartDate => "search_jobs_by_start_date",
            Operation::RegistrationInfo => "registration_info",
            Operation::GetFingerprint => "get_fingerprint",
            Operation::SetLicense => "set_license",
            Operation::AddNode => "add_node",
            Operation::UpdateNode => "update_node",
            Operation::RemoveNode => "remove_node",
            Operation::ClusterStatus => "cluster_status",
        }
    }
}

/// A value written as the entries of a JSON object.
pub trait ObjectFields: Sized {
    /// The entries this value writes, in order.
    spec fn fields(&self) -> Seq<Entry>;

    /// The entries this value writes.
    fn into_fields(self) -> (r: Vec<(String, Json)>)
        ensures
            entries_view(r@) == self.fields(),
    ;

    /// The value that writes exactly `entries`, if there is one.
    fn from_fields(entries: Vec<(String, Json)>) -> (r: Option<Self>)
        ensures
            r is Some <==> exists|o: Self| #[trigger] o.fields() == entries_view(entries@),
            r matches Some(o) ==> o.fields() == entries_view(entries@),
    ;
}

/// Options whose entries follow the `operation` entry of a request.
pub trait RequestFields: ObjectFields {
    /// No options write an entry under `operation`: that key belongs to the
    /// envelope.
    proof fn lemma_no_operation_key(&self)
        ensures
            !has_key(self.fields(), "operation"@),
    ;
}

/// The object that `value` writes.
pub fn object<T: ObjectFields>(value: T) -> (r: Json)
    ensures
        r@ == JsonValue::Object(value.fields()),
{
    Json::Object(value.into_fields())
}

/// The value that writes exactly the entries of the object `v`, if there is
/// one.
pub fn read_object<T: ObjectFields>(v: Json) -> (r: Option<T>)
    ensures
        r is Some <==> exists|o: T| JsonValue::Object(#[trigger] o.fields()) == v@,
        r matches Some(o) ==> JsonValue::Object(o.fields()) == v@,
{
    match v {
        Json::Object(entries) => T::from_fields(entries),
        _ => None,
    }
}

/// The entry that names the operation.
pub open spec fn operation_entry(op: Operation) -> Entry {
    ("operation"@, JsonValue::Str(op.spec_name()))
}

/// The request for `op` with the given operation-specific entries.
pub open spec fn request_value(op: Operation, fields: Seq<Entry>) -> JsonValue {
    JsonValue::Object(seq![operation_entry(op)] + fields)
}

/// The operation-specific entries of a request for `op`, if `request` is one.
pub open spec fn request_fields(op: Operation, request: JsonValue) -> Option<Seq<Entry>> {
    match request {
        JsonValue::Object(entries) => {
            if entries.len() > 0 && entries[0] == operation_entry(op) {
                Some(entries.drop_first())
            } else {
                None
            }
        },
        _ => None,
    }
}

/// The entries of a request for `op` that a value of `T` writes, if
/// `request` is one.
pub open spec fn parsed_fields<T: ObjectFields>(op: Operation, request: JsonValue) -> Option<
    Seq<Entry>,
> {
    match request_fields(op, request) {
        Some(f) => {
            if exists|o: T| #[trigger] o.fields() == f {
                Some(f)
            } else {
                None
            }
        },
        None => None,
    }
}

/// The request for `op` built from `options`.
pub fn build_request<T: RequestFields>(op: Operation, options: T) -> (r: Json)
    ensures
        r@ == request_value(op, options.fields()),
{
    let mut entries: Vec<(String, Json)> = Vec::new();
    entries.push(("operation".to_owned(), Json::Str(op.name().to_owned())));
    let mut rest = options.into_fields();
    entries.append(&mut rest);
    assert(entries_view(entries@) =~= seq![operation_entry(op)] + options.fields());
    Json::Object(entries)
}

/// The operation-specific entries of a request for `op`, if `request` is one.
pub fn open_request(op: Operation, request: Json) -> (r: Option<Vec<(String, Json)>>)
    ensures
        match r {
            Some(entries) => request_fields(op, request@) == Some(entries_view(entries@)),
            None => request_fields(op, request@) is None,
        },
{
    match request {
        Json::Object(mut entries) => {
            let ghost whole = entries_view(entries@);
            if !key_is(&entries, 0, "operation") {
                return None;
            }
            let name = op.name().to_owned();
            let named = match &entries[0].1 {
                Json::Str(s) => *s == name,
                _ => false,
            };
            if !named {
                return None;
            }
            assert(whole[0] == operation_entry(op));
            entries.remove(0);
            assert(entries_view(entries@) =~= whole.drop_first());
            Some(entries)
        },
        _ => None,
    }
}

/// Reads back the options of a request for `op`.
pub fn parse_request<T: RequestFields>(op: Operation, request: Json) -> (r: Option<T>)
    ensures
        r is Some <==> parsed_fields::<T>(op, request@) is Some,
        r matches Some(o) ==> parsed_fields::<T>(op, request@) == Some(o.fields()),
{
    match open_request(op, request) {
        Some(entries) => T::from_fields(entries),
        None => None,
    }
}

/// A request built for `op` opens to the entries it was built from.
pub proof fn lemma_request_fields(op: Operation, fields: Seq<Entry>)
    ensures
        request_fields(op, request_value(op, fields)) == Some(fields),
{
    assert((seq![operation_entry(op)] + fields).drop_first() =~= fields);
}

/// The first entry of every request names its operation, and no other entry
/// is under `operation`.
pub proof fn lemma_operation_named<T: RequestFields>(op: Operation, options: T)
    ensures
        request_value(op, options.fields()) matches JsonValue::Object(entries)
            && entries[0] == operation_entry(op)
            && holds_entry(entries, "operation"@, JsonValue::Str(op.spec_name())),
{
    options.lemma_no_operation_key();
    let entries = seq![operation_entry(op)] + options.fields();
    assert(entries[0] == operation_entry(op));
    assert forall|i: int| 0 <= i < entries.len() && #[trigger] entries[i].0 == "operation"@ implies entries[i].1
        == JsonValue::Str(op.spec_name()) by {
        if i > 0 {
            assert(entries[i] == options.fields()[i - 1]);
        }
    }
}

/// Reading back a request built from `options` gives the entries that
/// `options` writes: a value with the same fields, field for field.
pub proof fn lemma_round_trip<T: RequestFields>(op: Operation, options: T)
    ensures
        parsed_fields::<T>(op, request_value(op, options.fields())) == Some(options.fields()),
{
    lemma_request_fields(op, options.fields());
    assert(exists|o: T| #[trigger] o.fields() == options.fields());
}

} // verus!
