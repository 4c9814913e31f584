//! One request builder for each operation of the server.
use vstd::prelude::*;

use crate::json::{Json, JsonValue, entries_view, lemma_object_view, set_super_user, takes_flag};
use crate::options::{
    AddNodeOptions,
    AttributeDropOptions,
    CreateTableOptions,
    DataLoadOptions,
    DeleteFilesBeforeOptions,
    DropRoleOptions,
    ExportLocalOptions,
    FileLoadOptions,
    GetJobOptions,
    HashSearchOptions,
    JobsByDateOptions,
    LicenseOptions,
    LogsOptions,
    QueryOptions,
    RemoveNodeOptions,
    RowDeleteOptions,
    S3DetailsOptions,
    SchemaOption,
    SystemInformationOptions,
    TableOptions,
    UpdateNodeOptions,
    UrlLoadOptions,
    UserAddOptions,
    UserAlterOptions,
    UserDropOptions,
    ValueSearchOptions,
};
use crate::request::{ObjectFields, Operation, build_request, operation_entry, request_value};
use crate::roles::{AddRoleOptions, AlterRoleOptions};

verus! {

broadcast use lemma_object_view;

/// The request for an operation that takes no options.
pub fn bare_request(op: Operation) -> (r: Json)
    ensures
        r@ == request_value(op, Seq::empty()),
{
    let entries = vec![("operation".to_owned(), Json::Str(op.name().to_owned()))];
    assert(entries_view(entries@) =~= seq![operation_entry(op)] + Seq::<(Seq<char>, JsonValue)>::empty());
    Json::Object(entries)
}

/// Runs an SQL statement.
pub fn query(sql_query: String) -> (r: Json)
    ensures
        r@ == request_value(Operation::Sql, seq![("sql"@, JsonValue::Str(sql_query@))]),
{
    let entries = vec![
        ("operation".to_owned(), Json::Str(Operation::Sql.name().to_owned())),
        ("sql".to_owned(), Json::Str(sql_query)),
    ];
    assert(entries_view(entries@) =~= seq![operation_entry(Operation::Sql)] + seq![
        ("sql"@, JsonValue::Str(sql_query@)),
    ]);
    Json::Object(entries)
}

/// Adds a role; its `super_user` flag is set inside the permission tree.
pub fn add_role(options: AddRoleOptions) -> (r: Json)
    requires
        takes_flag(options.permission@),
    ensures
        r@ == request_value(Operation::AddRole, options.request_fields()),
{
    let ghost fields = options.request_fields();
    let entries = vec![
        ("operation".to_owned(), Json::Str(Operation::AddRole.name().to_owned())),
        ("role".to_owned(), Json::Str(options.role)),
        ("permission".to_owned(), set_super_user(options.permission, options.super_user)),
    ];
    assert(entries_view(entries@) =~= seq![operation_entry(Operation::AddRole)] + fields);
    Json::Object(entries)
}

/// Changes a role; its `super_user` flag is set inside the permission tree.
pub fn alter_role(options: AlterRoleOptions) -> (r: Json)
    requires
        takes_flag(options.permission@),
    ensures
        r@ == request_value(Operation::AlterRole, options.request_fields()),
{
    let ghost fields = options.request_fields();
    let entries = vec![
        ("operation".to_owned(), Json::Str(Operation::AlterRole.name().to_owned())),
        ("id".to_owned(), Json::Str(options.id)),
        ("role".to_owned(), Json::Str(options.role)),
        ("permission".to_owned(), set_super_user(options.permission, options.super_user)),
    ];
    assert(entries_view(entries@) =~= seq![operation_entry(Operation::AlterRole)] + fields);
    Json::Object(entries)
}

/// Creates a schema.
pub fn create_schema(options: SchemaOption) -> (r: Json)
    ensures
        r@ == request_value(Operation::CreateSchema, options.fields()),
{
    build_request(Operation::CreateSchema, options)
}

/// Drops a schema and all its tables.
pub fn drop_schema(options: SchemaOption) -> (r: Json)
    ensures
        r@ == request_value(Operation::DropSchema, options.fields()),
{
    build_request(Operation::DropSchema, options)
}

/// Describes the tables of a schema.
pub fn describe_schema(options: SchemaOption) -> (r: Json)
    ensures
        r@ == request_value(Operation::DescribeSchema, options.fields()),
{
    build_request(Operation::DescribeSchema, options)
}

/// Describes every schema and table.
pub fn describe_all() -> (r: Json)
    ensures
        r@ == request_value(Operation::DescribeAll, Seq::empty()),
{
    bare_request(Operation::DescribeAll)
}

/// Creates a table.
pub fn create_table(options: CreateTableOptions) -> (r: Json)
    ensures
        r@ == request_value(Operation::CreateTable, options.fields()),
{
    build_request(Operation::CreateTable, options)
}

/// Describes a table.
pub fn describe_table(options: TableOptions) -> (r: Json)
    ensures
        r@ == request_value(Operation::DescribeTable, options.fields()),
{
    build_request(Operation::DescribeTable, options)
}

/// Drops a table.
pub fn drop_table(options: TableOptions) -> (r: Json)
    ensures
        r@ == request_value(Operation::DropTable, options.fields()),
{
    build_request(Operation::DropTable, options)
}

/// Drops an attribute of a table.
pub fn drop_attribute(options: AttributeDropOptions) -> (r: Json)
    ensures
        r@ == request_value(Operation::DropAttribute, options.fields()),
{
    build_request(Operation::DropAttribute, options)
}

/// Inserts records into a table.
pub fn insert(options: QueryOptions) -> (r: Json)
    ensures
        r@ == request_value(Operation::Insert, options.fields()),
{
    build_request(Operation::Insert, options)
}

/// Updates records of a table.
pub fn update(options: QueryOptions) -> (r: Json)
    ensures
        r@ == request_value(Operation::Update, options.fields()),
{
    build_request(Operation::Update, options)
}

/// Deletes records of a table by hash value.
pub fn delete(options: RowDeleteOptions) -> (r: Json)
    ensures
        r@ == request_value(Operation::Delete, options.fields()),
{
    build_request(Operation::Delete, options)
}

/// Searches a table by hash values.
pub fn search_by_hash(options: HashSearchOptions) -> (r: Json)
    ensures
        r@ == request_value(Operation::SearchByHash, options.fields()),
{
    build_request(Operation::SearchByHash, options)
}

/// Searches a table by the value of an attribute.
pub fn search_by_value(options: ValueSearchOptions) -> (r: Json)
    ensures
        r@ == request_value(Operation::SearchByValue, options.fields()),
{
    build_request(Operation::SearchByValue, options)
}

/// Loads inline CSV data into a table.
pub fn csv_data_load(options: DataLoadOptions) -> (r: Json)
    ensures
        r@ == request_value(Operation::CsvDataLoad, options.fields()),
{
    build_request(Operation::CsvDataLoad, options)
}

/// Loads CSV data from a URL into a table.
pub fn csv_url_load(options: UrlLoadOptions) -> (r: Json)
    ensures
        r@ == request_value(Operation::CsvUrlLoad, options.fields()),
{
    build_request(Operation::CsvUrlLoad, options)
}

/// Loads CSV data from a file on the server into a table.
pub fn csv_file_load(options: FileLoadOptions) -> (r: Json)
    ensures
        r@ == request_value(Operation::CsvFileLoad, options.fields()),
{
    build_request(Operation::CsvFileLoad, options)
}

/// Lists the users.
pub fn list_users() -> (r: Json)
    ensures
        r@ == request_value(Operation::ListUsers, Seq::empty()),
{
    bare_request(Operation::ListUsers)
}

/// Describes the user making the request.
pub fn user_info() -> (r: Json)
    ensures
        r@ == request_value(Operation::UserInfo, Seq::empty()),
{
    bare_request(Operation::UserInfo)
}

/// Adds a user.
pub fn add_user(options: UserAddOptions) -> (r: Json)
    ensures
        r@ == request_value(Operation::AddUser, options.fields()),
{
    build_request(Operation::AddUser, options)
}

/// Changes a user.
pub fn alter_user(options: UserAlterOptions) -> (r: Json)
    ensures
        r@ == request_value(Operation::AlterUser, options.fields()),
{
    build_request(Operation::AlterUser, options)
}

/// Drops a user.
pub fn drop_user(options: UserDropOptions) -> (r: Json)
    ensures
        r@ == request_value(Operation::DropUser, options.fields()),
{
    build_request(Operation::DropUser, options)
}

/// Lists the roles.
pub fn list_roles() -> (r: Json)
    ensures
        r@ == request_value(Operation::ListRoles, Seq::empty()),
{
    bare_request(Operation::ListRoles)
}

/// Drops a role.
pub fn drop_role(options: DropRoleOptions) -> (r: Json)
    ensures
        r@ == request_value(Operation::DropRole, options.fields()),
{
    build_request(Operation::DropRole, options)
}

/// Reports on the server's system.
pub fn system_information(options: SystemInformationOptions) -> (r: Json)
    ensures
        r@ == request_value(Operation::SystemInformation, options.fields()),
{
    build_request(Operation::SystemInformation, options)
}

/// Deletes the records of a table written before a date.
pub fn delete_files_before(options: DeleteFilesBeforeOptions) -> (r: Json)
    ensures
        r@ == request_value(Operation::DeleteFilesBefore, options.fields()),
{
    build_request(Operation::DeleteFilesBefore, options)
}

/// Exports a search's results to S3.
pub fn export_to_s3(options: S3DetailsOptions) -> (r: Json)
    ensures
        r@ == request_value(Operation::ExportToS3, options.fields()),
{
    build_request(Operation::ExportToS3, options)
}

/// Exports a search's results to a path on the server.
pub fn export_to_local(options: ExportLocalOptions) -> (r: Json)
    ensures
        r@ == request_value(Operation::ExportLocal, options.fields()),
{
    build_request(Operation::ExportLocal, options)
}

/// Reads the server's log.
pub fn read_logs(options: LogsOptions) -> (r: Json)
    ensures
        r@ == request_value(Operation::ReadLog, options.fields()),
{
    build_request(Operation::ReadLog, options)
}

/// Reports on a job.
pub fn get_job(options: GetJobOptions) -> (r: Json)
    ensures
        r@ == request_value(Operation::GetJob, options.fields()),
{
    build_request(Operation::GetJob, options)
}

/// Lists the jobs started between two dates.
pub fn search_jobs_by_start_date(options: JobsByDateOptions) -> (r: Json)
    ensures
        r@ == request_value(Operation::SearchJobsByStartDate, options.fields()),
{
    build_request(Operation::SearchJobsByStartDate, options)
}

/// Reports the server's registration.
pub fn registration_info() -> (r: Json)
    ensures
        r@ == request_value(Operation::RegistrationInfo, Seq::empty()),
{
    bare_request(Operation::RegistrationInfo)
}

/// Reports the fingerprint a license is issued for.
pub fn get_fingerprint() -> (r: Json)
    ensures
        r@ == request_value(Operation::GetFingerprint, Seq::empty()),
{
    bare_request(Operation::GetFingerprint)
}

/// Sets the server's license.
pub fn set_license(options: LicenseOptions) -> (r: Json)
    ensures
        r@ == request_value(Operation::SetLicense, options.fields()),
{
    build_request(Operation::SetLicense, options)
}

/// Adds a node to the cluster.
pub fn add_node(options: AddNodeOptions) -> (r: Json)
    ensures
        r@ == request_value(Operation::AddNode, options.fields()),
{
    build_request(Operation::AddNode, options)
}

/// Updates a node of the cluster.
pub fn update_node(options: UpdateNodeOptions) -> (r: Json)
    ensures
        r@ == request_value(Operation::UpdateNode, options.fields()),
{
    build_request(Operation::UpdateNode, options)
}

/// Removes a node from the cluster.
pub fn remove_node(options: RemoveNodeOptions) -> (r: Json)
    ensures
        r@ == request_value(Operation::RemoveNode, options.fields()),
{
    build_request(Operation::RemoveNode, options)
}

/// Reports the cluster's status.
pub fn cluster_status() -> (r: Json)
    ensures
        r@ == request_value(Operation::ClusterStatus, Seq::empty()),
{
    bare_request(Operation::ClusterStatus)
}

} // verus!
