use harperdb_sdk_rust::operations;
use harperdb_sdk_rust::{
    AttributeDropOptions, CreateTableOptions, DataLoadOptions, FileLoadOptions, GetJobOptions,
    HashSearchOptions, JobsByDateOptions, Json, LogsOptions, QueryOptions, RowDeleteOptions,
    SchemaOption, SystemInformationOptions, TableOptions, UrlLoadOptions, UserAddOptions,
    UserAlterOptions, UserDropOptions, ValueSearchOptions,
};

fn s(text: &str) -> Json {
    Json::Str(text.to_string())
}

fn obj(entries: Vec<(&str, Json)>) -> Json {
    Json::Object(entries.into_iter().map(|(k, v)| (k.to_string(), v)).collect())
}

fn strs(items: &[&str]) -> Json {
    Json::Array(items.iter().map(|t| s(t)).collect())
}

#[test]
fn create_schema_request() {
    let options = SchemaOption { schema: "create_schema_test".to_string() };
    assert_eq!(
        operations::create_schema(options),
        obj(vec![("operation", s("create_schema")), ("schema", s("create_schema_test"))])
    );
}

#[test]
fn describe_schema_request() {
    let options = SchemaOption { schema: "describe_schema_test".to_string() };
    assert_eq!(
        operations::describe_schema(options),
        obj(vec![("operation", s("describe_schema")), ("schema", s("describe_schema_test"))])
    );
}

#[test]
fn drop_schema_request() {
    let options = SchemaOption { schema: "drop_schema_test".to_string() };
    assert_eq!(
        operations::drop_schema(options),
        obj(vec![("operation", s("drop_schema")), ("schema", s("drop_schema_test"))])
    );
}

#[test]
fn describe_all_request() {
    assert_eq!(operations::describe_all(), obj(vec![("operation", s("describe_all"))]));
}

#[test]
fn create_table_request() {
    let options = CreateTableOptions {
        table: "test_table".to_string(),
        schema: "testing".to_string(),
        hash_attribute: "id".to_string(),
    };
    assert_eq!(
        operations::create_table(options),
        obj(vec![
            ("operation", s("create_table")),
            ("table", s("test_table")),
            ("schema", s("testing")),
            ("hash_attribute", s("id")),
        ])
    );
}

#[test]
fn describe_table_request() {
    let options = TableOptions { table: "describe_table_test".to_string(), schema: "testing".to_string() };
    assert_eq!(
        operations::describe_table(options),
        obj(vec![
            ("operation", s("describe_table")),
            ("table", s("describe_table_test")),
            ("schema", s("testing")),
        ])
    );
}

#[test]
fn drop_table_request() {
    let options = TableOptions { table: "drop_table_test".to_string(), schema: "testing".to_string() };
    assert_eq!(
        operations::drop_table(options),
        obj(vec![("operation", s("drop_table")), ("table", s("drop_table_test")), ("schema", s("testing"))])
    );
}

#[test]
fn drop_attribute_request() {
    let options = AttributeDropOptions {
        table: "drop_attribute_table_test".to_string(),
        schema: "testing".to_string(),
        attribute: "breed".to_string(),
    };
    assert_eq!(
        operations::drop_attribute(options),
        obj(vec![
            ("operation", s("drop_attribute")),
            ("table", s("drop_attribute_table_test")),
            ("schema", s("testing")),
            ("attribute", s("breed")),
        ])
    );
}

#[test]
fn insert_request() {
    let record = obj(vec![
        ("name", s("Mike")),
        ("breed", s("Pit Bull")),
        ("id", s("insertrecord1234")),
        ("age", Json::PosInt(5)),
    ]);
    let options = QueryOptions {
        table: "crud_table_test".to_string(),
        schema: "testing".to_string(),
        records: Json::Array(vec![record]),
    };
    let expected_record = obj(vec![
        ("name", s("Mike")),
        ("breed", s("Pit Bull")),
        ("id", s("insertrecord1234")),
        ("age", Json::PosInt(5)),
    ]);
    assert_eq!(
        operations::insert(options),
        obj(vec![
            ("operation", s("insert")),
            ("table", s("crud_table_test")),
            ("schema", s("testing")),
            ("records", Json::Array(vec![expected_record])),
        ])
    );
}

#[test]
fn update_request() {
    let options = QueryOptions {
        table: "crud_table_test".to_string(),
        schema: "testing".to_string(),
        records: Json::Array(vec![obj(vec![("id", s("updaterecord1234")), ("age", Json::PosInt(100))])]),
    };
    assert_eq!(
        operations::update(options),
        obj(vec![
            ("operation", s("update")),
            ("table", s("crud_table_test")),
            ("schema", s("testing")),
            ("records", Json::Array(vec![obj(vec![("id", s("updaterecord1234")), ("age", Json::PosInt(100))])])),
        ])
    );
}

#[test]
fn delete_request() {
    let options = RowDeleteOptions {
        table: "crud_table_test".to_string(),
        schema: "testing".to_string(),
        hash_values: vec!["deleterecord1234".to_string()],
    };
    assert_eq!(
        operations::delete(options),
        obj(vec![
            ("operation", s("delete")),
            ("table", s("crud_table_test")),
            ("schema", s("testing")),
            ("hash_values", strs(&["deleterecord1234"])),
        ])
    );
}

#[test]
fn search_by_hash_request() {
    let options = HashSearchOptions {
        table: "crud_table_test".to_string(),
        schema: "testing".to_string(),
        hash_values: vec!["searchbyhash1234".to_string()],
        get_attributes: vec!["name".to_string()],
    };
    assert_eq!(
        operations::search_by_hash(options),
        obj(vec![
            ("operation", s("search_by_hash")),
            ("table", s("crud_table_test")),
            ("schema", s("testing")),
            ("hash_values", strs(&["searchbyhash1234"])),
            ("get_attributes", strs(&["name"])),
        ])
    );
}

#[test]
fn search_by_value_request() {
    let options = ValueSearchOptions {
        table: "crud_table_test".to_string(),
        schema: "testing".to_string(),
        search_attribute: "name".to_string(),
        search_value: "Tom*".to_string(),
        get_attributes: vec!["name".to_string()],
    };
    assert_eq!(
        operations::search_by_value(options),
        obj(vec![
            ("operation", s("search_by_value")),
            ("table", s("crud_table_test")),
            ("schema", s("testing")),
            ("search_attribute", s("name")),
            ("search_value", s("Tom*")),
            ("get_attributes", strs(&["name"])),
        ])
    );
}

#[test]
fn csv_data_load_request() {
    let options = DataLoadOptions {
        table: "crud_table_test".to_string(),
        schema: "testing".to_string(),
        action: "insert".to_string(),
        data: "id,name\n1,Tom\n".to_string(),
    };
    assert_eq!(
        operations::csv_data_load(options),
        obj(vec![
            ("operation", s("csv_data_load")),
            ("table", s("crud_table_test")),
            ("schema", s("testing")),
            ("action", s("insert")),
            ("data", s("id,name\n1,Tom\n")),
        ])
    );
}

#[test]
fn csv_url_load_request() {
    let options = UrlLoadOptions {
        table: "crud_table_test".to_string(),
        schema: "testing".to_string(),
        action: "insert".to_string(),
        csv_url: "https://s3.amazonaws.com/complimentarydata/breeds.csv".to_string(),
    };
    assert_eq!(
        operations::csv_url_load(options),
        obj(vec![
            ("operation", s("csv_url_load")),
            ("table", s("crud_table_test")),
            ("schema", s("testing")),
            ("action", s("insert")),
            ("csv_url", s("https://s3.amazonaws.com/complimentarydata/breeds.csv")),
        ])
    );
}

#[test]
fn csv_file_load_request() {
    let options = FileLoadOptions {
        table: "crud_table_test".to_string(),
        schema: "testing".to_string(),
        action: "insert".to_string(),
        file_path: "/tmp/breeds.csv".to_string(),
    };
    assert_eq!(
        operations::csv_file_load(options),
        obj(vec![
            ("operation", s("csv_file_load")),
            ("table", s("crud_table_test")),
            ("schema", s("testing")),
            ("action", s("insert")),
            ("file_path", s("/tmp/breeds.csv")),
        ])
    );
}

#[test]
fn user_requests_without_options() {
    assert_eq!(operations::list_users(), obj(vec![("operation", s("list_users"))]));
    assert_eq!(operations::user_info(), obj(vec![("operation", s("user_info"))]));
    assert_eq!(operations::list_roles(), obj(vec![("operation", s("list_roles"))]));
}

#[test]
fn add_user_request() {
    let options = UserAddOptions {
        role: "c0a90733-1fc3-48df-a16b-d7c3011b63b2".to_string(),
        username: "created_hdb_user".to_string(),
        password: "secret".to_string(),
        active: true,
    };
    assert_eq!(
        operations::add_user(options),
        obj(vec![
            ("operation", s("add_user")),
            ("role", s("c0a90733-1fc3-48df-a16b-d7c3011b63b2")),
            ("username", s("created_hdb_user")),
            ("password", s("secret")),
            ("active", Json::Bool(true)),
        ])
    );
}

#[test]
fn alter_user_request() {
    let options = UserAlterOptions {
        role: Some("c0a90733-1fc3-48df-a16b-d7c3011b63b2".to_string()),
        username: "alter_hdb_user".to_string(),
        password: Some("secret2".to_string()),
        active: true,
    };
    assert_eq!(
        operations::alter_user(options),
        obj(vec![
            ("operation", s("alter_user")),
            ("role", s("c0a90733-1fc3-48df-a16b-d7c3011b63b2")),
            ("username", s("alter_hdb_user")),
            ("password", s("secret2")),
            ("active", Json::Bool(true)),
        ])
    );
}

#[test]
fn drop_user_request() {
    let options = UserDropOptions { username: "delete_hdb_user".to_string() };
    assert_eq!(
        operations::drop_user(options),
        obj(vec![("operation", s("drop_user")), ("username", s("delete_hdb_user"))])
    );
}

#[test]
fn system_information_request() {
    let options = SystemInformationOptions { attributes: Some(vec!["cpu".to_string()]) };
    assert_eq!(
        operations::system_information(options),
        obj(vec![("operation", s("system_information")), ("attributes", strs(&["cpu"]))])
    );
}

#[test]
fn read_logs_request() {
    let options = LogsOptions { limit: Some(2), start: Some(0), from: None, until: None, order: None };
    assert_eq!(
        operations::read_logs(options),
        obj(vec![
            ("operation", s("read_log")),
            ("limit", Json::PosInt(2)),
            ("start", Json::PosInt(0)),
            ("from", Json::Null),
            ("until", Json::Null),
            ("order", Json::Null),
        ])
    );
}

#[test]
fn search_jobs_by_start_date_request() {
    let options = JobsByDateOptions { from_date: "2020-01-01".to_string(), to_date: "2020-09-30".to_string() };
    assert_eq!(
        operations::search_jobs_by_start_date(options),
        obj(vec![
            ("operation", s("search_jobs_by_start_date")),
            ("from_date", s("2020-01-01")),
            ("to_date", s("2020-09-30")),
        ])
    );
}

#[test]
fn get_job_request() {
    let options = GetJobOptions { id: "4022737a-1db1-463c-a96c-0f58fcc21f96".to_string() };
    assert_eq!(
        operations::get_job(options),
        obj(vec![("operation", s("get_job")), ("id", s("4022737a-1db1-463c-a96c-0f58fcc21f96"))])
    );
}

#[test]
fn query_request() {
    assert_eq!(
        operations::query("SELECT * FROM testing.crud_table_test limit 2;".to_string()),
        obj(vec![
            ("operation", s("sql")),
            ("sql", s("SELECT * FROM testing.crud_table_test limit 2;")),
        ])
    );
}
