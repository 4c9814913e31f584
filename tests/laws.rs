use harperdb_sdk_rust::json::set_super_user;
use harperdb_sdk_rust::operations;
use harperdb_sdk_rust::request::{build_request, parse_request};
use harperdb_sdk_rust::roles::{parse_add_role, parse_alter_role, take_super_user};
use harperdb_sdk_rust::{
    AddNodeOptions, AddRoleOptions, AlterRoleOptions, DeleteFilesBeforeOptions, DropRoleOptions,
    ExportLocalOptions, Json, LicenseOptions, LogsOptions, Operation, QueryOptions,
    RemoveNodeOptions, S3Auth, S3DetailsOptions, SchemaOption, SearchOperation,
    SystemInformationOptions, TableOptions, UpdateNodeOptions, UserAlterOptions,
};

fn s(text: &str) -> Json {
    Json::Str(text.to_string())
}

fn obj(entries: Vec<(&str, Json)>) -> Json {
    Json::Object(entries.into_iter().map(|(k, v)| (k.to_string(), v)).collect())
}

fn shop_permission() -> Json {
    obj(vec![(
        "shop",
        obj(vec![("tables", obj(vec![("product", obj(vec![("read", Json::Bool(true))]))]))]),
    )])
}

fn search() -> SearchOperation {
    SearchOperation { operation: "sql".to_string(), sql: "SELECT * FROM dev.dog".to_string() }
}

#[test]
fn each_operation_has_its_name() {
    assert_eq!(Operation::CreateSchema.name(), "create_schema");
    assert_eq!(Operation::Sql.name(), "sql");
    assert_eq!(Operation::ReadLog.name(), "read_log");
    assert_eq!(Operation::ExportLocal.name(), "export_local");
    assert_eq!(Operation::UpdateNode.name(), "update_node");
    assert_eq!(Operation::SearchJobsByStartDate.name(), "search_jobs_by_start_date");
}

#[test]
fn add_role_sets_flag_in_permission() {
    let options = AddRoleOptions { role: "developer".to_string(), permission: shop_permission(), super_user: false };
    let mut expected = shop_permission();
    if let Json::Object(entries) = &mut expected {
        entries.push(("super_user".to_string(), Json::Bool(false)));
    }
    assert_eq!(
        operations::add_role(options),
        obj(vec![("operation", s("add_role")), ("role", s("developer")), ("permission", expected)])
    );
}

#[test]
fn alter_role_overwrites_flag_in_place() {
    let permission = obj(vec![("super_user", Json::Bool(false)), ("shop", obj(vec![]))]);
    let options = AlterRoleOptions {
        role: "cluster_user".to_string(),
        id: "3c5cc923-5351-4f81-91e3-01a03448e18f".to_string(),
        permission,
        super_user: true,
    };
    assert_eq!(
        operations::alter_role(options),
        obj(vec![
            ("operation", s("alter_role")),
            ("id", s("3c5cc923-5351-4f81-91e3-01a03448e18f")),
            ("role", s("cluster_user")),
            ("permission", obj(vec![("super_user", Json::Bool(true)), ("shop", obj(vec![]))])),
        ])
    );
}

#[test]
fn null_permission_takes_flag() {
    assert_eq!(set_super_user(Json::Null, true), obj(vec![("super_user", Json::Bool(true))]));
    assert_eq!(set_super_user(obj(vec![]), false), obj(vec![("super_user", Json::Bool(false))]));
}

#[test]
fn unset_log_fields_are_null() {
    let options = LogsOptions { limit: None, start: None, from: None, until: None, order: None };
    assert_eq!(
        operations::read_logs(options),
        obj(vec![
            ("operation", s("read_log")),
            ("limit", Json::Null),
            ("start", Json::Null),
            ("from", Json::Null),
            ("until", Json::Null),
            ("order", Json::Null),
        ])
    );
}

#[test]
fn unset_user_fields_are_null() {
    let options = UserAlterOptions { role: None, username: "u".to_string(), password: None, active: false };
    assert_eq!(
        operations::alter_user(options),
        obj(vec![
            ("operation", s("alter_user")),
            ("role", Json::Null),
            ("username", s("u")),
            ("password", Json::Null),
            ("active", Json::Bool(false)),
        ])
    );
    let options = SystemInformationOptions { attributes: None };
    assert_eq!(
        operations::system_information(options),
        obj(vec![("operation", s("system_information")), ("attributes", Json::Null)])
    );
}

#[test]
fn round_trip_schema() {
    let request = operations::create_schema(SchemaOption { schema: "x".to_string() });
    let back: Option<SchemaOption> = parse_request(Operation::CreateSchema, request);
    assert_eq!(back, Some(SchemaOption { schema: "x".to_string() }));
}

#[test]
fn round_trip_logs() {
    let options = LogsOptions {
        limit: Some(100),
        start: None,
        from: Some("2020-01-01".to_string()),
        until: None,
        order: Some("desc".to_string()),
    };
    let request = build_request(Operation::ReadLog, options.clone());
    assert_eq!(parse_request::<LogsOptions>(Operation::ReadLog, request), Some(options));
}

#[test]
fn round_trip_export_to_s3() {
    let auth = S3Auth {
        aws_access_key_id: "id".to_string(),
        aws_secret_access_key: "SECRET-REDACTED".to_string(),
        bucket: "bucket".to_string(),
        key: "dogs.json".to_string(),
    };
    let options = S3DetailsOptions { format: "json".to_string(), s3: auth, search_operation: search() };
    let request = operations::export_to_s3(options.clone());
    assert_eq!(parse_request::<S3DetailsOptions>(Operation::ExportToS3, request), Some(options));
}

#[test]
fn round_trip_insert_keeps_records() {
    let options = QueryOptions {
        table: "dog".to_string(),
        schema: "dev".to_string(),
        records: Json::Array(vec![obj(vec![("id", Json::PosInt(1)), ("weight", Json::Decimal("4.5".to_string()))])]),
    };
    let request = operations::insert(options);
    let back = parse_request::<QueryOptions>(Operation::Insert, request).unwrap();
    assert_eq!(back.table, "dog");
    assert_eq!(back.schema, "dev");
    assert_eq!(
        back.records,
        Json::Array(vec![obj(vec![("id", Json::PosInt(1)), ("weight", Json::Decimal("4.5".to_string()))])])
    );
}

#[test]
fn round_trip_add_role() {
    let options = AddRoleOptions { role: "developer".to_string(), permission: shop_permission(), super_user: true };
    let request = operations::add_role(options);
    let back = parse_add_role(request).unwrap();
    assert_eq!(back.role, "developer");
    assert_eq!(back.permission, shop_permission());
    assert!(back.super_user);
}

#[test]
fn round_trip_alter_role() {
    let options = AlterRoleOptions {
        role: "developer".to_string(),
        id: "r1".to_string(),
        permission: shop_permission(),
        super_user: false,
    };
    let request = operations::alter_role(options);
    let back = parse_alter_role(request).unwrap();
    assert_eq!(back.id, "r1");
    assert_eq!(back.role, "developer");
    assert_eq!(back.permission, shop_permission());
    assert!(!back.super_user);
}

#[test]
fn parse_refuses_other_operation() {
    let request = operations::drop_schema(SchemaOption { schema: "x".to_string() });
    assert_eq!(parse_request::<SchemaOption>(Operation::CreateSchema, request), None);
}

#[test]
fn parse_refuses_other_shapes() {
    let reordered = obj(vec![("operation", s("drop_table")), ("schema", s("s")), ("table", s("t"))]);
    assert_eq!(parse_request::<TableOptions>(Operation::DropTable, reordered), None);
    let not_a_string = obj(vec![("operation", s("drop_schema")), ("schema", Json::PosInt(1))]);
    assert_eq!(parse_request::<SchemaOption>(Operation::DropSchema, not_a_string), None);
    let extra = obj(vec![("operation", s("drop_schema")), ("schema", s("x")), ("y", s("z"))]);
    assert_eq!(parse_request::<SchemaOption>(Operation::DropSchema, extra), None);
    assert_eq!(parse_request::<SchemaOption>(Operation::DropSchema, Json::Null), None);
    let negative = obj(vec![
        ("operation", s("read_log")),
        ("limit", Json::NegInt(-1)),
        ("start", Json::Null),
        ("from", Json::Null),
        ("until", Json::Null),
        ("order", Json::Null),
    ]);
    assert_eq!(parse_request::<LogsOptions>(Operation::ReadLog, negative), None);
}

#[test]
fn flag_must_be_one_boolean() {
    assert_eq!(take_super_user(obj(vec![("shop", obj(vec![]))])), None);
    assert_eq!(take_super_user(obj(vec![("super_user", s("yes"))])), None);
    assert_eq!(
        take_super_user(obj(vec![("super_user", Json::Bool(true)), ("super_user", Json::Bool(false))])),
        None
    );
    assert_eq!(take_super_user(Json::Null), None);
    assert_eq!(
        take_super_user(obj(vec![("a", Json::Bool(true)), ("super_user", Json::Bool(true)), ("b", Json::Null)])),
        Some((obj(vec![("a", Json::Bool(true)), ("b", Json::Null)]), true))
    );
}

#[test]
fn export_to_local_request() {
    let options = ExportLocalOptions { format: "json".to_string(), path: "/data/".to_string(), search_operation: search() };
    assert_eq!(
        operations::export_to_local(options),
        obj(vec![
            ("operation", s("export_local")),
            ("format", s("json")),
            ("path", s("/data/")),
            ("search_operation", obj(vec![("operation", s("sql")), ("sql", s("SELECT * FROM dev.dog"))])),
        ])
    );
}

#[test]
fn cluster_and_license_requests() {
    let node = AddNodeOptions { name: "node2".to_string(), port: "9925".to_string(), host: "192.168.100.100".to_string() };
    assert_eq!(
        operations::add_node(node),
        obj(vec![("operation", s("add_node")), ("name", s("node2")), ("port", s("9925")), ("host", s("192.168.100.100"))])
    );
    let node = UpdateNodeOptions { name: "node2".to_string(), port: "9926".to_string(), host: "10.0.0.1".to_string() };
    assert_eq!(
        operations::update_node(node),
        obj(vec![("operation", s("update_node")), ("name", s("node2")), ("port", s("9926")), ("host", s("10.0.0.1"))])
    );
    assert_eq!(
        operations::remove_node(RemoveNodeOptions { name: "node2".to_string() }),
        obj(vec![("operation", s("remove_node")), ("name", s("node2"))])
    );
    assert_eq!(operations::cluster_status(), obj(vec![("operation", s("cluster_status"))]));
    assert_eq!(operations::registration_info(), obj(vec![("operation", s("registration_info"))]));
    assert_eq!(operations::get_fingerprint(), obj(vec![("operation", s("get_fingerprint"))]));
    let license = LicenseOptions { key: "k".to_string(), company: "c".to_string() };
    assert_eq!(
        operations::set_license(license),
        obj(vec![("operation", s("set_license")), ("key", s("k")), ("company", s("c"))])
    );
    assert_eq!(
        operations::drop_role(DropRoleOptions { id: "r1".to_string() }),
        obj(vec![("operation", s("drop_role")), ("id", s("r1"))])
    );
    let before = DeleteFilesBeforeOptions { schema: "dev".to_string(), table: "dog".to_string(), date: "2021-01-25".to_string() };
    assert_eq!(
        operations::delete_files_before(before),
        obj(vec![("operation", s("delete_files_before")), ("schema", s("dev")), ("table", s("dog")), ("date", s("2021-01-25"))])
    );
}

#[test]
fn empty_lists_are_empty_arrays() {
    let options = harperdb_sdk_rust::HashSearchOptions {
        table: "t".to_string(),
        schema: "s".to_string(),
        hash_values: vec![],
        get_attributes: vec![],
    };
    let request = operations::search_by_hash(options.clone());
    assert_eq!(
        request,
        obj(vec![
            ("operation", s("search_by_hash")),
            ("table", s("t")),
            ("schema", s("s")),
            ("hash_values", Json::Array(vec![])),
            ("get_attributes", Json::Array(vec![])),
        ])
    );
    assert_eq!(
        parse_request::<harperdb_sdk_rust::HashSearchOptions>(Operation::SearchByHash, request),
        Some(options)
    );
}

#[test]
fn records_keep_every_kind_of_number() {
    let records = || {
        Json::Array(vec![obj(vec![
            ("small", Json::NegInt(-3)),
            ("large", Json::PosInt(u64::MAX)),
            ("ratio", Json::Decimal("0.25".to_string())),
            ("none", Json::Null),
        ])])
    };
    let options = QueryOptions { table: "t".to_string(), schema: "s".to_string(), records: records() };
    let back = parse_request::<QueryOptions>(Operation::Update, operations::update(options)).unwrap();
    assert_eq!(back.records, records());
}
