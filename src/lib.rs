//! Requests for a database server that takes every operation as one JSON
//! object posted to a single endpoint.
//!
//! Each operation's options become the fields of a request object whose
//! `operation` entry names the operation. The builders here are verified
//! against a model of JSON values; sending the request is left to the caller.

pub mod config;
pub mod fields;
pub mod json;
pub mod operations;
pub mod options;
pub mod request;
pub mod responses;
pub mod roles;

pub use config::HarperConfig;
pub use json::{Json, JsonValue};
pub use options::{
    AscDesc, AttributeDropOptions, CreateTableOptions, DataLoadOptions, DeleteFilesBeforeOptions,
    ExportLocalOptions, FileLoadOptions, GetJobOptions, HashSearchOptions, JobsByDateOptions,
    LicenseOptions, LogsOptions, QueryOptions, RemoveNodeOptions, RowDeleteOptions, S3Auth,
    S3DetailsOptions, SchemaOption, SearchOperation, SystemInformationOptions, TableOptions,
    UpdateNodeOptions, UrlLoadOptions, UserAddOptions, UserAlterOptions, UserDropOptions,
    ValueSearchOptions, AddNodeOptions, DropRoleOptions,
};
pub use request::Operation;
pub use responses::{Attribute, DescribeTable, ResponseData};
pub use roles::{AddRoleOptions, AlterRoleOptions};
