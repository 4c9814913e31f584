//! Shapes of what the server sends back.
use vstd::prelude::*;

verus! {

/// A response taken apart: its status line, status code and body text.
#[derive(Clone, Debug, PartialEq)]
pub struct ResponseData {
    pub status: String,
    pub status_code: String,
    pub data: String,
}

/// An attribute of a described table.
#[derive(Clone, Debug, PartialEq)]
pub struct Attribute {
    pub attribute: String,
}

/// A table as `describe_table` reports it.
#[derive(Clone, Debug, PartialEq)]
pub struct DescribeTable {
    pub __createdtime__: usize,
    pub __updatedtime__: usize,
    pub hash_attribute: String,
    pub id: String,
    pub name: String,
    pub residence: Option<String>,
    pub schema: String,
    pub record_count: usize,
    pub attributes: Vec<Attribute>,
}

} // verus!
