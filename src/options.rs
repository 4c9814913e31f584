//! The options of each operation, and the entries they write.
use vstd::prelude::*;

use crate::fields::{
    entry, key_is, opt_count, opt_str, opt_str_array, opt_string_view, opt_strings_view,
    optional_count, optional_string, optional_string_array, read_bool, read_optional_count,
    read_optional_string, read_optional_string_array, read_string, read_string_array, str_array,
    string_array, strings_view,
};
use crate::json::{Entry, Json, JsonValue, entries_view};
use crate::request::{ObjectFields, RequestFields, object, read_object};

verus! {

/// A schema, by name.
#[derive(Clone, Debug, PartialEq)]
pub struct SchemaOption {
    pub schema: String,
}

impl ObjectFields for SchemaOption {
    open spec fn fields(&self) -> Seq<Entry> {
        seq![
            ("schema"@, JsonValue::Str(self.schema@)),
        ]
    }

    fn into_fields(self) -> (r: Vec<(String, Json)>) {
        let ghost f = self.fields();
        let r = vec![
            entry("schema", Json::Str(self.schema)),
        ];
        assert(entries_view(r@) =~= f);
        r
    }

    fn from_fields(entries: Vec<(String, Json)>) -> (r: Option<Self>) {
        if entries.len() != 1 || !key_is(&entries, 0, "schema") {
            proof {
                assert forall|o: Self| #[trigger] o.fields() != entries_view(entries@) by {
                    let f = o.fields();
                    assert(f.len() == 1 && f[0].0 == "schema"@);
                }
            }
            return None;
        }
        let schema = match read_string(&entries[0].1) {
            Some(v) => v,
            None => {
                proof {
                    assert forall|o: Self| #[trigger] o.fields() != entries_view(entries@) by {
                        assert(o.fields()[0].1 == JsonValue::Str(o.schema@));
                    }
                }
                return None;
            },
        };
        let r = SchemaOption { schema };
        assert(r.fields() =~= entries_view(entries@));
        Some(r)
    }
}

impl RequestFields for SchemaOption {
    proof fn lemma_no_operation_key(&self) {
        reveal_strlit("operation");
        reveal_strlit("schema");
        let f = self.fields();
        assert forall|i: int| 0 <= i < f.len() implies #[trigger] f[i].0 != "operation"@ by {
            assert(f[i].0.len() != "operation"@.len() || f[i].0[0] != "operation"@[0]);
        }
    }
}

/// A table within a schema.
#[derive(Clone, Debug, PartialEq)]
pub struct TableOptions {
    pub table: String,
    pub schema: String,
}

impl ObjectFields for TableOptions {
    open spec fn fields(&self) -> Seq<Entry> {
        seq![
            ("table"@, JsonValue::Str(self.table@)),
            ("schema"@, JsonValue::Str(self.schema@)),
        ]
    }

    fn into_fields(self) -> (r: Vec<(String, Json)>) {
        let ghost f = self.fields();
        let r = vec![
            entry("table", Json::Str(self.table)),
            entry("schema", Json::Str(self.schema)),
        ];
        assert(entries_view(r@) =~= f);
        r
    }

    fn from_fields(entries: Vec<(String, Json)>) -> (r: Option<Self>) {
        if entries.len() != 2 || !key_is(&entries, 0, "table") || !key_is(&entries, 1, "schema") {
            proof {
                assert forall|o: Self| #[trigger] o.fields() != entries_view(entries@) by {
                    let f = o.fields();
                    assert(f.len() == 2 && f[0].0 == "table"@ && f[1].0 == "schema"@);
                }
            }
            return None;
        }
        let table = match read_string(&entries[0].1) {
            Some(v) => v,
            None => {
                proof {
                    assert forall|o: Self| #[trigger] o.fields() != entries_view(entries@) by {
                        assert(o.fields()[0].1 == JsonValue::Str(o.table@));
                    }
                }
                return None;
            },
        };
        let schema = match read_string(&entries[1].1) {
            Some(v) => v,
            None => {
                proof {
                    assert forall|o: Self| #[trigger] o.fields() != entries_view(entries@) by {
                        assert(o.fields()[1].1 == JsonValue::Str(o.schema@));
                    }
                }
                return None;
            },
        };
        let r = TableOptions { table, schema };
        assert(r.fields() =~= entries_view(entries@));
        Some(r)
    }
}

impl RequestFields for TableOptions {
    proof fn lemma_no_operation_key(&self) {
        reveal_strlit("operation");
        reveal_strlit("table");
        reveal_strlit("schema");
        let f = self.fields();
        assert forall|i: int| 0 <= i < f.len() implies #[trigger] f[i].0 != "operation"@ by {
            assert(f[i].0.len() != "operation"@.len() || f[i].0[0] != "operation"@[0]);
        }
    }
}

/// A table to create, with the attribute that keys its records.
#[derive(Clone, Debug, PartialEq)]
pub struct CreateTableOptions {
    pub table: String,
    pub schema: String,
    pub hash_attribute: String,
}

impl ObjectFields for CreateTableOptions {
    open spec fn fields(&self) -> Seq<Entry> {
        seq![
            ("table"@, JsonValue::Str(self.table@)),
            ("schema"@, JsonValue::Str(self.schema@)),
            ("hash_attribute"@, JsonValue::Str(self.hash_attribute@)),
        ]
    }

    fn into_fields(self) -> (r: Vec<(String, Json)>) {
        let ghost f = self.fields();
        let r = vec![
            entry("table", Json::Str(self.table)),
            entry("schema", Json::Str(self.schema)),
            entry("hash_attribute", Json::Str(self.hash_attribute)),
        ];
        assert(entries_view(r@) =~= f);
        r
    }

    fn from_fields(entries: Vec<(String, Json)>) -> (r: Option<Self>) {
        if entries.len() != 3
            || !key_is(&entries, 0, "table")
            || !key_is(&entries, 1, "schema")
            || !key_is(&entries, 2, "hash_attribute")
        {
            proof {
                assert forall|o: Self| #[trigger] o.fields() != entries_view(entries@) by {
                    let f = o.fields();
                    assert(f.len() == 3);
                    assert(f[0].0 == "table"@);
                    assert(f[1].0 == "schema"@);
                    assert(f[2].0 == "hash_attribute"@);
                }
            }
            return None;
        }
        let table = match read_string(&entries[0].1) {
            Some(v) => v,
            None => {
                proof {
                    assert forall|o: Self| #[trigger] o.fields() != entries_view(entries@) by {
                        assert(o.fields()[0].1 == JsonValue::Str(o.table@));
                    }
                }
                return None;
            },
        };
        let schema = match read_string(&entries[1].1) {
            Some(v) => v,
            None => {
                proof {
                    assert forall|o: Self| #[trigger] o.fields() != entries_view(entries@) by {
                        assert(o.fields()[1].1 == JsonValue::Str(o.schema@));
                    }
                }
                return None;
            },
        };
        let hash_attribute = match read_string(&entries[2].1) {
            Some(v) => v,
            None => {
                proof {
                    assert forall|o: Self| #[trigger] o.fields() != entries_view(entries@) by {
                        assert(o.fields()[2].1 == JsonValue::Str(o.hash_attribute@));
                    }
                }
                return None;
            },
        };
        let r = CreateTableOptions { table, schema, hash_attribute };
        assert(r.fields() =~= entries_view(entries@));
        Some(r)
    }
}

impl RequestFields for CreateTableOptions {
    proof fn lemma_no_operation_key(&self) {
        reveal_strlit("operation");
        reveal_strlit("table");
        reveal_strlit("schema");
        reveal_strlit("hash_attribute");
        let f = self.fields();
        assert forall|i: int| 0 <= i < f.len() implies #[trigger] f[i].0 != "operation"@ by {
            assert(f[i].0.len() != "operation"@.len() || f[i].0[0] != "operation"@[0]);
        }
    }
}

/// An attribute of a table.
#[derive(Clone, Debug, PartialEq)]
pub struct AttributeDropOptions {
    pub table: String,
    pub schema: String,
    pub attribute: String,
}

impl ObjectFields for AttributeDropOptions {
    open spec fn fields(&self) -> Seq<Entry> {
        seq![
            ("table"@, JsonValue::Str(self.table@)),
            ("schema"@, JsonValue::Str(self.schema@)),
            ("attribute"@, JsonValue::Str(self.attribute@)),
        ]
    }

    fn into_fields(self) -> (r: Vec<(String, Json)>) {
        let ghost f = self.fields();
        let r = vec![
            entry("table", Json::Str(self.table)),
            entry("schema", Json::Str(self.schema)),
            entry("attribute", Json::Str(self.attribute)),
        ];
        assert(entries_view(r@) =~= f);
        r
    }

    fn from_fields(entries: Vec<(String, Json)>) -> (r: Option<Self>) {
        if entries.len() != 3
            || !key_is(&entries, 0, "table")
            || !key_is(&entries, 1, "schema")
            || !key_is(&entries, 2, "attribute")
        {
            proof {
                assert forall|o: Self| #[trigger] o.fields() != entries_view(entries@) by {
                    let f = o.fields();
                    assert(f.len() == 3);
                    assert(f[0].0 == "table"@);
                    assert(f[1].0 == "schema"@);
                    assert(f[2].0 == "attribute"@);
                }
            }
            return None;
        }
        let table = match read_string(&entries[0].1) {
            Some(v) => v,
            None => {
                proof {
                    assert forall|o: Self| #[trigger] o.fields() != entries_view(entries@) by {
                        assert(o.fields()[0].1 == JsonValue::Str(o.table@));
                    }
                }
                return None;
            },
        };
        let schema = match read_string(&entries[1].1) {
            Some(v) => v,
            None => {
                proof {
                    assert forall|o: Self| #[trigger] o.fields() != entries_view(entries@) by {
                        assert(o.fields()[1].1 == JsonValue::Str(o.schema@));
                    }
                }
                return None;
            },
        };
        let attribute = match read_string(&entries[2].1) {
            Some(v) => v,
            None => {
                proof {
                    assert forall|o: Self| #[trigger] o.fields() != entries_view(entries@) by {
                        assert(o.fields()[2].1 == JsonValue::Str(o.attribute@));
                    }
                }
                return None;
            },
        };
        let r = AttributeDropOptions { table, schema, attribute };
        assert(r.fields() =~= entries_view(entries@));
        Some(r)
    }
}

impl RequestFields for AttributeDropOptions {
    proof fn lemma_no_operation_key(&self) {
        reveal_strlit("operation");
        reveal_strlit("table");
        reveal_strlit("schema");
        reveal_strlit("attribute");
        let f = self.fields();
        assert forall|i: int| 0 <= i < f.len() implies #[trigger] f[i].0 != "operation"@ by {
            assert(f[i].0.len() != "operation"@.len() || f[i].0[0] != "operation"@[0]);
        }
    }
}

/// Records to insert into or update in a table.
#[derive(Debug, PartialEq)]
pub struct QueryOptions {
    pub table: String,
    pub schema: String,
    pub records: Json,
}

impl ObjectFields for QueryOptions {
    open spec fn fields(&self) -> Seq<Entry> {
        seq![
            ("table"@, JsonValue::Str(self.table@)),
            ("schema"@, JsonValue::Str(self.schema@)),
            ("records"@, self.records@),
        ]
    }

    fn into_fields(self) -> (r: Vec<(String, Json)>) {
        let ghost f = self.fields();
        let r = vec![
            entry("table", Json::Str(self.table)),
            entry("schema", Json::Str(self.schema)),
            entry("records", self.records),
        ];
        assert(entries_view(r@) =~= f);
        r
    }

    fn from_fields(entries: Vec<(String, Json)>) -> (r: Option<Self>) {
        if entries.len() != 3
            || !key_is(&entries, 0, "table")
            || !key_is(&entries, 1, "schema")
            || !key_is(&entries, 2, "records")
        {
            proof {
                assert forall|o: Self| #[trigger] o.fields() != entries_view(entries@) by {
                    let f = o.fields();
                    assert(f.len() == 3);
                    assert(f[0].0 == "table"@);
                    assert(f[1].0 == "schema"@);
                    assert(f[2].0 == "records"@);
                }
            }
            return None;
        }
        let ghost whole = entries_view(entries@);
        let table = match read_string(&entries[0].1) {
            Some(v) => v,
            None => {
                proof {
                    assert forall|o: Self| #[trigger] o.fields() != entries_view(entries@) by {
                        assert(o.fields()[0].1 == JsonValue::Str(o.table@));
                    }
                }
                return None;
            },
        };
        let schema = match read_string(&entries[1].1) {
            Some(v) => v,
            None => {
                proof {
                    assert forall|o: Self| #[trigger] o.fields() != entries_view(entries@) by {
                        assert(o.fields()[1].1 == JsonValue::Str(o.schema@));
                    }
                }
                return None;
            },
        };
        let mut entries = entries;
        let (_, records) = entries.pop().unwrap();
        let r = QueryOptions { table, schema, records };
        assert(r.fields() =~= whole);
        Some(r)
    }
}

impl RequestFields for QueryOptions {
    proof fn lemma_no_operation_key(&self) {
        reveal_strlit("operation");
        reveal_strlit("table");
        reveal_strlit("schema");
        reveal_strlit("records");
        let f = self.fields();
        assert forall|i: int| 0 <= i < f.len() implies #[trigger] f[i].0 != "operation"@ by {
            assert(f[i].0.len() != "operation"@.len() || f[i].0[0] != "operation"@[0]);
        }
    }
}

/// Records of a table to delete, by their hash values.
#[derive(Clone, Debug, PartialEq)]
pub struct RowDeleteOptions {
    pub table: String,
    pub schema: String,
    pub hash_values: Vec<String>,
}

impl ObjectFields for RowDeleteOptions {
    open spec fn fields(&self) -> Seq<Entry> {
        seq![
            ("table"@, JsonValue::Str(self.table@)),
            ("schema"@, JsonValue::Str(self.schema@)),
            ("hash_values"@, str_array(strings_view(self.hash_values@))),
        ]
    }

    fn into_fields(self) -> (r: Vec<(String, Json)>) {
        let ghost f = self.fields();
        let r = vec![
            entry("table", Json::Str(self.table)),
            entry("schema", Json::Str(self.schema)),
            entry("hash_values", string_array(&self.hash_values)),
        ];
        assert(entries_view(r@) =~= f);
        r
    }

    fn from_fields(entries: Vec<(String, Json)>) -> (r: Option<Self>) {
        if entries.len() != 3
            || !key_is(&entries, 0, "table")
            || !key_is(&entries, 1, "schema")
            || !key_is(&entries, 2, "hash_values")
        {
            proof {
                assert forall|o: Self| #[trigger] o.fields() != entries_view(entries@) by {
                    let f = o.fields();
                    assert(f.len() == 3);
                    assert(f[0].0 == "table"@);
                    assert(f[1].0 == "schema"@);
                    assert(f[2].0 == "hash_values"@);
                }
            }
            return None;
        }
        let table = match read_string(&entries[0].1) {
            Some(v) => v,
            None => {
                proof {
                    assert forall|o: Self| #[trigger] o.fields() != entries_view(entries@) by {
                        assert(o.fields()[0].1 == JsonValue::Str(o.table@));
                    }
                }
                return None;
            },
        };
        let schema = match read_string(&entries[1].1) {
            Some(v) => v,
            None => {
                proof {
                    assert forall|o: Self| #[trigger] o.fields() != entries_view(entries@) by {
                        assert(o.fields()[1].1 == JsonValue::Str(o.schema@));
                    }
                }
                return None;
            },
        };
        let hash_values = match read_string_array(&entries[2].1) {
            Some(v) => v,
            None => {
                proof {
                    assert forall|o: Self| #[trigger] o.fields() != entries_view(entries@) by {
                        assert(o.fields()[2].1 == str_array(strings_view(o.hash_values@)));
                    }
                }
                return None;
            },
        };
        let r = RowDeleteOptions { table, schema, hash_values };
        assert(r.fields() =~= entries_view(entries@));
        Some(r)
    }
}

impl RequestFields for RowDeleteOptions {
    proof fn lemma_no_operation_key(&self) {
        reveal_strlit("operation");
        reveal_strlit("table");
        reveal_strlit("schema");
        reveal_strlit("hash_values");
        let f = self.fields();
        assert forall|i: int| 0 <= i < f.len() implies #[trigger] f[i].0 != "operation"@ by {
            assert(f[i].0.len() != "operation"@.len() || f[i].0[0] != "operation"@[0]);
        }
    }
}

/// A search of a table by hash values.
#[derive(Clone, Debug, PartialEq)]
pub struct HashSearchOptions {
    pub table: String,
    pub schema: String,
    pub hash_values: Vec<String>,
    pub get_attributes: Vec<String>,
}

impl ObjectFields for HashSearchOptions {
    open spec fn fields(&self) -> Seq<Entry> {
        seq![
            ("table"@, JsonValue::Str(self.table@)),
            ("schema"@, JsonValue::Str(self.schema@)),
            ("hash_values"@, str_array(strings_view(self.hash_values@))),
            ("get_attributes"@, str_array(strings_view(self.get_attributes@))),
        ]
    }

    fn into_fields(self) -> (r: Vec<(String, Json)>) {
        let ghost f = self.fields();
        let r = vec![
            entry("table", Json::Str(self.table)),
            entry("schema", Json::Str(self.schema)),
            entry("hash_values", string_array(&self.hash_values)),
            entry("get_attributes", string_array(&self.get_attributes)),
        ];
        assert(entries_view(r@) =~= f);
        r
    }

    fn from_fields(entries: Vec<(String, Json)>) -> (r: Option<Self>) {
        if entries.len() != 4
            || !key_is(&entries, 0, "table")
            || !key_is(&entries, 1, "schema")
            || !key_is(&entries, 2, "hash_values")
            || !key_is(&entries, 3, "get_attributes")
        {
            proof {
                assert forall|o: Self| #[trigger] o.fields() != entries_view(entries@) by {
                    let f = o.fields();
                    assert(f.len() == 4);
                    assert(f[0].0 == "table"@);
                    assert(f[1].0 == "schema"@);
                    assert(f[2].0 == "hash_values"@);
                    assert(f[3].0 == "get_attributes"@);
                }
            }
            return None;
        }
        let table = match read_string(&entries[0].1) {
            Some(v) => v,
            None => {
                proof {
                    assert forall|o: Self| #[trigger] o.fields() != entries_view(entries@) by {
                        assert(o.fields()[0].1 == JsonValue::Str(o.table@));
                    }
                }
                return None;
            },
        };
        let schema = match read_string(&entries[1].1) {
            Some(v) => v,
            None => {
                proof {
                    assert forall|o: Self| #[trigger] o.fields() != entries_view(entries@) by {
                        assert(o.fields()[1].1 == JsonValue::Str(o.schema@));
                    }
                }
                return None;
            },
        };
        let hash_values = match read_string_array(&entries[2].1) {
            Some(v) => v,
            None => {
                proof {
                    assert forall|o: Self| #[trigger] o.fields() != entries_view(entries@) by {
                        assert(o.fields()[2].1 == str_array(strings_view(o.hash_values@)));
                    }
                }
                return None;
            },
        };
        let get_attributes = match read_string_array(&entries[3].1) {
            Some(v) => v,
            None => {
                proof {
                    assert forall|o: Self| #[trigger] o.fields() != entries_view(entries@) by {
                        assert(o.fields()[3].1 == str_array(strings_view(o.get_attributes@)));
                    }
                }
                return None;
            },
        };
        let r = HashSearchOptions { table, schema, hash_values, get_attributes };
        assert(r.fields() =~= entries_view(entries@));
        Some(r)
    }
}

impl RequestFields for HashSearchOptions {
    proof fn lemma_no_operation_key(&self) {
        reveal_strlit("operation");
        reveal_strlit("table");
        reveal_strlit("schema");
        reveal_strlit("hash_values");
        reveal_strlit("get_attributes");
        let f = self.fields();
        assert forall|i: int| 0 <= i < f.len() implies #[trigger] f[i].0 != "operation"@ by {
            assert(f[i].0.len() != "operation"@.len() || f[i].0[0] != "operation"@[0]);
        }
    }
}

/// A search of a table by the value of one attribute.
#[derive(Clone, Debug, PartialEq)]
pub struct ValueSearchOptions {
    pub table: String,
    pub schema: String,
    pub search_attribute: String,
    pub search_value: String,
    pub get_attributes: Vec<String>,
}

impl ObjectFields for ValueSearchOptions {
    open spec fn fields(&self) -> Seq<Entry> {
        seq![
            ("table"@, JsonValue::Str(self.table@)),
            ("schema"@, JsonValue::Str(self.schema@)),
            ("search_attribute"@, JsonValue::Str(self.search_attribute@)),
            ("search_value"@, JsonValue::Str(self.search_value@)),
            ("get_attributes"@, str_array(strings_view(self.get_attributes@))),
        ]
    }

    fn into_fields(self) -> (r: Vec<(String, Json)>) {
        let ghost f = self.fields();
        let r = vec![
            entry("table", Json::Str(self.table)),
            entry("schema", Json::Str(self.schema)),
            entry("search_attribute", Json::Str(self.search_attribute)),
            entry("search_value", Json::Str(self.search_value)),
            entry("get_attributes", string_array(&self.get_attributes)),
        ];
        assert(entries_view(r@) =~= f);
        r
    }

    fn from_fields(entries: Vec<(String, Json)>) -> (r: Option<Self>) {
        if entries.len() != 5
            || !key_is(&entries, 0, "table")
            || !key_is(&entries, 1, "schema")
            || !key_is(&entries, 2, "search_attribute")
            || !key_is(&entries, 3, "search_value")
            || !key_is(&entries, 4, "get_attributes")
        {
            proof {
                assert forall|o: Self| #[trigger] o.fields() != entries_view(entries@) by {
                    let f = o.fields();
                    assert(f.len() == 5);
                    assert(f[0].0 == "table"@);
                    assert(f[1].0 == "schema"@);
                    assert(f[2].0 == "search_attribute"@);
                    assert(f[3].0 == "search_value"@);
                    assert(f[4].0 == "get_attributes"@);
                }
            }
            return None;
        }
        let table = match read_string(&entries[0].1) {
            Some(v) => v,
            None => {
                proof {
                    assert forall|o: Self| #[trigger] o.fields() != entries_view(entries@) by {
                        assert(o.fields()[0].1 == JsonValue::Str(o.table@));
                    }
                }
                return None;
            },
        };
        let schema = match read_string(&entries[1].1) {
            Some(v) => v,
            None => {
                proof {
                    assert forall|o: Self| #[trigger] o.fields() != entries_view(entries@) by {
                        assert(o.fields()[1].1 == JsonValue::Str(o.schema@));
                    }
                }
                return None;
            },
        };
        let search_attribute = match read_string(&entries[2].1) {
            Some(v) => v,
            None => {
                proof {
                    assert forall|o: Self| #[trigger] o.fields() != entries_view(entries@) by {
                        assert(o.fields()[2].1 == JsonValue::Str(o.search_attribute@));
                    }
                }
                return None;
            },
        };
        let search_value = match read_string(&entries[3].1) {
            Some(v) => v,
            None => {
                proof {
                    assert forall|o: Self| #[trigger] o.fields() != entries_view(entries@) by {
                        assert(o.fields()[3].1 == JsonValue::Str(o.search_value@));
                    }
                }
                return None;
            },
        };
        let get_attributes = match read_string_array(&entries[4].1) {
            Some(v) => v,
            None => {
                proof {
                    assert forall|o: Self| #[trigger] o.fields() != entries_view(entries@) by {
                        assert(o.fields()[4].1 == str_array(strings_view(o.get_attributes@)));
                    }
                }
                return None;
            },
        };
        let r = ValueSearchOptions { table, schema, search_attribute, search_value, get_attributes };
        assert(r.fields() =~= entries_view(entries@));
        Some(r)
    }
}

impl RequestFields for ValueSearchOptions {
    proof fn lemma_no_operation_key(&self) {
        reveal_strlit("operation");
        reveal_strlit("table");
        reveal_strlit("schema");
        reveal_strlit("search_attribute");
        reveal_strlit("search_value");
        reveal_strlit("get_attributes");
        let f = self.fields();
        assert forall|i: int| 0 <= i < f.len() implies #[trigger] f[i].0 != "operation"@ by {
            assert(f[i].0.len() != "operation"@.len() || f[i].0[0] != "operation"@[0]);
        }
    }
}

/// CSV data, given inline, to load into a table.
#[derive(Clone, Debug, PartialEq)]
pub struct DataLoadOptions {
    pub table: String,
    pub schema: String,
    pub action: String,
    pub data: String,
}

impl ObjectFields for DataLoadOptions {
    open spec fn fields(&self) -> Seq<Entry> {
        seq![
            ("table"@, JsonValue::Str(self.table@)),
            ("schema"@, JsonValue::Str(self.schema@)),
            ("action"@, JsonValue::Str(self.action@)),
            ("data"@, JsonValue::Str(self.data@)),
        ]
    }

    fn into_fields(self) -> (r: Vec<(String, Json)>) {
        let ghost f = self.fields();
        let r = vec![
            entry("table", Json::Str(self.table)),
            entry("schema", Json::Str(self.schema)),
            entry("action", Json::Str(self.action)),
            entry("data", Json::Str(self.data)),
        ];
        assert(entries_view(r@) =~= f);
        r
    }

    fn from_fields(entries: Vec<(String, Json)>) -> (r: Option<Self>) {
        if entries.len() != 4
            || !key_is(&entries, 0, "table")
            || !key_is(&entries, 1, "schema")
            || !key_is(&entries, 2, "action")
            || !key_is(&entries, 3, "data")
        {
            proof {
                assert forall|o: Self| #[trigger] o.fields() != entries_view(entries@) by {
                    let f = o.fields();
                    assert(f.len() == 4);
                    assert(f[0].0 == "table"@);
                    assert(f[1].0 == "schema"@);
                    assert(f[2].0 == "action"@);
                    assert(f[3].0 == "data"@);
                }
            }
            return None;
        }
        let table = match read_string(&entries[0].1) {
            Some(v) => v,
            None => {
                proof {
                    assert forall|o: Self| #[trigger] o.fields() != entries_view(entries@) by {
                        assert(o.fields()[0].1 == JsonValue::Str(o.table@));
                    }
                }
                return None;
            },
        };
        let schema = match read_string(&entries[1].1) {
            Some(v) => v,
            None => {
                proof {
                    assert forall|o: Self| #[trigger] o.fields() != entries_view(entries@) by {
                        assert(o.fields()[1].1 == JsonValue::Str(o.schema@));
                    }
                }
                return None;
            },
        };
        let action = match read_string(&entries[2].1) {
            Some(v) => v,
            None => {
                proof {
                    assert forall|o: Self| #[trigger] o.fields() != entries_view(entries@) by {
                        assert(o.fields()[2].1 == JsonValue::Str(o.action@));
                    }
                }
                return None;
            },
        };
        let data = match read_string(&entries[3].1) {
            Some(v) => v,
            None => {
                proof {
                    assert forall|o: Self| #[trigger] o.fields() != entries_view(entries@) by {
                        assert(o.fields()[3].1 == JsonValue::Str(o.data@));
                    }
                }
                return None;
            },
        };
        let r = DataLoadOptions { table, schema, action, data };
        assert(r.fields() =~= entries_view(entries@));
        Some(r)
    }
}

impl RequestFields for DataLoadOptions {
    proof fn lemma_no_operation_key(&self) {
        reveal_strlit("operation");
        reveal_strlit("table");
        reveal_strlit("schema");
        reveal_strlit("action");
        reveal_strlit("data");
        let f = self.fields();
        assert forall|i: int| 0 <= i < f.len() implies #[trigger] f[i].0 != "operation"@ by {
            assert(f[i].0.len() != "operation"@.len() || f[i].0[0] != "operation"@[0]);
        }
    }
}

/// CSV data, at a URL, to load into a table.
#[derive(Clone, Debug, PartialEq)]
pub struct UrlLoadOptions {
    pub table: String,
    pub schema: String,
    pub action: String,
    pub csv_url: String,
}

impl ObjectFields for UrlLoadOptions {
    open spec fn fields(&self) -> Seq<Entry> {
        seq![
            ("table"@, JsonValue::Str(self.table@)),
            ("schema"@, JsonValue::Str(self.schema@)),
            ("action"@, JsonValue::Str(self.action@)),
            ("csv_url"@, JsonValue::Str(self.csv_url@)),
        ]
    }

    fn into_fields(self) -> (r: Vec<(String, Json)>) {
        let ghost f = self.fields();
        let r = vec![
            entry("table", Json::Str(self.table)),
            entry("schema", Json::Str(self.schema)),
            entry("action", Json::Str(self.action)),
            entry("csv_url", Json::Str(self.csv_url)),
        ];
        assert(entries_view(r@) =~= f);
        r
    }

    fn from_fields(entries: Vec<(String, Json)>) -> (r: Option<Self>) {
        if entries.len() != 4
            || !key_is(&entries, 0, "table")
            || !key_is(&entries, 1, "schema")
            || !key_is(&entries, 2, "action")
            || !key_is(&entries, 3, "csv_url")
        {
            proof {
                assert forall|o: Self| #[trigger] o.fields() != entries_view(entries@) by {
                    let f = o.fields();
                    assert(f.len() == 4);
                    assert(f[0].0 == "table"@);
                    assert(f[1].0 == "schema"@);
                    assert(f[2].0 == "action"@);
                    assert(f[3].0 == "csv_url"@);
                }
            }
            return None;
        }
        let table = match read_string(&entries[0].1) {
            Some(v) => v,
            None => {
                proof {
                    assert forall|o: Self| #[trigger] o.fields() != entries_view(entries@) by {
                        assert(o.fields()[0].1 == JsonValue::Str(o.table@));
                    }
                }
                return None;
            },
        };
        let schema = match read_string(&entries[1].1) {
            Some(v) => v,
            None => {
                proof {
                    assert forall|o: Self| #[trigger] o.fields() != entries_view(entries@) by {
                        assert(o.fields()[1].1 == JsonValue::Str(o.schema@));
                    }
                }
                return None;
            },
        };
        let action = match read_string(&entries[2].1) {
            Some(v) => v,
            None => {
                proof {
                    assert forall|o: Self| #[trigger] o.fields() != entries_view(entries@) by {
                        assert(o.fields()[2].1 == JsonValue::Str(o.action@));
                    }
                }
                return None;
            },
        };
        let csv_url = match read_string(&entries[3].1) {
            Some(v) => v,
            None => {
                proof {
                    assert forall|o: Self| #[trigger] o.fields() != entries_view(entries@) by {
                        assert(o.fields()[3].1 == JsonValue::Str(o.csv_url@));
                    }
                }
                return None;
            },
        };
        let r = UrlLoadOptions { table, schema, action, csv_url };
        assert(r.fields() =~= entries_view(entries@));
        Some(r)
    }
}

impl RequestFields for UrlLoadOptions {
    proof fn lemma_no_operation_key(&self) {
        reveal_strlit("operation");
        reveal_strlit("table");
        reveal_strlit("schema");
        reveal_strlit("action");
        reveal_strlit("csv_url");
        let f = self.fields();
        assert forall|i: int| 0 <= i < f.len() implies #[trigger] f[i].0 != "operation"@ by {
            assert(f[i].0.len() != "operation"@.len() || f[i].0[0] != "operation"@[0]);
        }
    }
}

/// CSV data, in a file on the server, to load into a table.
#[derive(Clone, Debug, PartialEq)]
pub struct FileLoadOptions {
    pub table: String,
    pub schema: String,
    pub action: String,
    pub file_path: String,
}

impl ObjectFields for FileLoadOptions {
    open spec fn fields(&self) -> Seq<Entry> {
        seq![
            ("table"@, JsonValue::Str(self.table@)),
            ("schema"@, JsonValue::Str(self.schema@)),
            ("action"@, JsonValue::Str(self.action@)),
            ("file_path"@, JsonValue::Str(self.file_path@)),
        ]
    }

    fn into_fields(self) -> (r: Vec<(String, Json)>) {
        let ghost f = self.fields();
        let r = vec![
            entry("table", Json::Str(self.table)),
            entry("schema", Json::Str(self.schema)),
            entry("action", Json::Str(self.action)),
            entry("file_path", Json::Str(self.file_path)),
        ];
        assert(entries_view(r@) =~= f);
        r
    }

    fn from_fields(entries: Vec<(String, Json)>) -> (r: Option<Self>) {
        if entries.len() != 4
            || !key_is(&entries, 0, "table")
            || !key_is(&entries, 1, "schema")
            || !key_is(&entries, 2, "action")
            || !key_is(&entries, 3, "file_path")
        {
            proof {
                assert forall|o: Self| #[trigger] o.fields() != entries_view(entries@) by {
                    let f = o.fields();
                    assert(f.len() == 4);
                    assert(f[0].0 == "table"@);
                    assert(f[1].0 == "schema"@);
                    assert(f[2].0 == "action"@);
                    assert(f[3].0 == "file_path"@);
                }
            }
            return None;
        }
        let table = match read_string(&entries[0].1) {
            Some(v) => v,
            None => {
                proof {
                    assert forall|o: Self| #[trigger] o.fields() != entries_view(entries@) by {
                        assert(o.fields()[0].1 == JsonValue::Str(o.table@));
                    }
                }
                return None;
            },
        };
        let schema = match read_string(&entries[1].1) {
            Some(v) => v,
            None => {
                proof {
                    assert forall|o: Self| #[trigger] o.fields() != entries_view(entries@) by {
                        assert(o.fields()[1].1 == JsonValue::Str(o.schema@));
                    }
                }
                return None;
            },
        };
        let action = match read_string(&entries[2].1) {
            Some(v) => v,
            None => {
                proof {
                    assert forall|o: Self| #[trigger] o.fields() != entries_view(entries@) by {
                        assert(o.fields()[2].1 == JsonValue::Str(o.action@));
                    }
                }
                return None;
            },
        };
        let file_path = match read_string(&entries[3].1) {
            Some(v) => v,
            None => {
                proof {
                    assert forall|o: Self| #[trigger] o.fields() != entries_view(entries@) by {
                        assert(o.fields()[3].1 == JsonValue::Str(o.file_path@));
                    }
                }
                return None;
            },
        };
        let r = FileLoadOptions { table, schema, action, file_path };
        assert(r.fields() =~= entries_view(entries@));
        Some(r)
    }
}

impl RequestFields for FileLoadOptions {
    proof fn lemma_no_operation_key(&self) {
        reveal_strlit("operation");
        reveal_strlit("table");
        reveal_strlit("schema");
        reveal_strlit("action");
        reveal_strlit("file_path");
        let f = self.fields();
        assert forall|i: int| 0 <= i < f.len() implies #[trigger] f[i].0 != "operation"@ by {
            assert(f[i].0.len() != "operation"@.len() || f[i].0[0] != "operation"@[0]);
        }
    }
}

/// A user to add.
#[derive(Clone, Debug, PartialEq)]
pub struct UserAddOptions {
    pub role: String,
    pub username: String,
    pub password: String,
    pub active: bool,
}

impl ObjectFields for UserAddOptions {
    open spec fn fields(&self) -> Seq<Entry> {
        seq![
            ("role"@, JsonValue::Str(self.role@)),
            ("username"@, JsonValue::Str(self.username@)),
            ("password"@, JsonValue::Str(self.password@)),
            ("active"@, JsonValue::Bool(self.active)),
        ]
    }

    fn into_fields(self) -> (r: Vec<(String, Json)>) {
        let ghost f = self.fields();
        let r = vec![
            entry("role", Json::Str(self.role)),
            entry("username", Json::Str(self.username)),
            entry("password", Json::Str(self.password)),
            entry("active", Json::Bool(self.active)),
        ];
        assert(entries_view(r@) =~= f);
        r
    }

    fn from_fields(entries: Vec<(String, Json)>) -> (r: Option<Self>) {
        if entries.len() != 4
            || !key_is(&entries, 0, "role")
            || !key_is(&entries, 1, "username")
            || !key_is(&entries, 2, "password")
            || !key_is(&entries, 3, "active")
        {
            proof {
                assert forall|o: Self| #[trigger] o.fields() != entries_view(entries@) by {
                    let f = o.fields();
                    assert(f.len() == 4);
                    assert(f[0].0 == "role"@);
                    assert(f[1].0 == "username"@);
                    assert(f[2].0 == "password"@);
                    assert(f[3].0 == "active"@);
                }
            }
            return None;
        }
        let role = match read_string(&entries[0].1) {
            Some(v) => v,
            None => {
                proof {
                    assert forall|o: Self| #[trigger] o.fields() != entries_view(entries@) by {
                        assert(o.fields()[0].1 == JsonValue::Str(o.role@));
                    }
                }
                return None;
            },
        };
        let username = match read_string(&entries[1].1) {
            Some(v) => v,
            None => {
                proof {
                    assert forall|o: Self| #[trigger] o.fields() != entries_view(entries@) by {
                        assert(o.fields()[1].1 == JsonValue::Str(o.username@));
                    }
                }
                return None;
            },
        };
        let password = match read_string(&entries[2].1) {
            Some(v) => v,
            None => {
                proof {
                    assert forall|o: Self| #[trigger] o.fields() != entries_view(entries@) by {
                        assert(o.fields()[2].1 == JsonValue::Str(o.password@));
                    }
                }
                return None;
            },
        };
        let active = match read_bool(&entries[3].1) {
            Some(v) => v,
            None => {
                proof {
                    assert forall|o: Self| #[trigger] o.fields() != entries_view(entries@) by {
                        assert(o.fields()[3].1 == JsonValue::Bool(o.active));
                    }
                }
                return None;
            },
        };
        let r = UserAddOptions { role, username, password, active };
        assert(r.fields() =~= entries_view(entries@));
        Some(r)
    }
}

impl RequestFields for UserAddOptions {
    proof fn lemma_no_operation_key(&self) {
        reveal_strlit("operation");
        reveal_strlit("role");
        reveal_strlit("username");
        reveal_strlit("password");
        reveal_strlit("active");
        let f = self.fields();
        assert forall|i: int| 0 <= i < f.len() implies #[trigger] f[i].0 != "operation"@ by {
            assert(f[i].0.len() != "operation"@.len() || f[i].0[0] != "operation"@[0]);
        }
    }
}

/// Changes to a user; an unset role or password is sent as `null`.
#[derive(Clone, Debug, PartialEq)]
pub struct UserAlterOptions {
    pub role: Option<String>,
    pub username: String,
    pub password: Option<String>,
    pub active: bool,
}

impl ObjectFields for UserAlterOptions {
    open spec fn fields(&self) -> Seq<Entry> {
        seq![
            ("role"@, opt_str(opt_string_view(self.role))),
            ("username"@, JsonValue::Str(self.username@)),
            ("password"@, opt_str(opt_string_view(self.password))),
            ("active"@, JsonValue::Bool(self.active)),
        ]
    }

    fn into_fields(self) -> (r: Vec<(String, Json)>) {
        let ghost f = self.fields();
        let r = vec![
            entry("role", optional_string(self.role)),
            entry("username", Json::Str(self.username)),
            entry("password", optional_string(self.password)),
            entry("active", Json::Bool(self.active)),
        ];
        assert(entries_view(r@) =~= f);
        r
    }

    fn from_fields(entries: Vec<(String, Json)>) -> (r: Option<Self>) {
        if entries.len() != 4
            || !key_is(&entries, 0, "role")
            || !key_is(&entries, 1, "username")
            || !key_is(&entries, 2, "password")
            || !key_is(&entries, 3, "active")
        {
            proof {
                assert forall|o: Self| #[trigger] o.fields() != entries_view(entries@) by {
                    let f = o.fields();
                    assert(f.len() == 4);
                    assert(f[0].0 == "role"@);
                    assert(f[1].0 == "username"@);
                    assert(f[2].0 == "password"@);
                    assert(f[3].0 == "active"@);
                }
            }
            return None;
        }
        let role = match read_optional_string(&entries[0].1) {
            Some(v) => v,
            None => {
                proof {
                    assert forall|o: Self| #[trigger] o.fields() != entries_view(entries@) by {
                        assert(o.fields()[0].1 == opt_str(opt_string_view(o.role)));
                    }
                }
                return None;
            },
        };
        let username = match read_string(&entries[1].1) {
            Some(v) => v,
            None => {
                proof {
                    assert forall|o: Self| #[trigger] o.fields() != entries_view(entries@) by {
                        assert(o.fields()[1].1 == JsonValue::Str(o.username@));
                    }
                }
                return None;
            },
        };
        let password = match read_optional_string(&entries[2].1) {
            Some(v) => v,
            None => {
                proof {
                    assert forall|o: Self| #[trigger] o.fields() != entries_view(entries@) by {
                        assert(o.fields()[2].1 == opt_str(opt_string_view(o.password)));
                    }
                }
                return None;
            },
        };
        let active = match read_bool(&entries[3].1) {
            Some(v) => v,
            None => {
                proof {
                    assert forall|o: Self| #[trigger] o.fields() != entries_view(entries@) by {
                        assert(o.fields()[3].1 == JsonValue::Bool(o.active));
                    }
                }
                return None;
            },
        };
        let r = UserAlterOptions { role, username, password, active };
        assert(r.fields() =~= entries_view(entries@));
        Some(r)
    }
}

impl RequestFields for UserAlterOptions {
    proof fn lemma_no_operation_key(&self) {
        reveal_strlit("operation");
        reveal_strlit("role");
        reveal_strlit("username");
        reveal_strlit("password");
        reveal_strlit("active");
        let f = self.fields();
        assert forall|i: int| 0 <= i < f.len() implies #[trigger] f[i].0 != "operation"@ by {
            assert(f[i].0.len() != "operation"@.len() || f[i].0[0] != "operation"@[0]);
        }
    }
}

/// A user, by name.
#[derive(Clone, Debug, PartialEq)]
pub struct UserDropOptions {
    pub username: String,
}

impl ObjectFields for UserDropOptions {
    open spec fn fields(&self) -> Seq<Entry> {
        seq![
            ("username"@, JsonValue::Str(self.username@)),
        ]
    }

    fn into_fields(self) -> (r: Vec<(String, Json)>) {
        let ghost f = self.fields();
        let r = vec![
            entry("username", Json::Str(self.username)),
        ];
        assert(entries_view(r@) =~= f);
        r
    }

    fn from_fields(entries: Vec<(String, Json)>) -> (r: Option<Self>) {
        if entries.len() != 1 || !key_is(&entries, 0, "username") {
            proof {
                assert forall|o: Self| #[trigger] o.fields() != entries_view(entries@) by {
                    let f = o.fields();
                    assert(f.len() == 1 && f[0].0 == "username"@);
                }
            }
            return None;
        }
        let username = match read_string(&entries[0].1) {
            Some(v) => v,
            None => {
                proof {
                    assert forall|o: Self| #[trigger] o.fields() != entries_view(entries@) by {
                        assert(o.fields()[0].1 == JsonValue::Str(o.username@));
                    }
                }
                return None;
            },
        };
        let r = UserDropOptions { username };
        assert(r.fields() =~= entries_view(entries@));
        Some(r)
    }
}

impl RequestFields for UserDropOptions {
    proof fn lemma_no_operation_key(&self) {
        reveal_strlit("operation");
        reveal_strlit("username");
        let f = self.fields();
        assert forall|i: int| 0 <= i < f.len() implies #[trigger] f[i].0 != "operation"@ by {
            assert(f[i].0.len() != "operation"@.len() || f[i].0[0] != "operation"@[0]);
        }
    }
}

/// A role, by id.
#[derive(Clone, Debug, PartialEq)]
pub struct DropRoleOptions {
    pub id: String,
}

impl ObjectFields for DropRoleOptions {
    open spec fn fields(&self) -> Seq<Entry> {
        seq![
            ("id"@, JsonValue::Str(self.id@)),
        ]
    }

    fn into_fields(self) -> (r: Vec<(String, Json)>) {
        let ghost f = self.fields();
        let r = vec![
            entry("id", Json::Str(self.id)),
        ];
        assert(entries_view(r@) =~= f);
        r
    }

    fn from_fields(entries: Vec<(String, Json)>) -> (r: Option<Self>) {
        if entries.len() != 1 || !key_is(&entries, 0, "id") {
            proof {
                assert forall|o: Self| #[trigger] o.fields() != entries_view(entries@) by {
                    let f = o.fields();
                    assert(f.len() == 1 && f[0].0 == "id"@);
                }
            }
            return None;
        }
        let id = match read_string(&entries[0].1) {
            Some(v) => v,
            None => {
                proof {
                    assert forall|o: Self| #[trigger] o.fields() != entries_view(entries@) by {
                        assert(o.fields()[0].1 == JsonValue::Str(o.id@));
                    }
                }
                return None;
            },
        };
        let r = DropRoleOptions { id };
        assert(r.fields() =~= entries_view(entries@));
        Some(r)
    }
}

impl RequestFields for DropRoleOptions {
    proof fn lemma_no_operation_key(&self) {
        reveal_strlit("operation");
        reveal_strlit("id");
        let f = self.fields();
        assert forall|i: int| 0 <= i < f.len() implies #[trigger] f[i].0 != "operation"@ by {
            assert(f[i].0.len() != "operation"@.len() || f[i].0[0] != "operation"@[0]);
        }
    }
}

/// The records of a table written before a date.
#[derive(Clone, Debug, PartialEq)]
pub struct DeleteFilesBeforeOptions {
    pub schema: String,
    pub table: String,
    pub date: String,
}

impl ObjectFields for DeleteFilesBeforeOptions {
    open spec fn fields(&self) -> Seq<Entry> {
        seq![
            ("schema"@, JsonValue::Str(self.schema@)),
            ("table"@, JsonValue::Str(self.table@)),
            ("date"@, JsonValue::Str(self.date@)),
        ]
    }

    fn into_fields(self) -> (r: Vec<(String, Json)>) {
        let ghost f = self.fields();
        let r = vec![
            entry("schema", Json::Str(self.schema)),
            entry("table", Json::Str(self.table)),
            entry("date", Json::Str(self.date)),
        ];
        assert(entries_view(r@) =~= f);
        r
    }

    fn from_fields(entries: Vec<(String, Json)>) -> (r: Option<Self>) {
        if entries.len() != 3
            || !key_is(&entries, 0, "schema")
            || !key_is(&entries, 1, "table")
            || !key_is(&entries, 2, "date")
        {
            proof {
                assert forall|o: Self| #[trigger] o.fields() != entries_view(entries@) by {
                    let f = o.fields();
                    assert(f.len() == 3);
                    assert(f[0].0 == "schema"@);
                    assert(f[1].0 == "table"@);
                    assert(f[2].0 == "date"@);
                }
            }
            return None;
        }
        let schema = match read_string(&entries[0].1) {
            Some(v) => v,
            None => {
                proof {
                    assert forall|o: Self| #[trigger] o.fields() != entries_view(entries@) by {
                        assert(o.fields()[0].1 == JsonValue::Str(o.schema@));
                    }
                }
                return None;
            },
        };
        let table = match read_string(&entries[1].1) {
            Some(v) => v,
            None => {
                proof {
                    assert forall|o: Self| #[trigger] o.fields() != entries_view(entries@) by {
                        assert(o.fields()[1].1 == JsonValue::Str(o.table@));
                    }
                }
                return None;
            },
        };
        let date = match read_string(&entries[2].1) {
            Some(v) => v,
            None => {
                proof {
                    assert forall|o: Self| #[trigger] o.fields() != entries_view(entries@) by {
                        assert(o.fields()[2].1 == JsonValue::Str(o.date@));
                    }
                }
                return None;
            },
        };
        let r = DeleteFilesBeforeOptions { schema, table, date };
        assert(r.fields() =~= entries_view(entries@));
        Some(r)
    }
}

impl RequestFields for DeleteFilesBeforeOptions {
    proof fn lemma_no_operation_key(&self) {
        reveal_strlit("operation");
        reveal_strlit("schema");
        reveal_strlit("table");
        reveal_strlit("date");
        let f = self.fields();
        assert forall|i: int| 0 <= i < f.len() implies #[trigger] f[i].0 != "operation"@ by {
            assert(f[i].0.len() != "operation"@.len() || f[i].0[0] != "operation"@[0]);
        }
    }
}

/// An export of a search's results to an S3 bucket.
#[derive(Clone, Debug, PartialEq)]
pub struct S3DetailsOptions {
    pub format: String,
    pub s3: S3Auth,
    pub search_operation: SearchOperation,
}

impl ObjectFields for S3DetailsOptions {
    open spec fn fields(&self) -> Seq<Entry> {
        seq![
            ("format"@, JsonValue::Str(self.format@)),
            ("s3"@, JsonValue::Object(self.s3.fields())),
            ("search_operation"@, JsonValue::Object(self.search_operation.fields())),
        ]
    }

    fn into_fields(self) -> (r: Vec<(String, Json)>) {
        let ghost f = self.fields();
        let r = vec![
            entry("format", Json::Str(self.format)),
            entry("s3", object(self.s3)),
            entry("search_operation", object(self.search_operation)),
        ];
        assert(entries_view(r@) =~= f);
        r
    }

    fn from_fields(entries: Vec<(String, Json)>) -> (r: Option<Self>) {
        if entries.len() != 3
            || !key_is(&entries, 0, "format")
            || !key_is(&entries, 1, "s3")
            || !key_is(&entries, 2, "search_operation")
        {
            proof {
                assert forall|o: Self| #[trigger] o.fields() != entries_view(entries@) by {
                    let f = o.fields();
                    assert(f.len() == 3);
                    assert(f[0].0 == "format"@);
                    assert(f[1].0 == "s3"@);
                    assert(f[2].0 == "search_operation"@);
                }
            }
            return None;
        }
        let ghost whole = entries_view(entries@);
        let format = match read_string(&entries[0].1) {
            Some(v) => v,
            None => {
                proof {
                    assert forall|o: Self| #[trigger] o.fields() != entries_view(entries@) by {
                        assert(o.fields()[0].1 == JsonValue::Str(o.format@));
                    }
                }
                return None;
            },
        };
        let mut entries = entries;
        let ghost before = entries@;
        let (_, search_operation_json) = entries.pop().unwrap();
        let search_operation = match read_object::<SearchOperation>(search_operation_json) {
            Some(v) => v,
            None => {
                proof {
                    assert forall|o: Self| #[trigger] o.fields() != entries_view(before) by {
                        assert(o.fields()[2].1 == JsonValue::Object(o.search_operation.fields()));
                        assert(entries_view(before)[2].1 == before[2].1@);
                    }
                }
                return None;
            },
        };
        let ghost before = entries@;
        let (_, s3_json) = entries.pop().unwrap();
        let s3 = match read_object::<S3Auth>(s3_json) {
            Some(v) => v,
            None => {
                proof {
                    assert forall|o: Self| #[trigger] o.fields() != entries_view(before) by {
                        assert(o.fields()[1].1 == JsonValue::Object(o.s3.fields()));
                        assert(entries_view(before)[1].1 == before[1].1@);
                    }
                }
                return None;
            },
        };
        let r = S3DetailsOptions { format, s3, search_operation };
        assert(r.fields() =~= whole);
        Some(r)
    }
}

impl RequestFields for S3DetailsOptions {
    proof fn lemma_no_operation_key(&self) {
        reveal_strlit("operation");
        reveal_strlit("format");
        reveal_strlit("s3");
        reveal_strlit("search_operation");
        let f = self.fields();
        assert forall|i: int| 0 <= i < f.len() implies #[trigger] f[i].0 != "operation"@ by {
            assert(f[i].0.len() != "operation"@.len() || f[i].0[0] != "operation"@[0]);
        }
    }
}

/// An export of a search's results to a path on the server.
#[derive(Clone, Debug, PartialEq)]
pub struct ExportLocalOptions {
    pub format: String,
    pub path: String,
    pub search_operation: SearchOperation,
}

impl ObjectFields for ExportLocalOptions {
    open spec fn fields(&self) -> Seq<Entry> {
        seq![
            ("format"@, JsonValue::Str(self.format@)),
            ("path"@, JsonValue::Str(self.path@)),
            ("search_operation"@, JsonValue::Object(self.search_operation.fields())),
        ]
    }

    fn into_fields(self) -> (r: Vec<(String, Json)>) {
        let ghost f = self.fields();
        let r = vec![
            entry("format", Json::Str(self.format)),
            entry("path", Json::Str(self.path)),
            entry("search_operation", object(self.search_operation)),
        ];
        assert(entries_view(r@) =~= f);
        r
    }

    fn from_fields(entries: Vec<(String, Json)>) -> (r: Option<Self>) {
        if entries.len() != 3
            || !key_is(&entries, 0, "format")
            || !key_is(&entries, 1, "path")
            || !key_is(&entries, 2, "search_operation")
        {
            proof {
                assert forall|o: Self| #[trigger] o.fields() != entries_view(entries@) by {
                    let f = o.fields();
                    assert(f.len() == 3);
                    assert(f[0].0 == "format"@);
                    assert(f[1].0 == "path"@);
                    assert(f[2].0 == "search_operation"@);
                }
            }
            return None;
        }
        let ghost whole = entries_view(entries@);
        let format = match read_string(&entries[0].1) {
            Some(v) => v,
            None => {
                proof {
                    assert forall|o: Self| #[trigger] o.fields() != entries_view(entries@) by {
                        assert(o.fields()[0].1 == JsonValue::Str(o.format@));
                    }
                }
                return None;
            },
        };
        let path = match read_string(&entries[1].1) {
            Some(v) => v,
            None => {
                proof {
                    assert forall|o: Self| #[trigger] o.fields() != entries_view(entries@) by {
                        assert(o.fields()[1].1 == JsonValue::Str(o.path@));
                    }
                }
                return None;
            },
        };
        let mut entries = entries;
        let ghost before = entries@;
        let (_, search_operation_json) = entries.pop().unwrap();
        let search_operation = match read_object::<SearchOperation>(search_operation_json) {
            Some(v) => v,
            None => {
                proof {
                    assert forall|o: Self| #[trigger] o.fields() != entries_view(before) by {
                        assert(o.fields()[2].1 == JsonValue::Object(o.search_operation.fields()));
                        assert(entries_view(before)[2].1 == before[2].1@);
                    }
                }
                return None;
            },
        };
        let r = ExportLocalOptions { format, path, search_operation };
        assert(r.fields() =~= whole);
        Some(r)
    }
}

impl RequestFields for ExportLocalOptions {
    proof fn lemma_no_operation_key(&self) {
        reveal_strlit("operation");
        reveal_strlit("format");
        reveal_strlit("path");
        reveal_strlit("search_operation");
        let f = self.fields();
        assert forall|i: int| 0 <= i < f.len() implies #[trigger] f[i].0 != "operation"@ by {
            assert(f[i].0.len() != "operation"@.len() || f[i].0[0] != "operation"@[0]);
        }
    }
}

/// A read of the server's log; unset fields are sent as `null`.
#[derive(Clone, Debug, PartialEq)]
pub struct LogsOptions {
    pub limit: Option<usize>,
    pub start: Option<usize>,
    pub from: Option<String>,
    pub until: Option<String>,
    pub order: Option<String>,
}

impl ObjectFields for LogsOptions {
    open spec fn fields(&self) -> Seq<Entry> {
        seq![
            ("limit"@, opt_count(self.limit)),
            ("start"@, opt_count(self.start)),
            ("from"@, opt_str(opt_string_view(self.from))),
            ("until"@, opt_str(opt_string_view(self.until))),
            ("order"@, opt_str(opt_string_view(self.order))),
        ]
    }

    fn into_fields(self) -> (r: Vec<(String, Json)>) {
        let ghost f = self.fields();
        let r = vec![
            entry("limit", optional_count(self.limit)),
            entry("start", optional_count(self.start)),
            entry("from", optional_string(self.from)),
            entry("until", optional_string(self.until)),
            entry("order", optional_string(self.order)),
        ];
        assert(entries_view(r@) =~= f);
        r
    }

    fn from_fields(entries: Vec<(String, Json)>) -> (r: Option<Self>) {
        if entries.len() != 5
            || !key_is(&entries, 0, "limit")
            || !key_is(&entries, 1, "start")
            || !key_is(&entries, 2, "from")
            || !key_is(&entries, 3, "until")
            || !key_is(&entries, 4, "order")
        {
            proof {
                assert forall|o: Self| #[trigger] o.fields() != entries_view(entries@) by {
                    let f = o.fields();
                    assert(f.len() == 5);
                    assert(f[0].0 == "limit"@);
                    assert(f[1].0 == "start"@);
                    assert(f[2].0 == "from"@);
                    assert(f[3].0 == "until"@);
                    assert(f[4].0 == "order"@);
                }
            }
            return None;
        }
        let limit = match read_optional_count(&entries[0].1) {
            Some(v) => v,
            None => {
                proof {
                    assert forall|o: Self| #[trigger] o.fields() != entries_view(entries@) by {
                        assert(o.fields()[0].1 == opt_count(o.limit));
                    }
                }
                return None;
            },
        };
        let start = match read_optional_count(&entries[1].1) {
            Some(v) => v,
            None => {
                proof {
                    assert forall|o: Self| #[trigger] o.fields() != entries_view(entries@) by {
                        assert(o.fields()[1].1 == opt_count(o.start));
                    }
                }
                return None;
            },
        };
        let from = match read_optional_string(&entries[2].1) {
            Some(v) => v,
            None => {
                proof {
                    assert forall|o: Self| #[trigger] o.fields() != entries_view(entries@) by {
                        assert(o.fields()[2].1 == opt_str(opt_string_view(o.from)));
                    }
                }
                return None;
            },
        };
        let until = match read_optional_string(&entries[3].1) {
            Some(v) => v,
            None => {
                proof {
                    assert forall|o: Self| #[trigger] o.fields() != entries_view(entries@) by {
                        assert(o.fields()[3].1 == opt_str(opt_string_view(o.until)));
                    }
                }
                return None;
            },
        };
        let order = match read_optional_string(&entries[4].1) {
            Some(v) => v,
            None => {
                proof {
                    assert forall|o: Self| #[trigger] o.fields() != entries_view(entries@) by {
                        assert(o.fields()[4].1 == opt_str(opt_string_view(o.order)));
                    }
                }
                return None;
            },
        };
        let r = LogsOptions { limit, start, from, until, order };
        assert(r.fields() =~= entries_view(entries@));
        Some(r)
    }
}

impl RequestFields for LogsOptions {
    proof fn lemma_no_operation_key(&self) {
        reveal_strlit("operation");
        reveal_strlit("limit");
        reveal_strlit("start");
        reveal_strlit("from");
        reveal_strlit("until");
        reveal_strlit("order");
        let f = self.fields();
        assert forall|i: int| 0 <= i < f.len() implies #[trigger] f[i].0 != "operation"@ by {
            assert(f[i].0.len() != "operation"@.len() || f[i].0[0] != "operation"@[0]);
        }
    }
}

/// A job, by id.
#[derive(Clone, Debug, PartialEq)]
pub struct GetJobOptions {
    pub id: String,
}

impl ObjectFields for GetJobOptions {
    open spec fn fields(&self) -> Seq<Entry> {
        seq![
            ("id"@, JsonValue::Str(self.id@)),
        ]
    }

    fn into_fields(self) -> (r: Vec<(String, Json)>) {
        let ghost f = self.fields();
        let r = vec![
            entry("id", Json::Str(self.id)),
        ];
        assert(entries_view(r@) =~= f);
        r
    }

    fn from_fields(entries: Vec<(String, Json)>) -> (r: Option<Self>) {
        if entries.len() != 1 || !key_is(&entries, 0, "id") {
            proof {
                assert forall|o: Self| #[trigger] o.fields() != entries_view(entries@) by {
                    let f = o.fields();
                    assert(f.len() == 1 && f[0].0 == "id"@);
                }
            }
            return None;
        }
        let id = match read_string(&entries[0].1) {
            Some(v) => v,
            None => {
                proof {
                    assert forall|o: Self| #[trigger] o.fields() != entries_view(entries@) by {
                        assert(o.fields()[0].1 == JsonValue::Str(o.id@));
                    }
                }
                return None;
            },
        };
        let r = GetJobOptions { id };
        assert(r.fields() =~= entries_view(entries@));
        Some(r)
    }
}

impl RequestFields for GetJobOptions {
    proof fn lemma_no_operation_key(&self) {
        reveal_strlit("operation");
        reveal_strlit("id");
        let f = self.fields();
        assert forall|i: int| 0 <= i < f.len() implies #[trigger] f[i].0 != "operation"@ by {
            assert(f[i].0.len() != "operation"@.len() || f[i].0[0] != "operation"@[0]);
        }
    }
}

/// The jobs started between two dates.
#[derive(Clone, Debug, PartialEq)]
pub struct JobsByDateOptions {
    pub from_date: String,
    pub to_date: String,
}

impl ObjectFields for JobsByDateOptions {
    open spec fn fields(&self) -> Seq<Entry> {
        seq![
            ("from_date"@, JsonValue::Str(self.from_date@)),
            ("to_date"@, JsonValue::Str(self.to_date@)),
        ]
    }

    fn into_fields(self) -> (r: Vec<(String, Json)>) {
        let ghost f = self.fields();
        let r = vec![
            entry("from_date", Json::Str(self.from_date)),
            entry("to_date", Json::Str(self.to_date)),
        ];
        assert(entries_view(r@) =~= f);
        r
    }

    fn from_fields(entries: Vec<(String, Json)>) -> (r: Option<Self>) {
        if entries.len() != 2
            || !key_is(&entries, 0, "from_date")
            || !key_is(&entries, 1, "to_date")
        {
            proof {
                assert forall|o: Self| #[trigger] o.fields() != entries_view(entries@) by {
                    let f = o.fields();
                    assert(f.len() == 2 && f[0].0 == "from_date"@ && f[1].0 == "to_date"@);
                }
            }
            return None;
        }
        let from_date = match read_string(&entries[0].1) {
            Some(v) => v,
            None => {
                proof {
                    assert forall|o: Self| #[trigger] o.fields() != entries_view(entries@) by {
                        assert(o.fields()[0].1 == JsonValue::Str(o.from_date@));
                    }
                }
                return None;
            },
        };
        let to_date = match read_string(&entries[1].1) {
            Some(v) => v,
            None => {
                proof {
                    assert forall|o: Self| #[trigger] o.fields() != entries_view(entries@) by {
                        assert(o.fields()[1].1 == JsonValue::Str(o.to_date@));
                    }
                }
                return None;
            },
        };
        let r = JobsByDateOptions { from_date, to_date };
        assert(r.fields() =~= entries_view(entries@));
        Some(r)
    }
}

impl RequestFields for JobsByDateOptions {
    proof fn lemma_no_operation_key(&self) {
        reveal_strlit("operation");
        reveal_strlit("from_date");
        reveal_strlit("to_date");
        let f = self.fields();
        assert forall|i: int| 0 <= i < f.len() implies #[trigger] f[i].0 != "operation"@ by {
            assert(f[i].0.len() != "operation"@.len() || f[i].0[0] != "operation"@[0]);
        }
    }
}

/// The parts of the system information to return; unset asks for all and is sent as `null`.
#[derive(Clone, Debug, PartialEq)]
pub struct SystemInformationOptions {
    pub attributes: Option<Vec<String>>,
}

impl ObjectFields for SystemInformationOptions {
    open spec fn fields(&self) -> Seq<Entry> {
        seq![
            ("attributes"@, opt_str_array(opt_strings_view(self.attributes))),
        ]
    }

    fn into_fields(self) -> (r: Vec<(String, Json)>) {
        let ghost f = self.fields();
        let r = vec![
            entry("attributes", optional_string_array(&self.attributes)),
        ];
        assert(entries_view(r@) =~= f);
        r
    }

    fn from_fields(entries: Vec<(String, Json)>) -> (r: Option<Self>) {
        if entries.len() != 1 || !key_is(&entries, 0, "attributes") {
            proof {
                assert forall|o: Self| #[trigger] o.fields() != entries_view(entries@) by {
                    let f = o.fields();
                    assert(f.len() == 1 && f[0].0 == "attributes"@);
                }
            }
            return None;
        }
        let attributes = match read_optional_string_array(&entries[0].1) {
            Some(v) => v,
            None => {
                proof {
                    assert forall|o: Self| #[trigger] o.fields() != entries_view(entries@) by {
                        assert(o.fields()[0].1 == opt_str_array(opt_strings_view(o.attributes)));
                    }
                }
                return None;
            },
        };
        let r = SystemInformationOptions { attributes };
        assert(r.fields() =~= entries_view(entries@));
        Some(r)
    }
}

impl RequestFields for SystemInformationOptions {
    proof fn lemma_no_operation_key(&self) {
        reveal_strlit("operation");
        reveal_strlit("attributes");
        let f = self.fields();
        assert forall|i: int| 0 <= i < f.len() implies #[trigger] f[i].0 != "operation"@ by {
            assert(f[i].0.len() != "operation"@.len() || f[i].0[0] != "operation"@[0]);
        }
    }
}

/// A license key and the company it was issued to.
#[derive(Clone, Debug, PartialEq)]
pub struct LicenseOptions {
    pub key: String,
    pub company: String,
}

impl ObjectFields for LicenseOptions {
    open spec fn fields(&self) -> Seq<Entry> {
        seq![
            ("key"@, JsonValue::Str(self.key@)),
            ("company"@, JsonValue::Str(self.company@)),
        ]
    }

    fn into_fields(self) -> (r: Vec<(String, Json)>) {
        let ghost f = self.fields();
        let r = vec![
            entry("key", Json::Str(self.key)),
            entry("company", Json::Str(self.company)),
        ];
        assert(entries_view(r@) =~= f);
        r
    }

    fn from_fields(entries: Vec<(String, Json)>) -> (r: Option<Self>) {
        if entries.len() != 2 || !key_is(&entries, 0, "key") || !key_is(&entries, 1, "company") {
            proof {
                assert forall|o: Self| #[trigger] o.fields() != entries_view(entries@) by {
                    let f = o.fields();
                    assert(f.len() == 2 && f[0].0 == "key"@ && f[1].0 == "company"@);
                }
            }
            return None;
        }
        let key = match read_string(&entries[0].1) {
            Some(v) => v,
            None => {
                proof {
                    assert forall|o: Self| #[trigger] o.fields() != entries_view(entries@) by {
                        assert(o.fields()[0].1 == JsonValue::Str(o.key@));
                    }
                }
                return None;
            },
        };
        let company = match read_string(&entries[1].1) {
            Some(v) => v,
            None => {
                proof {
                    assert forall|o: Self| #[trigger] o.fields() != entries_view(entries@) by {
                        assert(o.fields()[1].1 == JsonValue::Str(o.company@));
                    }
                }
                return None;
            },
        };
        let r = LicenseOptions { key, company };
        assert(r.fields() =~= entries_view(entries@));
        Some(r)
    }
}

impl RequestFields for LicenseOptions {
    proof fn lemma_no_operation_key(&self) {
        reveal_strlit("operation");
        reveal_strlit("key");
        reveal_strlit("company");
        let f = self.fields();
        assert forall|i: int| 0 <= i < f.len() implies #[trigger] f[i].0 != "operation"@ by {
            assert(f[i].0.len() != "operation"@.len() || f[i].0[0] != "operation"@[0]);
        }
    }
}

/// A node of the cluster to add.
#[derive(Clone, Debug, PartialEq)]
pub struct AddNodeOptions {
    pub name: String,
    pub port: String,
    pub host: String,
}

impl ObjectFields for AddNodeOptions {
    open spec fn fields(&self) -> Seq<Entry> {
        seq![
            ("name"@, JsonValue::Str(self.name@)),
            ("port"@, JsonValue::Str(self.port@)),
            ("host"@, JsonValue::Str(self.host@)),
        ]
    }

    fn into_fields(self) -> (r: Vec<(String, Json)>) {
        let ghost f = self.fields();
        let r = vec![
            entry("name", Json::Str(self.name)),
            entry("port", Json::Str(self.port)),
            entry("host", Json::Str(self.host)),
        ];
        assert(entries_view(r@) =~= f);
        r
    }

    fn from_fields(entries: Vec<(String, Json)>) -> (r: Option<Self>) {
        if entries.len() != 3
            || !key_is(&entries, 0, "name")
            || !key_is(&entries, 1, "port")
            || !key_is(&entries, 2, "host")
        {
            proof {
                assert forall|o: Self| #[trigger] o.fields() != entries_view(entries@) by {
                    let f = o.fields();
                    assert(f.len() == 3);
                    assert(f[0].0 == "name"@);
                    assert(f[1].0 == "port"@);
                    assert(f[2].0 == "host"@);
                }
            }
            return None;
        }
        let name = match read_string(&entries[0].1) {
            Some(v) => v,
            None => {
                proof {
                    assert forall|o: Self| #[trigger] o.fields() != entries_view(entries@) by {
                        assert(o.fields()[0].1 == JsonValue::Str(o.name@));
                    }
                }
                return None;
            },
        };
        let port = match read_string(&entries[1].1) {
            Some(v) => v,
            None => {
                proof {
                    assert forall|o: Self| #[trigger] o.fields() != entries_view(entries@) by {
                        assert(o.fields()[1].1 == JsonValue::Str(o.port@));
                    }
                }
                return None;
            },
        };
        let host = match read_string(&entries[2].1) {
            Some(v) => v,
            None => {
                proof {
                    assert forall|o: Self| #[trigger] o.fields() != entries_view(entries@) by {
                        assert(o.fields()[2].1 == JsonValue::Str(o.host@));
                    }
                }
                return None;
            },
        };
        let r = AddNodeOptions { name, port, host };
        assert(r.fields() =~= entries_view(entries@));
        Some(r)
    }
}

impl RequestFields for AddNodeOptions {
    proof fn lemma_no_operation_key(&self) {
        reveal_strlit("operation");
        reveal_strlit("name");
        reveal_strlit("port");
        reveal_strlit("host");
        let f = self.fields();
        assert forall|i: int| 0 <= i < f.len() implies #[trigger] f[i].0 != "operation"@ by {
            assert(f[i].0.len() != "operation"@.len() || f[i].0[0] != "operation"@[0]);
        }
    }
}

/// A node of the cluster to update.
#[derive(Clone, Debug, PartialEq)]
pub struct UpdateNodeOptions {
    pub name: String,
    pub port: String,
    pub host: String,
}

impl ObjectFields for UpdateNodeOptions {
    open spec fn fields(&self) -> Seq<Entry> {
        seq![
            ("name"@, JsonValue::Str(self.name@)),
            ("port"@, JsonValue::Str(self.port@)),
            ("host"@, JsonValue::Str(self.host@)),
        ]
    }

    fn into_fields(self) -> (r: Vec<(String, Json)>) {
        let ghost f = self.fields();
        let r = vec![
            entry("name", Json::Str(self.name)),
            entry("port", Json::Str(self.port)),
            entry("host", Json::Str(self.host)),
        ];
        assert(entries_view(r@) =~= f);
        r
    }

    fn from_fields(entries: Vec<(String, Json)>) -> (r: Option<Self>) {
        if entries.len() != 3
            || !key_is(&entries, 0, "name")
            || !key_is(&entries, 1, "port")
            || !key_is(&entries, 2, "host")
        {
            proof {
                assert forall|o: Self| #[trigger] o.fields() != entries_view(entries@) by {
                    let f = o.fields();
                    assert(f.len() == 3);
                    assert(f[0].0 == "name"@);
                    assert(f[1].0 == "port"@);
                    assert(f[2].0 == "host"@);
                }
            }
            return None;
        }
        let name = match read_string(&entries[0].1) {
            Some(v) => v,
            None => {
                proof {
                    assert forall|o: Self| #[trigger] o.fields() != entries_view(entries@) by {
                        assert(o.fields()[0].1 == JsonValue::Str(o.name@));
                    }
                }
                return None;
            },
        };
        let port = match read_string(&entries[1].1) {
            Some(v) => v,
            None => {
                proof {
                    assert forall|o: Self| #[trigger] o.fields() != entries_view(entries@) by {
                        assert(o.fields()[1].1 == JsonValue::Str(o.port@));
                    }
                }
                return None;
            },
        };
        let host = match read_string(&entries[2].1) {
            Some(v) => v,
            None => {
                proof {
                    assert forall|o: Self| #[trigger] o.fields() != entries_view(entries@) by {
                        assert(o.fields()[2].1 == JsonValue::Str(o.host@));
                    }
                }
                return None;
            },
        };
        let r = UpdateNodeOptions { name, port, host };
        assert(r.fields() =~= entries_view(entries@));
        Some(r)
    }
}

impl RequestFields for UpdateNodeOptions {
    proof fn lemma_no_operation_key(&self) {
        reveal_strlit("operation");
        reveal_strlit("name");
        reveal_strlit("port");
        reveal_strlit("host");
        let f = self.fields();
        assert forall|i: int| 0 <= i < f.len() implies #[trigger] f[i].0 != "operation"@ by {
            assert(f[i].0.len() != "operation"@.len() || f[i].0[0] != "operation"@[0]);
        }
    }
}

/// A node of the cluster, by name.
#[derive(Clone, Debug, PartialEq)]
pub struct RemoveNodeOptions {
    pub name: String,
}

impl ObjectFields for RemoveNodeOptions {
    open spec fn fields(&self) -> Seq<Entry> {
        seq![
            ("name"@, JsonValue::Str(self.name@)),
        ]
    }

    fn into_fields(self) -> (r: Vec<(String, Json)>) {
        let ghost f = self.fields();
        let r = vec![
            entry("name", Json::Str(self.name)),
        ];
        assert(entries_view(r@) =~= f);
        r
    }

    fn from_fields(entries: Vec<(String, Json)>) -> (r: Option<Self>) {
        if entries.len() != 1 || !key_is(&entries, 0, "name") {
            proof {
                assert forall|o: Self| #[trigger] o.fields() != entries_view(entries@) by {
                    let f = o.fields();
                    assert(f.len() == 1 && f[0].0 == "name"@);
                }
            }
            return None;
        }
        let name = match read_string(&entries[0].1) {
            Some(v) => v,
            None => {
                proof {
                    assert forall|o: Self| #[trigger] o.fields() != entries_view(entries@) by {
                        assert(o.fields()[0].1 == JsonValue::Str(o.name@));
                    }
                }
                return None;
            },
        };
        let r = RemoveNodeOptions { name };
        assert(r.fields() =~= entries_view(entries@));
        Some(r)
    }
}

impl RequestFields for RemoveNodeOptions {
    proof fn lemma_no_operation_key(&self) {
        reveal_strlit("operation");
        reveal_strlit("name");
        let f = self.fields();
        assert forall|i: int| 0 <= i < f.len() implies #[trigger] f[i].0 != "operation"@ by {
            assert(f[i].0.len() != "operation"@.len() || f[i].0[0] != "operation"@[0]);
        }
    }
}

/// The search whose results an export writes.
#[derive(Clone, Debug, PartialEq)]
pub struct SearchOperation {
    pub operation: String,
    pub sql: String,
}

impl ObjectFields for SearchOperation {
    open spec fn fields(&self) -> Seq<Entry> {
        seq![
            ("operation"@, JsonValue::Str(self.operation@)),
            ("sql"@, JsonValue::Str(self.sql@)),
        ]
    }

    fn into_fields(self) -> (r: Vec<(String, Json)>) {
        let ghost f = self.fields();
        let r = vec![
            entry("operation", Json::Str(self.operation)),
            entry("sql", Json::Str(self.sql)),
        ];
        assert(entries_view(r@) =~= f);
        r
    }

    fn from_fields(entries: Vec<(String, Json)>) -> (r: Option<Self>) {
        if entries.len() != 2 || !key_is(&entries, 0, "operation") || !key_is(&entries, 1, "sql") {
            proof {
                assert forall|o: Self| #[trigger] o.fields() != entries_view(entries@) by {
                    let f = o.fields();
                    assert(f.len() == 2 && f[0].0 == "operation"@ && f[1].0 == "sql"@);
                }
            }
            return None;
        }
        let operation = match read_string(&entries[0].1) {
            Some(v) => v,
            None => {
                proof {
                    assert forall|o: Self| #[trigger] o.fields() != entries_view(entries@) by {
                        assert(o.fields()[0].1 == JsonValue::Str(o.operation@));
                    }
                }
                return None;
            },
        };
        let sql = match read_string(&entries[1].1) {
            Some(v) => v,
            None => {
                proof {
                    assert forall|o: Self| #[trigger] o.fields() != entries_view(entries@) by {
                        assert(o.fields()[1].1 == JsonValue::Str(o.sql@));
                    }
                }
                return None;
            },
        };
        let r = SearchOperation { operation, sql };
        assert(r.fields() =~= entries_view(entries@));
        Some(r)
    }
}

/// The bucket, key and credentials of an S3 export.
#[derive(Clone, Debug, PartialEq)]
pub struct S3Auth {
    pub aws_access_key_id: String,
    pub aws_secret_access_key: String,
    pub bucket: String,
    pub key: String,
}

impl ObjectFields for S3Auth {
    open spec fn fields(&self) -> Seq<Entry> {
        seq![
            ("aws_access_key_id"@, JsonValue::Str(self.aws_access_key_id@)),
            ("aws_secret_access_key"@, JsonValue::Str(self.aws_secret_access_key@)),
            ("bucket"@, JsonValue::Str(self.bucket@)),
            ("key"@, JsonValue::Str(self.key@)),
        ]
    }

    fn into_fields(self) -> (r: Vec<(String, Json)>) {
        let ghost f = self.fields();
        let r = vec![
            entry("aws_access_key_id", Json::Str(self.aws_access_key_id)),
            entry("aws_secret_access_key", Json::Str(self.aws_secret_access_key)),
            entry("bucket", Json::Str(self.bucket)),
            entry("key", Json::Str(self.key)),
        ];
        assert(entries_view(r@) =~= f);
        r
    }

    fn from_fields(entries: Vec<(String, Json)>) -> (r: Option<Self>) {
        if entries.len() != 4
            || !key_is(&entries, 0, "aws_access_key_id")
            || !key_is(&entries, 1, "aws_secret_access_key")
            || !key_is(&entries, 2, "bucket")
            || !key_is(&entries, 3, "key")
        {
            proof {
                assert forall|o: Self| #[trigger] o.fields() != entries_view(entries@) by {
                    let f = o.fields();
                    assert(f.len() == 4);
                    assert(f[0].0 == "aws_access_key_id"@);
                    assert(f[1].0 == "aws_secret_access_key"@);
                    assert(f[2].0 == "bucket"@);
                    assert(f[3].0 == "key"@);
                }
            }
            return None;
        }
        let aws_access_key_id = match read_string(&entries[0].1) {
            Some(v) => v,
            None => {
                proof {
                    assert forall|o: Self| #[trigger] o.fields() != entries_view(entries@) by {
                        assert(o.fields()[0].1 == JsonValue::Str(o.aws_access_key_id@));
                    }
                }
                return None;
            },
        };
        let aws_secret_access_key = match read_string(&entries[1].1) {
            Some(v) => v,
            None => {
                proof {
                    assert forall|o: Self| #[trigger] o.fields() != entries_view(entries@) by {
                        assert(o.fields()[1].1 == JsonValue::Str(o.aws_secret_access_key@));
                    }
                }
                return None;
            },
        };
        let bucket = match read_string(&entries[2].1) {
            Some(v) => v,
            None => {
                proof {
                    assert forall|o: Self| #[trigger] o.fields() != entries_view(entries@) by {
                        assert(o.fields()[2].1 == JsonValue::Str(o.bucket@));
                    }
                }
                return None;
            },
        };
        let key = match read_string(&entries[3].1) {
            Some(v) => v,
            None => {
                proof {
                    assert forall|o: Self| #[trigger] o.fields() != entries_view(entries@) by {
                        assert(o.fields()[3].1 == JsonValue::Str(o.key@));
                    }
                }
                return None;
            },
        };
        let r = S3Auth { aws_access_key_id, aws_secret_access_key, bucket, key };
        assert(r.fields() =~= entries_view(entries@));
        Some(r)
    }
}

/// The order in which records are listed.
#[derive(Clone, Copy, Debug, PartialEq, Eq)]
pub enum AscDesc {
    Desc,
    Asc,
}

/// Every field of a log read is written, in its place, whether it is set or
/// not; an unset field is written as `null`.
pub proof fn lemma_logs_unset_null(options: LogsOptions)
    ensures
        options.fields().len() == 5,
        options.limit is None ==> options.fields()[0] == ("limit"@, JsonValue::Null),
        options.start is None ==> options.fields()[1] == ("start"@, JsonValue::Null),
        options.from is None ==> options.fields()[2] == ("from"@, JsonValue::Null),
        options.until is None ==> options.fields()[3] == ("until"@, JsonValue::Null),
        options.order is None ==> options.fields()[4] == ("order"@, JsonValue::Null),
{
}

/// Every field of a user change is written, in its place, whether it is set
/// or not; an unset role or password is written as `null`.
pub proof fn lemma_user_alter_unset_null(options: UserAlterOptions)
    ensures
        options.fields().len() == 4,
        options.role is None ==> options.fields()[0] == ("role"@, JsonValue::Null),
        options.password is None ==> options.fields()[2] == ("password"@, JsonValue::Null),
{
}

/// The attributes of a system information request are written whether they
/// are set or not; unset, they are written as `null`.
pub proof fn lemma_system_information_unset_null(options: SystemInformationOptions)
    ensures
        options.fields().len() == 1,
        options.attributes is None ==> options.fields()[0] == ("attributes"@, JsonValue::Null),
{
}

} // verus!
