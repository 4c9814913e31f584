use vstd::prelude::*;

verus! {

/// A JSON value, held as plain data.
///
/// Numbers are kept as JSON itself carries them: an integer that fits in 64
/// bits is held exactly, any other number as the text that writes it.
#[derive(Debug, PartialEq)]
pub enum Json {
    Null,
    Bool(bool),
    PosInt(u64),
    NegInt(i64),
    Decimal(String),
    Str(String),
    Array(Vec<Json>),
    Object(Vec<(String, Json)>),
}

/// The mathematical value of a [`Json`]: an object is the sequence of its
/// entries, in order.
pub enum JsonValue {
    Null,
    Bool(bool),
    Int(int),
    Decimal(Seq<char>),
    Str(Seq<char>),
    Array(Seq<JsonValue>),
    Object(Seq<(Seq<char>, JsonValue)>),
}

/// One entry of an object: its key and its value.
pub type Entry = (Seq<char>, JsonValue);

impl View for Json {
    type V = JsonValue;

    open spec fn view(&self) -> JsonValue {
        json_view(*self)
    }
}

/// The value of a [`Json`].
pub open spec fn json_view(j: Json) -> JsonValue
    decreases j,
{
    match j {
        Json::Null => JsonValue::Null,
        Json::Bool(b) => JsonValue::Bool(b),
        Json::PosInt(n) => JsonValue::Int(n as int),
        Json::NegInt(n) => JsonValue::Int(n as int),
        Json::Decimal(s) => JsonValue::Decimal(s@),
        Json::Str(s) => JsonValue::Str(s@),
        Json::Array(items) => JsonValue::Array(item_views(items@)),
        Json::Object(entries) => JsonValue::Object(entry_views(entries@)),
    }
}

/// The values of a sequence of items, one by one.
pub open spec fn item_views(items: Seq<Json>) -> Seq<JsonValue>
    decreases items,
{
    if items.len() == 0 {
        Seq::empty()
    } else {
        seq![json_view(items[0])] + item_views(items.drop_first())
    }
}

/// The values of a sequence of entries, one by one.
pub open spec fn entry_views(entries: Seq<(String, Json)>) -> Seq<Entry>
    decreases entries,
{
    if entries.len() == 0 {
        Seq::empty()
    } else {
        seq![(entries[0].0@, json_view(entries[0].1))] + entry_views(entries.drop_first())
    }
}

/// The entries that a vector of exec entries stands for.
pub open spec fn entries_view(entries: Seq<(String, Json)>) -> Seq<Entry> {
    entries.map_values(|e: (String, Json)| (e.0@, e.1@))
}

/// The values of a sequence of items.
pub open spec fn items_view(items: Seq<Json>) -> Seq<JsonValue> {
    items.map_values(|j: Json| j@)
}

/// Entry values taken one by one are the values of each entry.
pub proof fn lemma_entry_views(entries: Seq<(String, Json)>)
    ensures
        entry_views(entries) == entries_view(entries),
    decreases entries.len(),
{
    if entries.len() > 0 {
        lemma_entry_views(entries.drop_first());
        assert(entry_views(entries) =~= entries_view(entries));
    } else {
        assert(entry_views(entries) =~= entries_view(entries));
    }
}

/// Item values taken one by one are the values of each item.
pub proof fn lemma_item_views(items: Seq<Json>)
    ensures
        item_views(items) == items_view(items),
    decreases items.len(),
{
    if items.len() > 0 {
        lemma_item_views(items.drop_first());
        assert(item_views(items) =~= items_view(items));
    } else {
        assert(item_views(items) =~= items_view(items));
    }
}

/// The value of an object is the sequence of its entries' values.
pub broadcast proof fn lemma_object_view(entries: Vec<(String, Json)>)
    ensures
        #[trigger] Json::Object(entries)@ == JsonValue::Object(entries_view(entries@)),
{
    lemma_entry_views(entries@);
}

/// The value of an array is the sequence of its items' values.
pub broadcast proof fn lemma_array_view(items: Vec<Json>)
    ensures
        #[trigger] Json::Array(items)@ == JsonValue::Array(items_view(items@)),
{
    lemma_item_views(items@);
}

/// Whether some entry of `entries` is under `key`.
pub open spec fn has_key(entries: Seq<Entry>, key: Seq<char>) -> bool {
    exists|i: int| 0 <= i < entries.len() && #[trigger] entries[i].0 == key
}

/// `entries` hold an entry `(key, value)`, and every entry under `key` holds
/// `value`.
pub open spec fn holds_entry(entries: Seq<Entry>, key: Seq<char>, value: JsonValue) -> bool {
    &&& exists|i: int| 0 <= i < entries.len() && #[trigger] entries[i] == (key, value)
    &&& forall|i: int| 0 <= i < entries.len() && #[trigger] entries[i].0 == key ==> entries[i].1 == value
}

/// `entries` with `value` put under `key`: each entry under `key` takes the
/// new value where it stands; where there is none, the entry is added last.
pub open spec fn set_entry(entries: Seq<Entry>, key: Seq<char>, value: JsonValue) -> Seq<Entry> {
    if has_key(entries, key) {
        entries.map_values(|e: Entry| if e.0 == key { (key, value) } else { e })
    } else {
        entries.push((key, value))
    }
}

/// A permission tree with its `super_user` flag set to `flag`.
///
/// An object keeps its other entries; `null` becomes an object that holds
/// the flag alone. No other value can take the flag.
pub open spec fn with_super_user(permission: JsonValue, flag: bool) -> JsonValue {
    match permission {
        JsonValue::Object(entries) => JsonValue::Object(
            set_entry(entries, "super_user"@, JsonValue::Bool(flag)),
        ),
        _ => JsonValue::Object(seq![("super_user"@, JsonValue::Bool(flag))]),
    }
}

/// Whether a permission tree can take a `super_user` flag.
pub open spec fn takes_flag(permission: JsonValue) -> bool {
    permission is Object || permission is Null
}

/// Setting a value under a key leaves that key holding that value, whatever
/// the entries held before.
pub proof fn lemma_set_entry_holds(entries: Seq<Entry>, key: Seq<char>, value: JsonValue)
    ensures
        holds_entry(set_entry(entries, key, value), key, value),
{
    let r = set_entry(entries, key, value);
    if has_key(entries, key) {
        let i = choose|i: int| 0 <= i < entries.len() && #[trigger] entries[i].0 == key;
        assert(r[i] == (key, value));
    } else {
        assert(r[entries.len() as int] == (key, value));
    }
}

/// A permission tree that was given a `super_user` flag holds that flag.
pub proof fn lemma_super_user_set(permission: JsonValue, flag: bool)
    ensures
        with_super_user(permission, flag) matches JsonValue::Object(entries)
            && holds_entry(entries, "super_user"@, JsonValue::Bool(flag)),
{
    match permission {
        JsonValue::Object(entries) => {
            lemma_set_entry_holds(entries, "super_user"@, JsonValue::Bool(flag));
        },
        _ => {
            let r = seq![("super_user"@, JsonValue::Bool(flag))];
            assert(r[0] == ("super_user"@, JsonValue::Bool(flag)));
        },
    }
}

/// Sets the `super_user` flag of a permission tree.
pub fn set_super_user(permission: Json, flag: bool) -> (r: Json)
    requires
        takes_flag(permission@),
    ensures
        r@ == with_super_user(permission@, flag),
{
    let key = "super_user".to_owned();
    match permission {
        Json::Object(mut entries) => {
            proof {
                lemma_object_view(entries);
            }
            let ghost old_view = entries_view(entries@);
            let ghost target = set_entry(old_view, key@, JsonValue::Bool(flag));
            let mut found = false;
            let mut i: usize = 0;
            while i < entries.len()
                invariant
                    i <= entries.len() == old_view.len(),
                    key@ == "super_user"@,
                    found == exists|j: int| 0 <= j < i && #[trigger] old_view[j].0 == key@,
                    forall|j: int|
                        0 <= j < i ==> #[trigger] entries_view(entries@)[j] == (if old_view[j].0
                            == key@ {
                            (key@, JsonValue::Bool(flag))
                        } else {
                            old_view[j]
                        }),
                    forall|j: int|
                        i <= j < entries.len() ==> #[trigger] entries_view(entries@)[j] == old_view[j],
                decreases entries.len() - i,
            {
                let ghost before = entries@;
                assert(old_view[i as int] == entries_view(before)[i as int]);
                if entries[i].0 == key {
                    entries[i].1 = Json::Bool(flag);
                    found = true;
                    assert(entries@ =~= before.update(i as int, (before[i as int].0, Json::Bool(flag))));
                    assert(old_view[i as int].0 == key@);
                } else {
                    assert(old_view[i as int].0 != key@);
                }
                assert forall|j: int| 0 <= j < entries.len() && j != i implies #[trigger] entries_view(
                    entries@,
                )[j] == entries_view(before)[j] by {
                    assert(entries@[j] == before[j]);
                }
                assert(entries_view(entries@)[i as int] == (if old_view[i as int].0 == key@ {
                    (key@, JsonValue::Bool(flag))
                } else {
                    old_view[i as int]
                }));
                i += 1;
            }
            if found {
                assert(entries_view(entries@) =~= target);
            } else {
                assert(!has_key(old_view, key@));
                assert(entries_view(entries@) =~= old_view);
                entries.push((key, Json::Bool(flag)));
                assert(entries_view(entries@) =~= target);
            }
            proof {
                lemma_object_view(entries);
            }
            Json::Object(entries)
        },
        _ => {
            let mut entries: Vec<(String, Json)> = Vec::new();
            entries.push((key, Json::Bool(flag)));
            proof {
                lemma_object_view(entries);
                assert(entries_view(entries@) =~= seq![("super_user"@, JsonValue::Bool(flag))]);
            }
            Json::Object(entries)
        },
    }
}

} // verus!
