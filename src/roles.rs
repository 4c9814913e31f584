//! Role options, whose `super_user` flag travels inside the permission tree.
use vstd::prelude::*;

use crate::fields::{key_is, read_string};
use crate::json::{
    Entry, Json, JsonValue, entries_view, has_key, holds_entry, lemma_object_view, set_entry,
    with_super_user,
};
use crate::request::{Operation, lemma_request_fields, open_request, request_fields, request_value};

verus! {

broadcast use lemma_object_view;

/// A role to add.
#[derive(Debug, PartialEq)]
pub struct AddRoleOptions {
    pub role: String,
    /// The role's permissions, an object; the flag is set inside it.
    pub permission: Json,
    pub super_user: bool,
}

/// Changes to a role.
#[derive(Debug, PartialEq)]
pub struct AlterRoleOptions {
    pub role: String,
    pub id: String,
    /// The role's permissions, an object; the flag is set inside it.
    pub permission: Json,
    pub super_user: bool,
}

impl AddRoleOptions {
    /// The entries of the request, with the flag set in the permission tree.
    pub open spec fn request_fields(&self) -> Seq<Entry> {
        seq![
            ("role"@, JsonValue::Str(self.role@)),
            ("permission"@, with_super_user(self.permission@, self.super_user)),
        ]
    }
}

impl AlterRoleOptions {
    /// The entries of the request, with the flag set in the permission tree.
    pub open spec fn request_fields(&self) -> Seq<Entry> {
        seq![
            ("id"@, JsonValue::Str(self.id@)),
            ("role"@, JsonValue::Str(self.role@)),
            ("permission"@, with_super_user(self.permission@, self.super_user)),
        ]
    }
}

/// `entries` without those under `key`.
pub open spec fn without_key(entries: Seq<Entry>, key: Seq<char>) -> Seq<Entry>
    decreases entries.len(),
{
    if entries.len() == 0 {
        Seq::empty()
    } else {
        let rest = without_key(entries.drop_last(), key);
        if entries.last().0 == key {
            rest
        } else {
            rest.push(entries.last())
        }
    }
}

/// A permission tree split into the rest of the tree and its `super_user`
/// flag, if it is an object that holds one flag under that key.
pub open spec fn split_super_user(permission: JsonValue) -> Option<(JsonValue, bool)> {
    match permission {
        JsonValue::Object(entries) => {
            if exists|b: bool| holds_entry(entries, "super_user"@, JsonValue::Bool(b)) {
                let b = choose|b: bool| holds_entry(entries, "super_user"@, JsonValue::Bool(b));
                Some((JsonValue::Object(without_key(entries, "super_user"@)), b))
            } else {
                None
            }
        },
        _ => None,
    }
}

/// Entries that lack a key are their own entries without that key.
pub proof fn lemma_without_absent_key(entries: Seq<Entry>, key: Seq<char>)
    requires
        !has_key(entries, key),
    ensures
        without_key(entries, key) == entries,
    decreases entries.len(),
{
    if entries.len() > 0 {
        let init = entries.drop_last();
        assert(!has_key(init, key)) by {
            if has_key(init, key) {
                let i = choose|i: int| 0 <= i < init.len() && #[trigger] init[i].0 == key;
                assert(entries[i].0 == key);
            }
        }
        lemma_without_absent_key(init, key);
        assert(entries.last().0 != key);
        assert(init.push(entries.last()) =~= entries);
    }
}

/// Splits the `super_user` flag out of a permission tree.
pub fn take_super_user(permission: Json) -> (r: Option<(Json, bool)>)
    ensures
        match r {
            Some((rest, flag)) => split_super_user(permission@) == Some((rest@, flag)),
            None => split_super_user(permission@) is None,
        },
{
    let key = "super_user".to_owned();
    match permission {
        Json::Object(mut entries) => {
            proof {
                lemma_object_view(entries);
            }
            let ghost all = entries_view(entries@);
            assert(permission@ == JsonValue::Object(all));
            let ghost n = entries@.len();
            assert(n == entries.len());
            let mut kept: Vec<(String, Json)> = Vec::new();
            let mut found: Option<bool> = None;
            let mut i: usize = 0;
            while entries.len() > 0
                invariant
                    key@ == "super_user"@,
                    n == all.len(),
                    n <= usize::MAX,
                    permission@ == JsonValue::Object(all),
                    i + entries@.len() == n,
                    entries_view(entries@) == all.subrange(i as int, n as int),
                    entries_view(kept@) == without_key(all.subrange(0, i as int), key@),
                    found is None <==> !has_key(all.subrange(0, i as int), key@),
                    found matches Some(b) ==> holds_entry(
                        all.subrange(0, i as int),
                        key@,
                        JsonValue::Bool(b),
                    ),
                decreases entries.len(),
            {
                let ghost prefix = all.subrange(0, i as int);
                let ghost next = all.subrange(0, i + 1);
                assert(next.drop_last() =~= prefix);
                assert(entries_view(entries@)[0] == all[i as int]);
                assert(next.last() == all[i as int]);
                let ghost before = entries@;
                let (k, v) = entries.remove(0);
                assert(all[i as int] == (k@, v@));
                assert forall|j: int| 0 <= j < entries@.len() implies #[trigger] entries_view(entries@)[j]
                    == all.subrange(i + 1, n as int)[j] by {
                    assert(entries@[j] == before[j + 1]);
                    assert(entries_view(before)[j + 1] == all.subrange(i as int, n as int)[j + 1]);
                }
                assert(entries_view(entries@) =~= all.subrange(i + 1, n as int));
                if k == key {
                    let flag = match v {
                        Json::Bool(b) => b,
                        _ => {
                            assert forall|b: bool|
                                !holds_entry(all, key@, JsonValue::Bool(b)) by {
                                assert(all[i as int].0 == key@);
                            }
                            return None;
                        },
                    };
                    match found {
                        Some(b) => {
                            if b != flag {
                                assert forall|c: bool|
                                    !holds_entry(all, key@, JsonValue::Bool(c)) by {
                                    let j = choose|j: int|
                                        0 <= j < prefix.len() && #[trigger] prefix[j] == (
                                            key@,
                                            JsonValue::Bool(b),
                                        );
                                    assert(all[j] == prefix[j]);
                                    assert(all[i as int].0 == key@);
                                }
                                return None;
                            }
                        },
                        None => {},
                    }
                    found = Some(flag);
                    assert(next[i as int] == (key@, JsonValue::Bool(flag)));
                    assert(next[i as int].0 == key@);
                    assert(without_key(next, key@) == without_key(prefix, key@));
                    assert forall|j: int|
                        0 <= j < next.len() && #[trigger] next[j].0 == key@ implies next[j].1
                        == JsonValue::Bool(flag) by {
                        if j < i {
                            assert(prefix[j] == next[j]);
                        }
                    }
                } else {
                    kept.push((k, v));
                    assert(entries_view(kept@) =~= without_key(prefix, key@).push(all[i as int]));
                    assert(found matches Some(b) ==> holds_entry(next, key@, JsonValue::Bool(b))) by {
                        if let Some(b) = found {
                            let j = choose|j: int|
                                0 <= j < prefix.len() && #[trigger] prefix[j] == (
                                    key@,
                                    JsonValue::Bool(b),
                                );
                            assert(next[j] == prefix[j]);
                            assert forall|m: int|
                                0 <= m < next.len() && #[trigger] next[m].0 == key@ implies next[m].1
                                == JsonValue::Bool(b) by {
                                if m < i {
                                    assert(prefix[m] == next[m]);
                                }
                            }
                        }
                    }
                    assert(has_key(next, key@) ==> has_key(prefix, key@)) by {
                        if has_key(next, key@) {
                            let j = choose|j: int| 0 <= j < next.len() && #[trigger] next[j].0 == key@;
                            assert(prefix[j] == next[j]);
                        }
                    }
                }
                assert(has_key(prefix, key@) ==> has_key(next, key@)) by {
                    if has_key(prefix, key@) {
                        let j = choose|j: int| 0 <= j < prefix.len() && #[trigger] prefix[j].0 == key@;
                        assert(prefix[j] == next[j]);
                    }
                }
                i += 1;
            }
            assert(all.subrange(0, n as int) =~= all);
            match found {
                Some(flag) => Some((Json::Object(kept), flag)),
                None => {
                    assert forall|b: bool| !holds_entry(all, key@, JsonValue::Bool(b)) by {
                        if holds_entry(all, key@, JsonValue::Bool(b)) {
                            let j = choose|j: int|
                                0 <= j < all.len() && #[trigger] all[j] == (key@, JsonValue::Bool(b));
                            assert(all[j].0 == key@);
                        }
                    }
                    None
                },
            }
        },
        _ => None,
    }
}

/// A permission tree that lacked the flag splits, once the flag is set, into
/// itself and that flag.
pub proof fn lemma_split_after_set(entries: Seq<Entry>, flag: bool)
    requires
        !has_key(entries, "super_user"@),
    ensures
        split_super_user(with_super_user(JsonValue::Object(entries), flag)) == Some(
            (JsonValue::Object(entries), flag),
        ),
{
    let key = "super_user"@;
    let set = entries.push((key, JsonValue::Bool(flag)));
    assert(set_entry(entries, key, JsonValue::Bool(flag)) == set);
    assert(set[entries.len() as int] == (key, JsonValue::Bool(flag)));
    assert forall|i: int| 0 <= i < set.len() && #[trigger] set[i].0 == key implies set[i].1
        == JsonValue::Bool(flag) by {
        if i < entries.len() {
            assert(set[i] == entries[i]);
        }
    }
    assert(holds_entry(set, key, JsonValue::Bool(flag)));
    let c = choose|c: bool| holds_entry(set, key, JsonValue::Bool(c));
    assert(set[entries.len() as int].0 == key);
    assert(c == flag);
    assert(set.drop_last() =~= entries);
    lemma_without_absent_key(entries, key);
}

/// The role, permission tree and flag of an `add_role` request, if `request`
/// is one.
pub open spec fn parsed_add_role(request: JsonValue) -> Option<(Seq<char>, JsonValue, bool)> {
    match request_fields(Operation::AddRole, request) {
        Some(f) => {
            if f.len() == 2 && f[0].0 == "role"@ && f[0].1 is Str && f[1].0 == "permission"@
                && split_super_user(f[1].1) is Some {
                let (rest, flag) = split_super_user(f[1].1)->0;
                Some((f[0].1->Str_0, rest, flag))
            } else {
                None
            }
        },
        None => None,
    }
}

/// The id, role, permission tree and flag of an `alter_role` request, if
/// `request` is one.
pub open spec fn parsed_alter_role(request: JsonValue) -> Option<
    (Seq<char>, Seq<char>, JsonValue, bool),
> {
    match request_fields(Operation::AlterRole, request) {
        Some(f) => {
            if f.len() == 3 && f[0].0 == "id"@ && f[0].1 is Str && f[1].0 == "role"@ && f[1].1 is Str
                && f[2].0 == "permission"@ && split_super_user(f[2].1) is Some {
                let (rest, flag) = split_super_user(f[2].1)->0;
                Some((f[0].1->Str_0, f[1].1->Str_0, rest, flag))
            } else {
                None
            }
        },
        None => None,
    }
}

/// Reads back the options of an `add_role` request: the flag is taken out
/// of the permission tree.
pub fn parse_add_role(request: Json) -> (r: Option<AddRoleOptions>)
    ensures
        match r {
            Some(o) => parsed_add_role(request@) == Some((o.role@, o.permission@, o.super_user)),
            None => parsed_add_role(request@) is None,
        },
{
    let mut f = match open_request(Operation::AddRole, request) {
        Some(f) => f,
        None => return None,
    };
    if f.len() != 2 || !key_is(&f, 0, "role") || !key_is(&f, 1, "permission") {
        return None;
    }
    let ghost whole = entries_view(f@);
    let role = match read_string(&f[0].1) {
        Some(s) => s,
        None => return None,
    };
    let (_, permission) = f.pop().unwrap();
    assert(whole[1].1 == permission@);
    match take_super_user(permission) {
        Some((rest, flag)) => Some(AddRoleOptions { role, permission: rest, super_user: flag }),
        None => None,
    }
}

/// Reads back the options of an `alter_role` request: the flag is taken out
/// of the permission tree.
pub fn parse_alter_role(request: Json) -> (r: Option<AlterRoleOptions>)
    ensures
        match r {
            Some(o) => parsed_alter_role(request@) == Some(
                (o.id@, o.role@, o.permission@, o.super_user),
            ),
            None => parsed_alter_role(request@) is None,
        },
{
    let mut f = match open_request(Operation::AlterRole, request) {
        Some(f) => f,
        None => return None,
    };
    if f.len() != 3 || !key_is(&f, 0, "id") || !key_is(&f, 1, "role") || !key_is(
        &f,
        2,
        "permission",
    ) {
        return None;
    }
    let ghost whole = entries_view(f@);
    let id = match read_string(&f[0].1) {
        Some(s) => s,
        None => return None,
    };
    let role = match read_string(&f[1].1) {
        Some(s) => s,
        None => return None,
    };
    let (_, permission) = f.pop().unwrap();
    assert(whole[2].1 == permission@);
    match take_super_user(permission) {
        Some((rest, flag)) => Some(
            AlterRoleOptions { role, id, permission: rest, super_user: flag },
        ),
        None => None,
    }
}

/// Reading back an `add_role` request gives the options it was built from,
/// field for field, when their permission tree is an object that does not
/// already hold the flag.
pub proof fn lemma_add_role_round_trip(options: AddRoleOptions)
    requires
        options.permission@ matches JsonValue::Object(entries) && !has_key(entries, "super_user"@),
    ensures
        parsed_add_role(request_value(Operation::AddRole, options.request_fields())) == Some(
            (options.role@, options.permission@, options.super_user),
        ),
{
    lemma_request_fields(Operation::AddRole, options.request_fields());
    lemma_split_after_set(options.permission@->Object_0, options.super_user);
}

/// Reading back an `alter_role` request gives the options it was built
/// from, field for field, when their permission tree is an object that does
/// not already hold the flag.
pub proof fn lemma_alter_role_round_trip(options: AlterRoleOptions)
    requires
        options.permission@ matches JsonValue::Object(entries) && !has_key(entries, "super_user"@),
    ensures
        parsed_alter_role(request_value(Operation::AlterRole, options.request_fields())) == Some(
            (options.id@, options.role@, options.permission@, options.super_user),
        ),
{
    lemma_request_fields(Operation::AlterRole, options.request_fields());
    lemma_split_after_set(options.permission@->Object_0, options.super_user);
}

} // verus!
