//! Documents and patches to them.

use vstd::prelude::*;

verus! {

/// A document.
#[derive(Debug)]
pub enum JsonValue {
    /// Nothing.
    Null,
    /// A truth value.
    Bool(bool),
    /// A number, as it is written.
    Number(String),
    /// Text.
    Text(String),
    /// A list.
    Array(Vec<JsonValue>),
    /// Members by name.
    Object(Vec<(String, JsonValue)>),
}

/// What a document holds.
pub enum Json {
    /// Nothing.
    Null,
    /// A truth value.
    Bool(bool),
    /// A number, as it is written.
    Number(Seq<char>),
    /// Text.
    Text(Seq<char>),
    /// A list.
    Array(Seq<Json>),
    /// Members by name.
    Object(Seq<(Seq<char>, Json)>),
}

impl JsonValue {
    /// What the document holds.
    pub open spec fn model(self) -> Json
        decreases self,
    {
        match self {
            JsonValue::Null => Json::Null,
            JsonValue::Bool(b) => Json::Bool(b),
            JsonValue::Number(n) => Json::Number(n@),
            JsonValue::Text(t) => Json::Text(t@),
            JsonValue::Array(items) => Json::Array(list_model(items@)),
            JsonValue::Object(members) => Json::Object(members_model(members@)),
        }
    }
}

/// What the items of a list hold.
pub open spec fn list_model(items: Seq<JsonValue>) -> Seq<Json>
    decreases items,
{
    if items.len() == 0 {
        seq![]
    } else {
        list_model(items.drop_last()).push(items.last().model())
    }
}

/// What members hold.
pub open spec fn members_model(members: Seq<(String, JsonValue)>) -> Seq<(Seq<char>, Json)>
    decreases members,
{
    if members.len() == 0 {
        seq![]
    } else {
        members_model(members.drop_last()).push(
            (members.last().0@, members.last().1.model()),
        )
    }
}

/// The index of the first member with a name, or the number of members if there is none.
pub open spec fn member_index(members: Seq<(Seq<char>, Json)>, name: Seq<char>) -> int
    decreases members.len(),
{
    if members.len() == 0 || members[0].0 == name {
        0
    } else {
        1 + member_index(members.skip(1), name)
    }
}

/// The member with a name, if there is one.
pub open spec fn member(members: Seq<(Seq<char>, Json)>, name: Seq<char>) -> Option<Json> {
    let i = member_index(members, name);
    if 0 <= i < members.len() {
        Some(members[i].1)
    } else {
        None
    }
}

/// Members without the one with a name.
pub open spec fn without(members: Seq<(Seq<char>, Json)>, name: Seq<char>) -> Seq<
    (Seq<char>, Json),
> {
    let i = member_index(members, name);
    if 0 <= i < members.len() {
        members.remove(i)
    } else {
        members
    }
}

/// Members with a new value for a name.
pub open spec fn with(members: Seq<(Seq<char>, Json)>, name: Seq<char>, value: Json) -> Seq<
    (Seq<char>, Json),
> {
    let i = member_index(members, name);
    if 0 <= i < members.len() {
        members.update(i, (name, value))
    } else {
        members.push((name, value))
    }
}

/// A document after a merge patch: members that the patch has for nothing go, the others are patched
/// in turn, and a patch that is no object takes the place of the document.
pub open spec fn patched(target: Json, patch: Json) -> Json
    decreases patch,
{
    match patch {
        Json::Object(changes) => Json::Object(
            members_patched(
                match target {
                    Json::Object(members) => members,
                    _ => seq![],
                },
                changes,
            ),
        ),
        _ => patch,
    }
}

/// Members after the members of a patch, one after the other.
pub open spec fn members_patched(
    members: Seq<(Seq<char>, Json)>,
    changes: Seq<(Seq<char>, Json)>,
) -> Seq<(Seq<char>, Json)>
    decreases changes,
{
    if changes.len() == 0 {
        members
    } else {
        let before = members_patched(members, changes.drop_last());
        let (name, value) = changes.last();
        if value is Null {
            without(before, name)
        } else {
            with(
                before,
                name,
                patched(
                    match member(before, name) {
                        Some(found) => found,
                        None => Json::Null,
                    },
                    value,
                ),
            )
        }
    }
}

/// What the first of the members is, and how many there are.
proof fn lemma_members_model(members: Seq<(String, JsonValue)>)
    ensures
        members_model(members).len() == members.len(),
        forall|i: int|
            0 <= i < members.len() ==> #[trigger] members_model(members)[i] == (
                members[i].0@,
                members[i].1.model(),
            ),
    decreases members.len(),
{
    if members.len() > 0 {
        lemma_members_model(members.drop_last());
        assert forall|i: int| 0 <= i < members.len() implies #[trigger] members_model(members)[i]
            == (members[i].0@, members[i].1.model()) by {
            if i < members.len() - 1 {
                assert(members_model(members.drop_last())[i] == (
                    members.drop_last()[i].0@,
                    members.drop_last()[i].1.model(),
                ));
            }
        }
    }
}

/// What items are, and how many there are.
proof fn lemma_list_model(items: Seq<JsonValue>)
    ensures
        list_model(items).len() == items.len(),
        forall|i: int|
            0 <= i < items.len() ==> #[trigger] list_model(items)[i] == items[i].model(),
    decreases items.len(),
{
    if items.len() > 0 {
        lemma_list_model(items.drop_last());
        assert forall|i: int| 0 <= i < items.len() implies #[trigger] list_model(items)[i]
            == items[i].model() by {
            if i < items.len() - 1 {
                assert(list_model(items.drop_last())[i] == items.drop_last()[i].model());
            }
        }
    }
}

/// Where the first member with a name is.
proof fn lemma_member_index(members: Seq<(Seq<char>, Json)>, name: Seq<char>, i: int)
    requires
        0 <= i <= members.len(),
        forall|j: int| 0 <= j < i ==> (#[trigger] members[j]).0 != name,
        i < members.len() ==> members[i].0 == name,
    ensures
        member_index(members, name) == i,
    decreases members.len(),
{
    if i > 0 {
        assert(members[0].0 != name);
        assert forall|j: int| 0 <= j < i - 1 implies (#[trigger] members.skip(1)[j]).0 != name by {
            assert(members[j + 1].0 != name);
        }
        lemma_member_index(members.skip(1), name, i - 1);
    }
}

/// What is known of the index of a member.
proof fn lemma_member_index_range(members: Seq<(Seq<char>, Json)>, name: Seq<char>)
    ensures
        0 <= member_index(members, name) <= members.len(),
        member_index(members, name) < members.len() ==> members[member_index(members, name)].0
            == name,
        forall|j: int|
            0 <= j < member_index(members, name) ==> (#[trigger] members[j]).0 != name,
    decreases members.len(),
{
    if members.len() > 0 && members[0].0 != name {
        lemma_member_index_range(members.skip(1), name);
        assert forall|j: int| 0 <= j < member_index(members, name) implies (
        #[trigger] members[j]).0 != name by {
            if j > 0 {
                assert(members.skip(1)[j - 1] == members[j]);
            }
        }
    }
}

/// The members model of a change in place.
proof fn lemma_model_of(members: Seq<(String, JsonValue)>, model: Seq<(Seq<char>, Json)>)
    requires
        members.len() == model.len(),
        forall|i: int|
            0 <= i < members.len() ==> #[trigger] model[i] == (
                members[i].0@,
                members[i].1.model(),
            ),
    ensures
        members_model(members) == model,
{
    lemma_members_model(members);
    assert(members_model(members) =~= model);
}

/// An item is smaller than its list.
proof fn lemma_item_smaller(value: JsonValue, i: int)
    requires
        value is Array,
        0 <= i < value->Array_0@.len(),
    ensures
        decreases_to!(value => value->Array_0@[i]),
{
    assert(decreases_to!(value => value->Array_0));
    assert(decreases_to!(value->Array_0 => value->Array_0@));
    assert(decreases_to!(value->Array_0@ => value->Array_0@[i]));
}

/// A member is smaller than its object.
proof fn lemma_member_smaller(value: JsonValue, i: int)
    requires
        value is Object,
        0 <= i < value->Object_0@.len(),
    ensures
        decreases_to!(value => value->Object_0@[i].1),
{
    assert(decreases_to!(value => value->Object_0));
    assert(decreases_to!(value->Object_0 => value->Object_0@));
    assert(decreases_to!(value->Object_0@ => value->Object_0@[i]));
    assert(decreases_to!(value->Object_0@[i] => value->Object_0@[i].1));
}

/// A copy of a document.
fn copied(value: &JsonValue) -> (r: JsonValue)
    ensures
        r.model() == value.model(),
    decreases value,
{
    match value {
        JsonValue::Null => JsonValue::Null,
        JsonValue::Bool(b) => JsonValue::Bool(*b),
        JsonValue::Number(n) => JsonValue::Number(n.clone()),
        JsonValue::Text(t) => JsonValue::Text(t.clone()),
        JsonValue::Array(items) => {
            let mut copies: Vec<JsonValue> = Vec::new();
            let mut i: usize = 0;
            while i < items.len()
                invariant
                    i <= items@.len(),
                    *value == JsonValue::Array(*items),
                    copies@.len() == i,
                    forall|j: int|
                        0 <= j < i ==> (#[trigger] copies@[j]).model() == items@[j].model(),
                decreases items@.len() - i,
            {
                proof {
                    lemma_item_smaller(*value, i as int);
                }
                copies.push(copied(&items[i]));
                i += 1;
            }
            proof {
                lemma_list_model(items@);
                lemma_list_model(copies@);
                assert(list_model(copies@) =~= list_model(items@));
            }
            JsonValue::Array(copies)
        },
        JsonValue::Object(members) => {
            let mut copies: Vec<(String, JsonValue)> = Vec::new();
            let mut i: usize = 0;
            while i < members.len()
                invariant
                    i <= members@.len(),
                    *value == JsonValue::Object(*members),
                    copies@.len() == i,
                    forall|j: int|
                        0 <= j < i ==> (#[trigger] copies@[j]).0@ == members@[j].0@
                            && copies@[j].1.model() == members@[j].1.model(),
                decreases members@.len() - i,
            {
                proof {
                    lemma_member_smaller(*value, i as int);
                }
                let name = members[i].0.clone();
                copies.push((name, copied(&members[i].1)));
                i += 1;
            }
            proof {
                lemma_members_model(members@);
                lemma_members_model(copies@);
                assert(members_model(copies@) =~= members_model(members@));
            }
            JsonValue::Object(copies)
        },
    }
}

/// Finds the first member with a name.
fn find_member(members: &Vec<(String, JsonValue)>, name: &String) -> (r: usize)
    ensures
        r == member_index(members_model(members@), name@),
        r <= members@.len(),
{
    proof {
        lemma_members_model(members@);
    }
    let mut i: usize = 0;
    while i < members.len()
        invariant
            i <= members@.len(),
            members_model(members@).len() == members@.len(),
            forall|j: int|
                0 <= j < members@.len() ==> #[trigger] members_model(members@)[j] == (
                    members@[j].0@,
                    members@[j].1.model(),
                ),
            forall|j: int|
                0 <= j < i ==> (#[trigger] members_model(members@)[j]).0 != name@,
        decreases members@.len() - i,
    {
        if members[i].0 == *name {
            proof {
                assert(members_model(members@)[i as int].0 == name@);
                lemma_member_index(members_model(members@), name@, i as int);
            }
            return i;
        }
        assert(members_model(members@)[i as int].0 != name@);
        i += 1;
    }
    proof {
        lemma_member_index(members_model(members@), name@, i as int);
    }
    i
}

/// A document after a merge patch.
fn patched_value(target: JsonValue, patch: &JsonValue) -> (r: JsonValue)
    ensures
        r.model() == patched(target.model(), patch.model()),
    decreases patch,
{
    let changes = match patch {
        JsonValue::Object(changes) => changes,
        _ => {
            return copied(patch);
        },
    };
    let ghost start = match target.model() {
        Json::Object(members) => members,
        _ => seq![],
    };
    let mut doc: Vec<(String, JsonValue)> = match target {
        JsonValue::Object(members) => members,
        _ => Vec::new(),
    };
    let ghost wanted = members_model(changes@);
    proof {
        lemma_members_model(changes@);
        assert(members_model(doc@) =~= start);
        assert(wanted.take(0) =~= Seq::<(Seq<char>, Json)>::empty());
    }
    let mut i: usize = 0;
    while i < changes.len()
        invariant
            i <= changes@.len(),
            *patch == JsonValue::Object(*changes),
            wanted == members_model(changes@),
            wanted.len() == changes@.len(),
            forall|j: int|
                0 <= j < changes@.len() ==> #[trigger] wanted[j] == (
                    changes@[j].0@,
                    changes@[j].1.model(),
                ),
            members_model(doc@) == members_patched(start, wanted.take(i as int)),
        decreases changes@.len() - i,
    {
        let name = &changes[i].0;
        let value = &changes[i].1;
        let ghost before = members_model(doc@);
        let ghost given = doc@;
        proof {
            lemma_members_model(given);
            assert(wanted.take(i + 1).drop_last() =~= wanted.take(i as int));
            assert(wanted.take(i + 1).last() == (name@, value.model()));
            lemma_member_index_range(before, name@);
            lemma_member_smaller(*patch, i as int);
        }
        let at: usize = find_member(&doc, name);
        let is_null: bool = match value {
            JsonValue::Null => true,
            _ => false,
        };
        if is_null {
            if at < doc.len() {
                doc.remove(at);
                proof {
                    lemma_model_of(doc@, before.remove(at as int));
                }
            }
        } else if at < doc.len() {
            let (key, found) = doc.remove(at);
            let changed = patched_value(found, value);
            doc.insert(at, (key, changed));
            proof {
                lemma_model_of(doc@, before.update(at as int, (name@, changed.model())));
            }
        } else {
            let changed = patched_value(JsonValue::Null, value);
            doc.push((name.clone(), changed));
            proof {
                lemma_model_of(doc@, before.push((name@, changed.model())));
            }
        }
        i += 1;
    }
    assert(wanted.take(i as int) =~= wanted);
    JsonValue::Object(doc)
}

/// Applies a merge patch to a document in place.
pub fn json_patch(target: &mut JsonValue, patch: &JsonValue)
    ensures
        final(target).model() == patched(old(target).model(), patch.model()),
{
    let mut value = JsonValue::Null;
    std::mem::swap(&mut value, target);
    *target = patched_value(value, patch);
}

/// Whether no two members share a name.
pub open spec fn distinct_names(members: Seq<(Seq<char>, Json)>) -> bool {
    forall|i: int, j: int|
        0 <= i < j < members.len() ==> (#[trigger] members[i]).0 != (#[trigger] members[j]).0
}

/// What a name stands for after one change.
proof fn lemma_one_change(members: Seq<(Seq<char>, Json)>, name: Seq<char>, value: Json, other: Seq<
    char,
>)
    requires
        distinct_names(members),
    ensures
        distinct_names(with(members, name, value)),
        distinct_names(without(members, name)),
        member(with(members, name, value), other) == (if other == name {
            Some(value)
        } else {
            member(members, other)
        }),
        member(without(members, name), other) == (if other == name {
            None
        } else {
            member(members, other)
        }),
{
    lemma_member_index_range(members, name);
    lemma_member_index_range(members, other);
    let at = member_index(members, name);
    let there = member_index(members, other);
    let more = with(members, name, value);
    let less = without(members, name);
    assert forall|i: int, j: int| 0 <= i < j < more.len() implies (#[trigger] more[i]).0 != (
    #[trigger] more[j]).0 by {
        if j < members.len() {
            assert(members[i].0 != members[j].0);
        } else {
            assert(members[i].0 != name);
        }
    }
    assert forall|i: int, j: int| 0 <= i < j < less.len() implies (#[trigger] less[i]).0 != (
    #[trigger] less[j]).0 by {
        let a = if at < members.len() && i >= at {
            i + 1
        } else {
            i
        };
        let b = if at < members.len() && j >= at {
            j + 1
        } else {
            j
        };
        assert(members[a].0 != members[b].0);
    }
    if other == name {
        assert forall|j: int| 0 <= j < at implies (#[trigger] more[j]).0 != name by {
            assert(members[j].0 != name);
        }
        lemma_member_index(more, name, at);
        assert forall|j: int| 0 <= j < less.len() implies (#[trigger] less[j]).0 != name by {
            if at < members.len() {
                if j < at {
                    assert(members[j].0 != members[at].0);
                } else {
                    assert(members[at].0 != members[j + 1].0);
                }
            } else {
                assert(members[j].0 != name);
            }
        }
        lemma_member_index(less, name, less.len() as int);
    } else {
        assert forall|j: int| 0 <= j < there implies (#[trigger] more[j]).0 != other by {
            assert(members[j].0 != other);
        }
        if there < members.len() {
            lemma_member_index(more, other, there);
        } else {
            assert forall|j: int| 0 <= j < more.len() implies (#[trigger] more[j]).0 != other by {
                if j < members.len() {
                    assert(members[j].0 != other);
                }
            }
            lemma_member_index(more, other, more.len() as int);
        }
        let moved = if at < there && at < members.len() {
            there - 1
        } else {
            there
        };
        assert forall|j: int| 0 <= j < moved implies (#[trigger] less[j]).0 != other by {
            if at < members.len() && j >= at {
                assert(members[j + 1].0 != other);
            } else {
                assert(members[j].0 != other);
            }
        }
        lemma_member_index(less, other, moved);
    }
}

/// Names stay distinct, and a member that the patch does not name stays as it is. A member that the
/// patch has for nothing is gone, and any other member of the patch is patched into what was there.
pub proof fn law_merge_patch(
    members: Seq<(Seq<char>, Json)>,
    changes: Seq<(Seq<char>, Json)>,
    name: Seq<char>,
)
    requires
        distinct_names(members),
        distinct_names(changes),
    ensures
        distinct_names(members_patched(members, changes)),
        member(members_patched(members, changes), name) == (match member(changes, name) {
            None => member(members, name),
            Some(value) => if value is Null {
                None
            } else {
                Some(
                    patched(
                        match member(members, name) {
                            Some(found) => found,
                            None => Json::Null,
                        },
                        value,
                    ),
                )
            },
        }),
    decreases changes.len(),
{
    lemma_member_index_range(changes, name);
    if changes.len() > 0 {
        let rest = changes.drop_last();
        let (last, value) = changes.last();
        let n = rest.len() as int;
        assert forall|i: int, j: int| 0 <= i < j < rest.len() implies (#[trigger] rest[i]).0 != (
        #[trigger] rest[j]).0 by {
            assert(changes[i].0 != changes[j].0);
        }
        law_merge_patch(members, rest, name);
        law_merge_patch(members, rest, last);
        let before = members_patched(members, rest);
        let found = match member(before, last) {
            Some(found) => found,
            None => Json::Null,
        };
        lemma_one_change(before, last, patched(found, value), name);
        lemma_member_index_range(rest, name);
        lemma_member_index_range(rest, last);
        // The last name is not among the others.
        assert(member(rest, last) is None) by {
            let i = member_index(rest, last);
            if i < n {
                assert(changes[i].0 != changes[n].0);
            }
        }
        if name == last {
            assert forall|j: int| 0 <= j < n implies (#[trigger] changes[j]).0 != name by {
                assert(changes[j].0 != changes[n].0);
            }
            lemma_member_index(changes, name, n);
        } else {
            let i = member_index(rest, name);
            if i < n {
                assert forall|j: int| 0 <= j < i implies (#[trigger] changes[j]).0 != name by {
                    assert(rest[j] == changes[j]);
                }
                lemma_member_index(changes, name, i);
            } else {
                assert forall|j: int| 0 <= j < changes.len() implies (#[trigger] changes[j]).0
                    != name by {
                    if j < n {
                        assert(rest[j] == changes[j]);
                    }
                }
                lemma_member_index(changes, name, changes.len() as int);
            }
        }
    }
}

/// A patch that is no object takes the place of the document.
pub proof fn law_patch_replaces(target: Json, patch: Json)
    requires
        !(patch is Object),
    ensures
        patched(target, patch) == patch,
{
}

} // verus!
