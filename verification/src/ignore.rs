//! The ignore list kept in a user's settings: adding and removing an id,
//! and writing the list back as an array of UUID texts.

use vstd::prelude::*;

use crate::ids::{uuid_string, uuid_text};
use crate::json::{as_str, field_array, json_get, lookup, JsonValue};
use crate::prefs::{
    contains_id, extract_ignored_user_ids, insert_ascending, item_id, names_id,
    strictly_ascending,
};
use crate::text::{lemma_trim_noop_literal, str_eq};

verus! {

/// The ids that the settings' `ignored_user_ids` array names.
pub open spec fn ignored_set(settings: JsonValue) -> Set<u128> {
    Set::new(
        |id: u128|
            match field_array(settings, "ignored_user_ids"@) {
                Some(items) => names_id(items, id),
                None => false,
            },
    )
}

/// Whether `items` are the UUID texts of `ids`, in order.
pub open spec fn id_items(items: Seq<JsonValue>, ids: Seq<u128>) -> bool {
    &&& items.len() == ids.len()
    &&& forall|k: int|
        0 <= k < items.len() ==> as_str(#[trigger] items[k]) == Some(uuid_text(ids[k]))
            && item_id(items[k]) == Some(ids[k])
}

/// Setting the entry with a key replaces the first entry with that key and
/// leaves the other keys as they were.
proof fn lemma_lookup_update(
    e: Seq<(String, JsonValue)>,
    i: int,
    entry: (String, JsonValue),
    k: Seq<char>,
)
    requires
        0 <= i < e.len(),
        e[i].0@ == entry.0@,
        forall|j: int| 0 <= j < i ==> (#[trigger] e[j]).0@ != entry.0@,
    ensures
        lookup(e.update(i, entry), k) == (if k == entry.0@ {
            Some(entry.1)
        } else {
            lookup(e, k)
        }),
    decreases i,
{
    let u = e.update(i, entry);
    if i == 0 {
        assert(u[0] == entry);
        assert(u.drop_first() =~= e.drop_first());
    } else {
        assert(u[0] == e[0]);
        assert(u.drop_first() =~= e.drop_first().update(i - 1, entry));
        let t = e.drop_first();
        assert forall|j: int| 0 <= j < i - 1 implies (#[trigger] t[j]).0@ != entry.0@ by {
            assert(t[j] == e[j + 1]);
        }
        lemma_lookup_update(t, i - 1, entry, k);
    }
}

/// A new entry with a key no entry has is found by that key, and changes
/// nothing else.
proof fn lemma_lookup_push(e: Seq<(String, JsonValue)>, entry: (String, JsonValue), k: Seq<char>)
    requires
        forall|j: int| 0 <= j < e.len() ==> (#[trigger] e[j]).0@ != entry.0@,
    ensures
        lookup(e.push(entry), k) == (if k == entry.0@ {
            Some(entry.1)
        } else {
            lookup(e, k)
        }),
    decreases e.len(),
{
    let p = e.push(entry);
    if e.len() == 0 {
        assert(p[0] == entry);
        assert(p.drop_first() =~= Seq::<(String, JsonValue)>::empty());
    } else {
        assert(p[0] == e[0]);
        assert(p.drop_first() =~= e.drop_first().push(entry));
        let t = e.drop_first();
        assert forall|j: int| 0 <= j < t.len() implies (#[trigger] t[j]).0@ != entry.0@ by {
            assert(t[j] == e[j + 1]);
        }
        lemma_lookup_push(t, entry, k);
    }
}

/// The ids as the array of their UUID texts.
fn id_array(ids: &Vec<u128>) -> (r: Vec<JsonValue>)
    ensures
        id_items(r@, ids@),
{
    let mut items: Vec<JsonValue> = Vec::new();
    let mut i: usize = 0;
    while i < ids.len()
        invariant
            i <= ids@.len(),
            id_items(items@, ids@.take(i as int)),
        decreases ids@.len() - i,
    {
        let text = uuid_string(ids[i]);
        proof {
            lemma_trim_noop_literal(text@);
        }
        let ghost before = items@;
        items.push(JsonValue::String(text));
        proof {
            let t = ids@.take(i + 1);
            assert forall|k: int| 0 <= k < items@.len() implies as_str(#[trigger] items@[k])
                == Some(uuid_text(t[k])) && item_id(items@[k]) == Some(t[k]) by {
                if k < i {
                    assert(items@[k] == before[k]);
                    assert(t[k] == ids@.take(i as int)[k]);
                }
            }
        }
        i = i + 1;
    }
    assert(ids@.take(ids@.len() as int) =~= ids@);
    items
}

/// The ids named by items that are the texts of `ids`.
proof fn lemma_items_name_ids(items: Seq<JsonValue>, ids: Seq<u128>, x: u128)
    requires
        id_items(items, ids),
    ensures
        names_id(items, x) <==> ids.contains(x),
{
    if names_id(items, x) {
        let k = choose|k: int| 0 <= k < items.len() && item_id(#[trigger] items[k]) == Some(x);
        assert(ids[k] == x);
    }
    if ids.contains(x) {
        let k = choose|k: int| 0 <= k < ids.len() && ids[k] == x;
        assert(item_id(items[k]) == Some(x));
    }
}

/// Writes `ids` as the settings' `ignored_user_ids` array, keeping every
/// other key; a document that is not an object becomes one holding only
/// the list.
pub fn set_ignored_user_ids(settings: &mut JsonValue, ids: &Vec<u128>)
    ensures
        *final(settings) is Object,
        field_array(*final(settings), "ignored_user_ids"@) matches Some(items) && id_items(
            items,
            ids@,
        ),
        forall|x: u128| ignored_set(*final(settings)).contains(x) <==> ids@.contains(x),
        forall|k: Seq<char>|
            k != "ignored_user_ids"@ ==> json_get(*final(settings), k) == (if *old(settings) is Object {
                json_get(*old(settings), k)
            } else {
                None
            }),
{
    let items = id_array(ids);
    let ghost item_view = items@;
    let key = "ignored_user_ids".to_owned();
    let ghost entry = (key, JsonValue::Array(items));
    match settings {
        JsonValue::Object(entries) => {
            let mut i: usize = 0;
            while i < entries.len() && !str_eq(entries[i].0.as_str(), "ignored_user_ids")
                invariant
                    i <= entries@.len(),
                    forall|j: int| 0 <= j < i ==> (#[trigger] entries@[j]).0@ != "ignored_user_ids"@,
                decreases entries@.len() - i,
            {
                i = i + 1;
            }
            let ghost before = entries@;
            if i < entries.len() {
                entries.set(i, (key, JsonValue::Array(items)));
                proof {
                    assert forall|k: Seq<char>| #[trigger] lookup(entries@, k) == (if k
                        == "ignored_user_ids"@ {
                        Some(entry.1)
                    } else {
                        lookup(before, k)
                    }) by {
                        lemma_lookup_update(before, i as int, entry, k);
                    }
                }
            } else {
                entries.push((key, JsonValue::Array(items)));
                proof {
                    assert forall|k: Seq<char>| #[trigger] lookup(entries@, k) == (if k
                        == "ignored_user_ids"@ {
                        Some(entry.1)
                    } else {
                        lookup(before, k)
                    }) by {
                        lemma_lookup_push(before, entry, k);
                    }
                }
            }
        },
        _ => {
            let mut entries: Vec<(String, JsonValue)> = Vec::new();
            entries.push((key, JsonValue::Array(items)));
            proof {
                assert forall|k: Seq<char>| #[trigger] lookup(entries@, k) == (if k
                    == "ignored_user_ids"@ {
                    Some(entry.1)
                } else {
                    None
                }) by {
                    lemma_lookup_push(Seq::empty(), entry, k);
                    assert(Seq::<(String, JsonValue)>::empty().push(entry) =~= entries@);
                }
            }
            *settings = JsonValue::Object(entries);
        },
    }
    proof {
        assert(field_array(*settings, "ignored_user_ids"@) == Some(item_view));
        assert forall|x: u128| ignored_set(*settings).contains(x) <==> ids@.contains(x) by {
            lemma_items_name_ids(item_view, ids@, x);
        }
    }
}

/// Adds `target` to the ignore list in `settings`. Gives whether the list
/// changed and the list, ascending; the document is only written when the
/// list changed.
pub fn add_ignored_user_id(settings: &mut JsonValue, target: u128) -> (r: (bool, Vec<u128>))
    ensures
        r.0 == !ignored_set(*old(settings)).contains(target),
        strictly_ascending(r.1@),
        forall|x: u128| r.1@.contains(x) <==> (ignored_set(*old(settings)).contains(x) || x == target),
        forall|x: u128|
            ignored_set(*final(settings)).contains(x) <==> (ignored_set(*old(settings)).contains(x)
                || x == target),
        !r.0 ==> *final(settings) == *old(settings),
        r.0 ==> forall|k: Seq<char>|
            k != "ignored_user_ids"@ ==> json_get(*final(settings), k) == (if *old(settings) is Object {
                json_get(*old(settings), k)
            } else {
                None
            }),
{
    let mut ids = extract_ignored_user_ids(settings);
    let ghost listed = ignored_set(*settings);
    assert(forall|x: u128| listed.contains(x) <==> #[trigger] ids@.contains(x));
    if contains_id(&ids, target) {
        return (false, ids);
    }
    insert_ascending(&mut ids, target);
    set_ignored_user_ids(settings, &ids);
    assert forall|x: u128| ignored_set(*settings).contains(x) <==> (listed.contains(x) || x
        == target) by {
        assert(ignored_set(*settings).contains(x) <==> ids@.contains(x));
    }
    (true, ids)
}

/// Removes `target` from the ignore list in `settings`. Gives whether the
/// list changed and the list, ascending; the document is only written when
/// the list changed.
pub fn remove_ignored_user_id(settings: &mut JsonValue, target: u128) -> (r: (bool, Vec<u128>))
    ensures
        r.0 == ignored_set(*old(settings)).contains(target),
        strictly_ascending(r.1@),
        forall|x: u128| r.1@.contains(x) <==> (ignored_set(*old(settings)).contains(x) && x != target),
        forall|x: u128|
            ignored_set(*final(settings)).contains(x) <==> (ignored_set(*old(settings)).contains(x)
                && x != target),
        !r.0 ==> *final(settings) == *old(settings),
        r.0 ==> forall|k: Seq<char>|
            k != "ignored_user_ids"@ ==> json_get(*final(settings), k) == (if *old(settings) is Object {
                json_get(*old(settings), k)
            } else {
                None
            }),
{
    let ids = extract_ignored_user_ids(settings);
    let ghost listed = ignored_set(*settings);
    assert(forall|x: u128| listed.contains(x) <==> #[trigger] ids@.contains(x));
    if !contains_id(&ids, target) {
        return (false, ids);
    }
    let mut kept: Vec<u128> = Vec::new();
    let mut i: usize = 0;
    while i < ids.len()
        invariant
            i <= ids@.len(),
            strictly_ascending(ids@),
            strictly_ascending(kept@),
            forall|k: int, j: int|
                0 <= k < kept@.len() && i <= j < ids@.len() ==> kept@[k] < ids@[j],
            forall|x: u128|
                kept@.contains(x) <==> (x != target && exists|j: int|
                    0 <= j < i && ids@[j] == x),
        decreases ids@.len() - i,
    {
        let id = ids[i];
        let ghost before = kept@;
        if id != target {
            kept.push(id);
        }
        proof {
            assert forall|x: u128| kept@.contains(x) <==> (x != target && exists|j: int|
                0 <= j < i + 1 && ids@[j] == x) by {
                if kept@.contains(x) {
                    let k = choose|k: int| 0 <= k < kept@.len() && kept@[k] == x;
                    if k < before.len() {
                        assert(before.contains(x));
                    } else {
                        assert(ids@[i as int] == x);
                    }
                }
                if x != target && exists|j: int| 0 <= j < i + 1 && ids@[j] == x {
                    let j = choose|j: int| 0 <= j < i + 1 && ids@[j] == x;
                    if j < i {
                        assert(before.contains(x));
                        let k = choose|k: int| 0 <= k < before.len() && before[k] == x;
                        assert(kept@[k] == x);
                    } else {
                        assert(kept@[kept@.len() - 1] == x);
                    }
                }
            }
        }
        i = i + 1;
    }
    proof {
        assert forall|x: u128| kept@.contains(x) <==> (ids@.contains(x) && x != target) by {
            if ids@.contains(x) {
                let j = choose|j: int| 0 <= j < ids@.len() && ids@[j] == x;
                assert(0 <= j < i && ids@[j] == x);
            }
        }
    }
    set_ignored_user_ids(settings, &kept);
    assert forall|x: u128| ignored_set(*settings).contains(x) <==> (listed.contains(x) && x
        != target) by {
        assert(ignored_set(*settings).contains(x) <==> kept@.contains(x));
    }
    (true, kept)
}

/// Removing an id that adding put on the ignore list gives back the list
/// as it was: `s1` is `s0` after `add_ignored_user_id(target)` (as its
/// contract states), `s2` is `s1` after `remove_ignored_user_id(target)`.
pub proof fn lemma_remove_undoes_add(s0: JsonValue, s1: JsonValue, s2: JsonValue, target: u128)
    requires
        !ignored_set(s0).contains(target),
        forall|x: u128|
            ignored_set(s1).contains(x) <==> (ignored_set(s0).contains(x) || x == target),
        forall|x: u128|
            ignored_set(s2).contains(x) <==> (ignored_set(s1).contains(x) && x != target),
    ensures
        ignored_set(s2) == ignored_set(s0),
{
    assert(ignored_set(s2) =~= ignored_set(s0));
}

} // verus!
