//! The bookkeeping of the StatusNotifierWatcher service: which tray item is
//! registered under which bus name, as a list of (bus name, item path).
use vstd::prelude::*;

verus! {

/// The entries as character sequences.
pub open spec fn entries(s: Seq<(String, String)>) -> Seq<(Seq<char>, Seq<char>)> {
    s.map_values(|e: (String, String)| (e.0@, e.1@))
}

/// No two entries share a bus name.
pub open spec fn keys_distinct(s: Seq<(String, String)>) -> bool {
    forall|a: int, b: int| 0 <= a < s.len() && 0 <= b < s.len() && a != b ==> s[a].0@ != s[b].0@
}

/// The position of the entry for `name` (the length if there is none).
pub open spec fn key_index(s: Seq<(String, String)>, name: Seq<char>) -> int
    decreases s.len(),
{
    if s.len() == 0 {
        0
    } else if s[0].0@ == name {
        0
    } else {
        1 + key_index(s.drop_first(), name)
    }
}

proof fn lemma_key_index_at(s: Seq<(String, String)>, name: Seq<char>, i: int)
    requires
        0 <= i <= s.len(),
        forall|j: int| 0 <= j < i ==> s[j].0@ != name,
        i == s.len() || s[i].0@ == name,
    ensures
        key_index(s, name) == i,
    decreases i,
{
    if i > 0 {
        lemma_key_index_at(s.drop_first(), name, i - 1);
    }
}

proof fn lemma_key_index_bound(s: Seq<(String, String)>, name: Seq<char>)
    ensures
        0 <= key_index(s, name) <= s.len(),
        key_index(s, name) < s.len() ==> s[key_index(s, name)].0@ == name,
        forall|j: int| 0 <= j < key_index(s, name) ==> (#[trigger] s[j]).0@ != name,
    decreases s.len(),
{
    if s.len() > 0 && s[0].0@ != name {
        lemma_key_index_bound(s.drop_first(), name);
        assert forall|j: int| 0 <= j < key_index(s, name) implies (#[trigger] s[j]).0@ != name by {
            if j > 0 {
                assert(s[j] == s.drop_first()[j - 1]);
            }
        }
    }
}

fn find_key(items: &Vec<(String, String)>, name: &String) -> (r: usize)
    ensures
        r as int == key_index(items@, name@),
        r <= items@.len(),
{
    let mut i: usize = 0;
    while i < items.len()
        invariant
            i <= items@.len(),
            forall|j: int| 0 <= j < i ==> items@[j].0@ != name@,
        decreases items@.len() - i,
    {
        if items[i].0 == *name {
            proof {
                lemma_key_index_at(items@, name@, i as int);
            }
            return i;
        }
        i = i + 1;
    }
    proof {
        lemma_key_index_at(items@, name@, i as int);
    }
    i
}

/// The item path registered for a service: a service given as an object
/// path belongs to the sender's connection; any other service is a bus
/// name whose item sits at `/StatusNotifierItem`.
pub open spec fn registered_path_spec(sender: Seq<char>, service: Seq<char>) -> Seq<char> {
    if service.len() > 0 && service[0] == '/' {
        sender + service
    } else {
        service + "/StatusNotifierItem"@
    }
}

/// The item path registered for `service` when `sender` registers it.
pub fn registered_path(sender: &str, service: &str) -> (path: String)
    ensures
        path@ == registered_path_spec(sender@, service@),
{
    if service.unicode_len() > 0 && service.get_char(0) == '/' {
        let mut p = String::from_str(sender);
        p.append(service);
        p
    } else {
        let mut p = String::from_str(service);
        p.append("/StatusNotifierItem");
        p
    }
}

/// Registers `service` for `sender`: the entry for the sender gets the new
/// item path, or a new entry is added at the end.
pub fn register_item(items: &mut Vec<(String, String)>, sender: &str, service: &str)
    requires
        keys_distinct(old(items)@),
    ensures
        keys_distinct(final(items)@),
        entries(final(items)@) == if key_index(old(items)@, sender@) < old(items)@.len() {
            entries(old(items)@).update(
                key_index(old(items)@, sender@),
                (sender@, registered_path_spec(sender@, service@)),
            )
        } else {
            entries(old(items)@).push((sender@, registered_path_spec(sender@, service@)))
        },
{
    let key = String::from_str(sender);
    let path = registered_path(sender, service);
    let i = find_key(items, &key);
    let ghost before = items@;
    proof {
        lemma_key_index_bound(before, sender@);
    }
    if i < items.len() {
        items.set(i, (key, path));
        assert(entries(items@) =~= entries(before).update(i as int, (sender@, registered_path_spec(sender@, service@))));
        assert forall|a: int, b: int| 0 <= a < items@.len() && 0 <= b < items@.len() && a != b implies items@[a].0@ != items@[b].0@ by {
            if a != i && b != i {
                assert(before[a].0@ != before[b].0@);
            } else if a == i {
                assert(before[i as int].0@ != before[b].0@);
            } else {
                assert(before[a].0@ != before[i as int].0@);
            }
        }
    } else {
        items.push((key, path));
        assert(entries(items@) =~= entries(before).push((sender@, registered_path_spec(sender@, service@))));
        assert forall|a: int, b: int| 0 <= a < items@.len() && 0 <= b < items@.len() && a != b implies items@[a].0@ != items@[b].0@ by {
            if a < before.len() && b < before.len() {
                assert(before[a].0@ != before[b].0@);
            }
        }
    }
}

/// Forgets the item of a bus name that lost its owner: where `owner_gone`
/// holds and an entry for `name` exists, that entry is removed (the others
/// stay, in order) and its item path returned; otherwise nothing changes.
pub fn forget_disconnected(items: &mut Vec<(String, String)>, name: &str, owner_gone: bool) -> (removed: Option<String>)
    requires
        keys_distinct(old(items)@),
    ensures
        keys_distinct(final(items)@),
        if owner_gone && key_index(old(items)@, name@) < old(items)@.len() {
            &&& final(items)@ == old(items)@.remove(key_index(old(items)@, name@))
            &&& removed matches Some(v) && v@ == old(items)@[key_index(old(items)@, name@)].1@
        } else {
            &&& final(items)@ == old(items)@
            &&& removed is None
        },
{
    if !owner_gone {
        return None;
    }
    let key = String::from_str(name);
    let i = find_key(items, &key);
    if i < items.len() {
        let ghost before = items@;
        let (_, path) = items.remove(i);
        assert forall|a: int, b: int| 0 <= a < items@.len() && 0 <= b < items@.len() && a != b implies items@[a].0@ != items@[b].0@ by {
            let sa = if a < i { a } else { a + 1 };
            let sb = if b < i { b } else { b + 1 };
            assert(before[sa].0@ != before[sb].0@);
        }
        Some(path)
    } else {
        None
    }
}

/// The item paths of all registered items, in order.
pub fn registered_items(items: &Vec<(String, String)>) -> (r: Vec<String>)
    ensures
        r@.len() == items@.len(),
        forall|i: int| 0 <= i < items@.len() ==> #[trigger] r@[i]@ == items@[i].1@,
{
    let mut r: Vec<String> = Vec::new();
    let mut i: usize = 0;
    while i < items.len()
        invariant
            i <= items@.len(),
            r@.len() == i,
            forall|k: int| 0 <= k < i ==> #[trigger] r@[k]@ == items@[k].1@,
        decreases items@.len() - i,
    {
        r.push(items[i].1.clone());
        i = i + 1;
    }
    r
}

} // verus!
