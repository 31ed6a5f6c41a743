use vstd::prelude::*;

verus! {

/// A JSON value as the settings merge sees it: null, an object (its members
/// in order), or any other value, which the merge only ever copies whole.
pub enum JsonValue {
    Null,
    Object(Vec<JsonMember>),
    Other(serde_json::Value),
}

/// One member of a JSON object.
pub struct JsonMember {
    pub key: String,
    pub value: JsonValue,
}

/// The members of `t` when it is an object, else none.
pub open spec fn object_members(t: JsonValue) -> Seq<JsonMember> {
    match t {
        JsonValue::Object(members) => members@,
        _ => Seq::empty(),
    }
}

pub open spec fn has_key(members: Seq<JsonMember>, key: Seq<char>) -> bool {
    exists|i: int| 0 <= i < members.len() && members[i].key@ == key
}

/// `members[i]` is the first member with key `key`.
pub open spec fn first_with_key(members: Seq<JsonMember>, key: Seq<char>, i: int) -> bool {
    &&& 0 <= i < members.len()
    &&& members[i].key@ == key
    &&& forall|j: int| 0 <= j < i ==> members[j].key@ != key
}

/// `result` is `target` with the non-null parts of `source` merged in: a
/// null source leaves the target; an object source merges member by member
/// into the target's members (none when the target is not an object); any
/// other source replaces the target.
pub open spec fn merged_into(source: JsonValue, target: JsonValue, result: JsonValue) -> bool
    decreases source, 0int,
{
    match source {
        JsonValue::Null => result == target,
        JsonValue::Other(v) => result == JsonValue::Other(v),
        JsonValue::Object(src) => match result {
            JsonValue::Object(res) => members_merged(
                src@,
                src@.len() as int,
                object_members(target),
                res@,
            ),
            _ => false,
        },
    }
}

/// The members between two steps of a merge; names that state so that a
/// proof can point at it.
pub open spec fn merge_state(members: Seq<JsonMember>) -> Seq<JsonMember> {
    members
}

/// `res` is `tgt` after merging in the first `n` members of `src`, one after
/// another: a member whose key is there merges into the first member with
/// that key; a new key is appended unless its value is null.
pub open spec fn members_merged(
    src: Seq<JsonMember>,
    n: int,
    tgt: Seq<JsonMember>,
    res: Seq<JsonMember>,
) -> bool
    decreases src, n,
{
    if n <= 0 || n > src.len() {
        res == tgt
    } else {
        exists|mid: Seq<JsonMember>|
            #![trigger merge_state(mid)]
            members_merged(src, n - 1, tgt, merge_state(mid)) && {
                let m = src[n - 1];
                ||| exists|i: int|
                    #![trigger first_with_key(mid, m.key@, i)]
                    first_with_key(mid, m.key@, i) && res.len() == mid.len() && (forall|j: int|
                        0 <= j < mid.len() && j != i ==> res[j] == mid[j]) && res[i].key
                        == mid[i].key && merged_into(m.value, mid[i].value, res[i].value)
                ||| !has_key(mid, m.key@) && res == (if m.value is Null {
                    mid
                } else {
                    mid.push(m)
                })
            }
    }
}

/// `result` is what merging each of `values` in turn into null gives.
pub open spec fn all_merged(values: Seq<JsonValue>, n: int, result: JsonValue) -> bool
    decreases n,
{
    if n <= 0 || n > values.len() {
        result == JsonValue::Null
    } else {
        exists|mid: JsonValue|
            #![trigger merged_into(values[n - 1], mid, result)]
            all_merged(values, n - 1, mid) && merged_into(values[n - 1], mid, result)
    }
}

proof fn lemma_all_merged_step(values: Seq<JsonValue>, n: int, mid: JsonValue, result: JsonValue)
    requires
        0 < n <= values.len(),
        all_merged(values, n - 1, mid),
        merged_into(values[n - 1], mid, result),
    ensures
        all_merged(values, n, result),
{
}

impl JsonValue {
    pub fn is_null(&self) -> (r: bool)
        ensures
            r == (*self is Null),
    {
        match self {
            JsonValue::Null => true,
            _ => false,
        }
    }
}

/// The index of the first member of `members` with key `key`.
fn find_member(members: &Vec<JsonMember>, key: &String) -> (r: Option<usize>)
    ensures
        match r {
            Some(i) => first_with_key(members@, key@, i as int),
            None => !has_key(members@, key@),
        },
{
    let mut i: usize = 0;
    while i < members.len()
        invariant
            i <= members.len(),
            forall|j: int| 0 <= j < i ==> members@[j].key@ != key@,
        decreases members.len() - i,
    {
        if members[i].key == *key {
            return Some(i);
        }
        i += 1;
    }
    None
}

/// `target` with the non-null parts of `source` merged in (see
/// `merged_into`).
pub fn merged(source: JsonValue, target: JsonValue) -> (r: JsonValue)
    ensures
        merged_into(source, target, r),
    decreases source,
{
    let ghost src = source;
    match source {
        JsonValue::Null => target,
        JsonValue::Other(v) => JsonValue::Other(v),
        JsonValue::Object(members) => {
            let ghost all = members@;
            let n = members.len();
            let mut entries: Vec<JsonMember> = match target {
                JsonValue::Object(t) => t,
                _ => Vec::new(),
            };
            let ghost t0 = entries@;
            let mut rest = members;
            let mut k: usize = 0;
            while rest.len() > 0
                invariant
                    k + rest@.len() == all.len(),
                    all.len() == n,
                    rest@ == all.subrange(k as int, all.len() as int),
                    members_merged(all, k as int, t0, entries@),
                    src matches JsonValue::Object(v) && v@ == all,
                    src == source,
                decreases rest@.len(),
            {
                let m = rest.remove(0);
                let ghost mid = entries@;
                assert(m == all[k as int]);
                match find_member(&entries, &m.key) {
                    Some(i) => {
                        let cur = entries.remove(i);
                        proof {
                            assert(decreases_to!(src => all[k as int].value));
                        }
                        let value = merged(m.value, cur.value);
                        entries.insert(i, JsonMember { key: cur.key, value });
                        proof {
                            let res = entries@;
                            assert(res[i as int].key == mid[i as int].key);
                            assert forall|j: int|
                                0 <= j < mid.len() && j != i implies res[j] == mid[j] by {
                                assert(res[j] == mid[j]);
                            }
                            assert(first_with_key(mid, all[k as int].key@, i as int));
                        }
                    },
                    None => {
                        if !m.value.is_null() {
                            entries.push(m);
                        }
                    },
                }
                k += 1;
                assert(members_merged(all, k - 1, t0, merge_state(mid)));
            }
            assert(all.subrange(0, all.len() as int) =~= all);
            JsonValue::Object(entries)
        },
    }
}

/// Merges the non-null parts of `source` into `target`.
pub fn merge_non_null_json_value_into(source: JsonValue, target: &mut JsonValue)
    ensures
        merged_into(source, *old(target), *final(target)),
{
    let mut current = JsonValue::Null;
    std::mem::swap(&mut current, target);
    *target = merged(source, current);
}

/// Merges each of `customizations` in turn, starting from null: later ones
/// win over earlier ones.
pub fn json_merge_with(customizations: Vec<JsonValue>) -> (r: JsonValue)
    ensures
        all_merged(customizations@, customizations@.len() as int, r),
{
    let ghost all = customizations@;
    let n = customizations.len();
    let mut rest = customizations;
    let mut merged_so_far = JsonValue::Null;
    let mut k: usize = 0;
    while rest.len() > 0
        invariant
            k + rest@.len() == all.len(),
            all.len() == n,
            rest@ == all.subrange(k as int, all.len() as int),
            all_merged(all, k as int, merged_so_far),
        decreases rest@.len(),
    {
        let value = rest.remove(0);
        let ghost mid = merged_so_far;
        assert(value == all[k as int]);
        merged_so_far = merged(value, merged_so_far);
        k += 1;
        assert(all_merged(all, k - 1, mid) && merged_into(all[k - 1], mid, merged_so_far));
        proof {
            lemma_all_merged_step(all, k as int, mid, merged_so_far);
        }
    }
    merged_so_far
}

} // verus!
