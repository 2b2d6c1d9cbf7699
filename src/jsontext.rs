//! Composing JSON text from already-serialised parts: arrays and objects
//! as ordered lists, with the key-by-key override merge.
use vstd::prelude::*;
use crate::json::{json_string_literal, string_literal};
use crate::text::{chars_of, seq_eq};

verus! {

broadcast use vstd::string::group_string_axioms;

/// Ordered object members: (key, serialised value).
pub type Members = Seq<(Seq<char>, Seq<char>)>;

pub open spec fn member_views(v: Seq<(String, String)>) -> Members {
    v.map_values(|e: (String, String)| (e.0@, e.1@))
}

pub open spec fn string_views(v: Seq<String>) -> Seq<Seq<char>> {
    v.map_values(|s: String| s@)
}

/// The parts separated by commas.
pub open spec fn join_commas(parts: Seq<Seq<char>>) -> Seq<char>
    decreases parts.len(),
{
    if parts.len() == 0 {
        seq![]
    } else if parts.len() == 1 {
        parts[0]
    } else {
        join_commas(parts.drop_last()) + ","@ + parts.last()
    }
}

/// A JSON array of the serialised elements.
pub open spec fn array_text(items: Seq<Seq<char>>) -> Seq<char> {
    "["@ + join_commas(items) + "]"@
}

/// One member as `"key":value`.
pub open spec fn member_text(m: (Seq<char>, Seq<char>)) -> Seq<char> {
    json_string_literal(m.0) + ":"@ + m.1
}

/// A JSON object of the members, in order.
pub open spec fn object_text(members: Members) -> Seq<char> {
    "{"@ + join_commas(members.map_values(|m: (Seq<char>, Seq<char>)| member_text(m))) + "}"@
}

/// The value of the first member named `k`.
pub open spec fn lookup(members: Members, k: Seq<char>) -> Option<Seq<char>>
    decreases members.len(),
{
    if members.len() == 0 {
        None
    } else if members[0].0 == k {
        Some(members[0].1)
    } else {
        lookup(members.drop_first(), k)
    }
}

/// Sets member `k` to `v`: in place where `k` is present, else appended.
pub open spec fn upsert(members: Members, k: Seq<char>, v: Seq<char>) -> Members
    decreases members.len(),
{
    if members.len() == 0 {
        seq![(k, v)]
    } else if members[0].0 == k {
        members.update(0, (k, v))
    } else {
        seq![members[0]] + upsert(members.drop_first(), k, v)
    }
}

/// `extra`'s members written over `base`, one by one in order.
pub open spec fn merge(base: Members, extra: Members) -> Members
    decreases extra.len(),
{
    if extra.len() == 0 {
        base
    } else {
        upsert(merge(base, extra.drop_last()), extra.last().0, extra.last().1)
    }
}

/// The value of the last member named `k`.
pub open spec fn last_value(members: Members, k: Seq<char>) -> Option<Seq<char>>
    decreases members.len(),
{
    if members.len() == 0 {
        None
    } else if members.last().0 == k {
        Some(members.last().1)
    } else {
        last_value(members.drop_last(), k)
    }
}

proof fn lemma_upsert_lookup(members: Members, k: Seq<char>, v: Seq<char>, q: Seq<char>)
    ensures
        lookup(upsert(members, k, v), q) == (if q == k {
            Some(v)
        } else {
            lookup(members, q)
        }),
    decreases members.len(),
{
    if members.len() > 0 && members[0].0 != k {
        lemma_upsert_lookup(members.drop_first(), k, v, q);
        let u = seq![members[0]] + upsert(members.drop_first(), k, v);
        assert(u.drop_first() =~= upsert(members.drop_first(), k, v));
        assert(u[0] == members[0]);
    } else if members.len() > 0 {
        let u = members.update(0, (k, v));
        assert(u.drop_first() =~= members.drop_first());
        assert(u[0] == (k, v));
    } else {
        let u = seq![(k, v)];
        assert(u.len() == 1 && u[0] == (k, v));
        assert(u.drop_first() =~= Seq::<(Seq<char>, Seq<char>)>::empty());
        assert(lookup(u.drop_first(), q) is None);
    }
}

/// Merging keeps what `extra` does not name and takes `extra`'s value for
/// what it does: a key of the extra members overrides the base, any other
/// base member stays.
pub proof fn lemma_merge_lookup(base: Members, extra: Members, k: Seq<char>)
    ensures
        lookup(merge(base, extra), k) == match last_value(extra, k) {
            Some(v) => Some(v),
            None => lookup(base, k),
        },
    decreases extra.len(),
{
    if extra.len() > 0 {
        lemma_merge_lookup(base, extra.drop_last(), k);
        lemma_upsert_lookup(merge(base, extra.drop_last()), extra.last().0, extra.last().1, k);
    }
}

proof fn lemma_upsert_at(members: Members, k: Seq<char>, v: Seq<char>, i: int)
    requires
        0 <= i <= members.len(),
        forall|j: int| 0 <= j < i ==> (#[trigger] members[j]).0 != k,
        i == members.len() || members[i].0 == k,
    ensures
        upsert(members, k, v) == (if i == members.len() {
            members.push((k, v))
        } else {
            members.update(i, (k, v))
        }),
    decreases members.len(),
{
    if members.len() > 0 && i > 0 {
        let d = members.drop_first();
        assert forall|j: int| 0 <= j < i - 1 implies (#[trigger] d[j]).0 != k by {
            assert(d[j] == members[j + 1]);
        }
        lemma_upsert_at(d, k, v, i - 1);
        if i == members.len() {
            assert(seq![members[0]] + d.push((k, v)) =~= members.push((k, v)));
        } else {
            assert(seq![members[0]] + d.update(i - 1, (k, v)) =~= members.update(i, (k, v)));
        }
    } else if members.len() == 0 {
        assert(seq![(k, v)] =~= members.push((k, v)));
    }
}

/// Sets member `k` to `v` in `members`.
pub fn upsert_member(members: &mut Vec<(String, String)>, k: String, v: String)
    ensures
        member_views(final(members)@) == upsert(member_views(old(members)@), k@, v@),
{
    let ghost m0 = member_views(members@);
    let kv = chars_of(k.as_str());
    let n = members.len();
    let mut i: usize = 0;
    while i < n
        invariant
            i <= n == members@.len(),
            kv@ == k@,
            m0 == member_views(members@),
            forall|j: int| 0 <= j < i ==> (#[trigger] m0[j]).0 != k@,
        ensures
            i <= n,
            forall|j: int| 0 <= j < i ==> (#[trigger] m0[j]).0 != k@,
            i == n || m0[i as int].0 == k@,
        decreases n - i,
    {
        let cv = chars_of(members[i].0.as_str());
        if seq_eq(&cv, &kv) {
            break;
        }
        i = i + 1;
    }
    proof {
        lemma_upsert_at(m0, k@, v@, i as int);
    }
    if i < n {
        members.set(i, (k, v));
        assert(member_views(members@) =~= m0.update(i as int, (k@, v@)));
    } else {
        members.push((k, v));
        assert(member_views(members@) =~= m0.push((k@, v@)));
    }
}

/// Writes `extra`'s members over `members`, in order.
pub fn merge_members(members: &mut Vec<(String, String)>, extra: Vec<(String, String)>)
    ensures
        member_views(final(members)@) == merge(member_views(old(members)@), member_views(extra@)),
{
    let ghost m0 = member_views(members@);
    let ghost ex = member_views(extra@);
    let mut i: usize = 0;
    while i < extra.len()
        invariant
            i <= extra@.len(),
            ex == member_views(extra@),
            member_views(members@) == merge(m0, ex.subrange(0, i as int)),
        decreases extra@.len() - i,
    {
        assert(ex.subrange(0, i + 1).drop_last() =~= ex.subrange(0, i as int));
        let k = extra[i].0.clone();
        let v = extra[i].1.clone();
        upsert_member(members, k, v);
        i = i + 1;
    }
    assert(ex.subrange(0, i as int) =~= ex);
}

/// The parts separated by commas.
pub fn join_with_commas(parts: &Vec<String>) -> (r: String)
    ensures
        r@ == join_commas(string_views(parts@)),
{
    let ghost ps = string_views(parts@);
    let mut r = String::new();
    let mut i: usize = 0;
    while i < parts.len()
        invariant
            i <= parts@.len(),
            ps == string_views(parts@),
            r@ == join_commas(ps.subrange(0, i as int)),
        decreases parts@.len() - i,
    {
        let ghost sub = ps.subrange(0, i + 1);
        assert(sub.drop_last() =~= ps.subrange(0, i as int));
        if i > 0 {
            r.append(",");
        } else {
            assert(r@ =~= seq![]);
        }
        r.append(parts[i].as_str());
        i = i + 1;
    }
    assert(ps.subrange(0, i as int) =~= ps);
    r
}

/// A JSON array of the serialised elements.
pub fn array_of(items: &Vec<String>) -> (r: String)
    ensures
        r@ == array_text(string_views(items@)),
{
    let mut r = String::from_str("[");
    let body = join_with_commas(items);
    r.append(body.as_str());
    r.append("]");
    r
}

/// A JSON object of the members, in order.
pub fn object_of(members: &Vec<(String, String)>) -> (r: String)
    ensures
        r@ == object_text(member_views(members@)),
{
    let mut parts: Vec<String> = Vec::new();
    let mut i: usize = 0;
    while i < members.len()
        invariant
            i <= members@.len(),
            string_views(parts@) == member_views(members@).subrange(0, i as int).map_values(
                |m: (Seq<char>, Seq<char>)| member_text(m),
            ),
        decreases members@.len() - i,
    {
        let mut p = string_literal(members[i].0.as_str());
        p.append(":");
        p.append(members[i].1.as_str());
        let ghost mv = member_views(members@)[i as int];
        assert(p@ == member_text(mv));
        let ghost before = string_views(parts@);
        parts.push(p);
        assert(string_views(parts@) =~= before.push(member_text(mv)));
        i = i + 1;
        assert(string_views(parts@) =~= member_views(members@).subrange(0, i as int).map_values(
            |m: (Seq<char>, Seq<char>)| member_text(m),
        ));
    }
    assert(member_views(members@).subrange(0, i as int) =~= member_views(members@));
    let mut r = String::from_str("{");
    let body = join_with_commas(&parts);
    r.append(body.as_str());
    r.append("}");
    r
}

} // verus!
