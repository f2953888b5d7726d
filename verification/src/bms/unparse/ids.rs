//! Ids for the values that messages refer to: the id of an existing definition of the value
//! where there is one, otherwise a fresh id, which then needs a definition of its own.
use crate::bms::command::ObjId;
use crate::text::text_eq;
use vstd::prelude::*;

verus! {

/// The number of ids, `00` to `zz`.
pub const ID_COUNT: usize = 3844;

/// The id given to `key` first, if any.
pub open spec fn lookup(assigned: Seq<(Seq<char>, ObjId)>, key: Seq<char>) -> Option<ObjId>
    decreases assigned.len(),
{
    if assigned.len() == 0 {
        None
    } else {
        match lookup(assigned.drop_last(), key) {
            Some(id) => Some(id),
            None => if assigned.last().0 == key {
                Some(assigned.last().1)
            } else {
                None
            },
        }
    }
}

/// The least id number from `v` on that is not used, below 3844.
pub open spec fn first_free(used: Seq<bool>, v: int) -> Option<int>
    decreases 3844 - v,
{
    if v >= 3844 || v < 0 {
        None
    } else if !used[v] {
        Some(v)
    } else {
        first_free(used, v + 1)
    }
}

/// The ids given to values and the ids in use after the definitions of the ids below `n`
/// (`defs[k]` is the value of the id numbered `k`, if defined): a value keeps the least id
/// that defines it.
pub open spec fn initial_ids(defs: Seq<Option<Seq<char>>>, n: int) -> (Seq<(Seq<char>, ObjId)>, Seq<bool>)
    decreases n,
{
    if n <= 0 {
        (Seq::empty(), Seq::new(3844, |i: int| false))
    } else {
        let (a, u) = initial_ids(defs, n - 1);
        match defs[n - 1] {
            None => (a, u),
            Some(key) => (
                if lookup(a, key) is None {
                    a.push((key, ObjId::spec_from_value(n - 1)))
                } else {
                    a
                },
                u.update(n - 1, true),
            ),
        }
    }
}

/// One request for the id of `key`: its id if it has one; otherwise the least unused id
/// from `01`, which `key` then keeps, and `true` for a fresh id; `None` when every id is
/// used.
pub open spec fn id_step(state: (Seq<(Seq<char>, ObjId)>, Seq<bool>), key: Seq<char>) -> ((Seq<(Seq<char>, ObjId)>, Seq<bool>), Option<ObjId>, bool) {
    let (a, u) = state;
    match lookup(a, key) {
        Some(id) => (state, Some(id), false),
        None => match first_free(u, 1) {
            Some(v) => ((a.push((key, ObjId::spec_from_value(v))), u.update(v, true)), Some(ObjId::spec_from_value(v)), true),
            None => (state, None, false),
        },
    }
}

/// The ids of values for messages.
pub struct ObjIdManager {
    assigned: Vec<(String, ObjId)>,
    used: Vec<bool>,
}

impl ObjIdManager {
    /// The values with their ids, in the order they got them.
    pub closed spec fn assigned_view(&self) -> Seq<(Seq<char>, ObjId)> {
        self.assigned@.map_values(|p: (String, ObjId)| (p.0@, p.1))
    }

    /// Which id numbers are in use.
    pub closed spec fn used_view(&self) -> Seq<bool> {
        self.used@
    }

    /// The state of the ids.
    pub open spec fn state(&self) -> (Seq<(Seq<char>, ObjId)>, Seq<bool>) {
        (self.assigned_view(), self.used_view())
    }

    /// Every id number has its flag.
    pub closed spec fn wf(&self) -> bool {
        self.used@.len() == 3844
    }

    fn find(&self, key: &str) -> (r: Option<ObjId>)
        ensures
            r == lookup(self.assigned_view(), key@),
    {
        let mut i: usize = 0;
        while i < self.assigned.len()
            invariant
                i <= self.assigned@.len(),
                lookup(self.assigned_view().take(i as int), key@) is None,
            decreases self.assigned@.len() - i,
        {
            proof {
                assert(self.assigned_view().take(i + 1).drop_last() =~= self.assigned_view().take(i as int));
            }
            if text_eq(self.assigned[i].0.as_str(), key) {
                proof {
                    lemma_lookup_prefix(self.assigned_view(), key@, i + 1);
                }
                return Some(self.assigned[i].1);
            }
            i += 1;
        }
        assert(self.assigned_view().take(self.assigned@.len() as int) =~= self.assigned_view());
        None
    }

    /// The ids of the definitions `defs` (the value of each id number, if defined).
    pub fn from_defs(defs: &Vec<Option<String>>) -> (r: Self)
        requires
            defs@.len() == 3844,
        ensures
            r.wf(),
            r.state() == initial_ids(defs@.map_values(|o: Option<String>| match o {
                Some(s) => Some(s@),
                None => None,
            }), 3844),
    {
        let ghost dv = defs@.map_values(|o: Option<String>| match o {
            Some(s) => Some(s@),
            None => None,
        });
        let mut used: Vec<bool> = Vec::new();
        let mut j: usize = 0;
        while j < ID_COUNT
            invariant
                j <= 3844,
                used@ == Seq::new(j as nat, |i: int| false),
            decreases 3844 - j,
        {
            used.push(false);
            j += 1;
            assert(used@ =~= Seq::new(j as nat, |i: int| false));
        }
        let mut m = ObjIdManager { assigned: Vec::new(), used };
        assert(m.assigned_view() =~= Seq::empty());
        let mut k: usize = 0;
        while k < ID_COUNT
            invariant
                k <= 3844,
                defs@.len() == 3844,
                dv == defs@.map_values(|o: Option<String>| match o {
                    Some(s) => Some(s@),
                    None => None,
                }),
                m.used@.len() == 3844,
                m.state() == initial_ids(dv, k as int),
            decreases 3844 - k,
        {
            match &defs[k] {
                Some(key) => {
                    assert(dv[k as int] == Some(key@));
                    if m.find(key.as_str()).is_none() {
                        let id = ObjId::from_u16(k as u16).unwrap();
                        let ghost before = m.assigned_view();
                        m.assigned.push((key.clone(), id));
                        assert(m.assigned_view() =~= before.push((key@, id)));
                    }
                    m.used.set(k, true);
                },
                None => {
                    assert(dv[k as int] is None);
                },
            }
            k += 1;
        }
        m
    }

    /// The id of `key`: its own, or a fresh one (then `true`); `None` when every id is used.
    pub fn get_or_new_id(&mut self, key: &str) -> (r: (Option<ObjId>, bool))
        requires
            old(self).wf(),
        ensures
            final(self).wf(),
            (final(self).state(), r.0, r.1) == id_step(old(self).state(), key@),
    {
        match self.find(key) {
            Some(id) => (Some(id), false),
            None => {
                let mut v: usize = 1;
                while v < ID_COUNT && self.used[v]
                    invariant
                        1 <= v <= 3844,
                        self.used@.len() == 3844,
                        first_free(self.used@, 1) == first_free(self.used@, v as int),
                    decreases 3844 - v,
                {
                    v += 1;
                }
                if v >= ID_COUNT {
                    return (None, false);
                }
                let id = ObjId::from_u16(v as u16).unwrap();
                let ghost before = self.assigned_view();
                self.assigned.push((key.to_string(), id));
                assert(self.assigned_view() =~= before.push((key@, id)));
                self.used.set(v, true);
                (Some(id), true)
            },
        }
    }

    /// The ids in use, by increasing number.
    pub fn used_ids(&self) -> (r: Vec<ObjId>)
        requires
            self.wf(),
        ensures
            forall|i: int| 0 <= i < r@.len() ==> self.used_view()[#[trigger] r@[i].value()],
            forall|v: int| 0 <= v < 3844 && self.used_view()[v] ==> exists|i: int| 0 <= i < r@.len() && #[trigger] r@[i].value() == v,
    {
        let mut r: Vec<ObjId> = Vec::new();
        let mut v: usize = 0;
        while v < ID_COUNT
            invariant
                v <= 3844,
                self.used@.len() == 3844,
                forall|i: int| 0 <= i < r@.len() ==> self.used@[#[trigger] r@[i].value()],
                forall|w: int| 0 <= w < v && self.used@[w] ==> exists|i: int| 0 <= i < r@.len() && #[trigger] r@[i].value() == w,
            decreases 3844 - v,
        {
            let ghost before = r@;
            if self.used[v] {
                let id = ObjId::from_u16(v as u16).unwrap();
                r.push(id);
                assert(r@[r@.len() - 1].value() == v);
            }
            proof {
                assert forall|w: int| 0 <= w < v + 1 && self.used@[w] implies exists|i: int| 0 <= i < r@.len() && #[trigger] r@[i].value() == w by {
                    if w < v {
                        let i = choose|i: int| 0 <= i < before.len() && #[trigger] before[i].value() == w;
                        assert(r@[i] == before[i]);
                    } else {
                        assert(r@[r@.len() - 1].value() == w);
                    }
                }
            }
            v += 1;
        }
        r
    }
}

/// A lookup in a prefix that finds the key finds it in the whole.
proof fn lemma_lookup_prefix(a: Seq<(Seq<char>, ObjId)>, key: Seq<char>, n: int)
    requires
        0 < n <= a.len(),
        lookup(a.take(n - 1), key) is None,
        a[n - 1].0 == key,
    ensures
        lookup(a, key) == Some(a[n - 1].1),
    decreases a.len() - n,
{
    assert(a.take(n).drop_last() =~= a.take(n - 1));
    assert(lookup(a.take(n), key) == Some(a[n - 1].1));
    lemma_lookup_extend(a, key, n);
}

/// Once a prefix finds the key, longer prefixes find the same.
proof fn lemma_lookup_extend(a: Seq<(Seq<char>, ObjId)>, key: Seq<char>, n: int)
    requires
        0 <= n <= a.len(),
        lookup(a.take(n), key) is Some,
    ensures
        lookup(a, key) == lookup(a.take(n), key),
    decreases a.len() - n,
{
    if n < a.len() {
        assert(a.take(n + 1).drop_last() =~= a.take(n));
        lemma_lookup_extend(a, key, n + 1);
    } else {
        assert(a.take(n) =~= a);
    }
}

} // verus!
