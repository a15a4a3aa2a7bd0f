//! Environment maps: variable name to value, keys unique, iterated in
//! insertion order so composition is deterministic.

use vstd::prelude::*;

use crate::strutil::{chars_of, str_eq, string_of};
use vstd::string::StringExecFns;

verus! {

/// First value bound to `k`, scanning left to right.
pub open spec fn lookup(s: Seq<(Seq<char>, Seq<char>)>, k: Seq<char>) -> Option<Seq<char>>
    decreases s.len(),
{
    if s.len() == 0 {
        None
    } else if s[0].0 == k {
        Some(s[0].1)
    } else {
        lookup(s.drop_first(), k)
    }
}

/// All keys pairwise distinct.
pub open spec fn env_wf(s: Seq<(Seq<char>, Seq<char>)>) -> bool {
    forall|i: int, j: int| 0 <= i < j < s.len() ==> (#[trigger] s[i]).0 != (#[trigger] s[j]).0
}

/// Bind `k` to `v`: replace in place if `k` is present, else append.
pub open spec fn insert_s(
    s: Seq<(Seq<char>, Seq<char>)>,
    k: Seq<char>,
    v: Seq<char>,
) -> Seq<(Seq<char>, Seq<char>)>
    decreases s.len(),
{
    if s.len() == 0 {
        seq![(k, v)]
    } else if s[0].0 == k {
        seq![(k, v)] + s.drop_first()
    } else {
        seq![s[0]] + insert_s(s.drop_first(), k, v)
    }
}

/// Layered merge: every binding of `o`, in order, inserted into `s`.
pub open spec fn extend_s(
    s: Seq<(Seq<char>, Seq<char>)>,
    o: Seq<(Seq<char>, Seq<char>)>,
) -> Seq<(Seq<char>, Seq<char>)>
    decreases o.len(),
{
    if o.len() == 0 {
        s
    } else {
        extend_s(insert_s(s, o[0].0, o[0].1), o.drop_first())
    }
}

pub proof fn lemma_lookup_insert(
    s: Seq<(Seq<char>, Seq<char>)>,
    k0: Seq<char>,
    v0: Seq<char>,
    k: Seq<char>,
)
    ensures
        lookup(insert_s(s, k0, v0), k) == (if k == k0 {
            Some(v0)
        } else {
            lookup(s, k)
        }),
    decreases s.len(),
{
    reveal_with_fuel(lookup, 3);
    reveal_with_fuel(insert_s, 3);
    if s.len() == 0 {
        assert(seq![(k0, v0)][0].0 == k0);
        assert(seq![(k0, v0)].drop_first() =~= Seq::<(Seq<char>, Seq<char>)>::empty());
    } else if s[0].0 == k0 {
        let t = seq![(k0, v0)] + s.drop_first();
        assert(t[0].0 == k0);
        assert(t.drop_first() =~= s.drop_first());
        if k != k0 {
            assert(lookup(s, k) == lookup(s.drop_first(), k));
        }
    } else {
        let t = seq![s[0]] + insert_s(s.drop_first(), k0, v0);
        assert(t[0] == s[0]);
        assert(t.drop_first() =~= insert_s(s.drop_first(), k0, v0));
        lemma_lookup_insert(s.drop_first(), k0, v0, k);
    }
}

/// Keys stay unique: inserting into a well-formed map yields a well-formed
/// map, and binds exactly the old keys plus `k`.
pub proof fn lemma_insert_wf(s: Seq<(Seq<char>, Seq<char>)>, k: Seq<char>, v: Seq<char>)
    requires
        env_wf(s),
    ensures
        env_wf(insert_s(s, k, v)),
        forall|k2: Seq<char>| lookup(insert_s(s, k, v), k2) is Some <==> (k2 == k || #[trigger]
            lookup(s, k2) is Some),
    decreases s.len(),
{
    lemma_lookup_insert(s, k, v, k);
    assert forall|k2: Seq<char>|
        lookup(insert_s(s, k, v), k2) is Some <==> (k2 == k || #[trigger] lookup(s, k2)
            is Some) by {
        lemma_lookup_insert(s, k, v, k2);
    }
    if s.len() == 0 {
    } else if s[0].0 == k {
        let t = seq![(k, v)] + s.drop_first();
        assert(forall|i: int| 0 <= i < t.len() ==> #[trigger] t[i] == (if i == 0 {
            (k, v)
        } else {
            s[i]
        }));
        assert(env_wf(t));
        assert(insert_s(s, k, v) == t);
    } else {
        assert(env_wf(s.drop_first())) by {
            assert(forall|i: int|
                0 <= i < s.drop_first().len() ==> #[trigger] s.drop_first()[i] == s[i + 1]);
        }
        lemma_insert_wf(s.drop_first(), k, v);
        let u = insert_s(s.drop_first(), k, v);
        let t = seq![s[0]] + u;
        assert(forall|i: int| 0 <= i < t.len() ==> #[trigger] t[i] == (if i == 0 {
            s[0]
        } else {
            u[i - 1]
        }));
        assert forall|i: int, j: int| 0 <= i < j < t.len() implies (#[trigger] t[i]).0
            != (#[trigger] t[j]).0 by {
            if i == 0 {
                assert(t[j].0 == u[j - 1].0);
                lemma_insert_keys(s.drop_first(), k, v, j - 1);
            }
        }
        assert(insert_s(s, k, v) == t);
    }
}

/// Every key of `insert_s(s, k, v)` is `k` or a key of `s`.
proof fn lemma_insert_keys(s: Seq<(Seq<char>, Seq<char>)>, k: Seq<char>, v: Seq<char>, i: int)
    requires
        0 <= i < insert_s(s, k, v).len(),
    ensures
        insert_s(s, k, v)[i].0 == k || exists|j: int|
            0 <= j < s.len() && (#[trigger] s[j]).0 == insert_s(s, k, v)[i].0,
    decreases s.len(),
{
    if s.len() == 0 {
    } else if s[0].0 == k {
        let t = seq![(k, v)] + s.drop_first();
        if i > 0 {
            assert(t[i] == s[i]);
            assert(s[i].0 == t[i].0);
        }
    } else {
        let t = seq![s[0]] + insert_s(s.drop_first(), k, v);
        if i == 0 {
            assert(t[0] == s[0]);
        } else {
            assert(t[i] == insert_s(s.drop_first(), k, v)[i - 1]);
            lemma_insert_keys(s.drop_first(), k, v, i - 1);
            if insert_s(s.drop_first(), k, v)[i - 1].0 != k {
                let j = choose|j: int|
                    0 <= j < s.drop_first().len() && (#[trigger] s.drop_first()[j]).0 == insert_s(
                        s.drop_first(),
                        k,
                        v,
                    )[i - 1].0;
                assert(s[j + 1].0 == t[i].0);
            }
        }
    }
}

pub proof fn lemma_extend_snoc(
    s: Seq<(Seq<char>, Seq<char>)>,
    o: Seq<(Seq<char>, Seq<char>)>,
    x: (Seq<char>, Seq<char>),
)
    ensures
        extend_s(s, o.push(x)) == insert_s(extend_s(s, o), x.0, x.1),
    decreases o.len(),
{
    reveal_with_fuel(extend_s, 3);
    reveal_with_fuel(insert_s, 3);
    if o.len() == 0 {
        assert(o.push(x)[0] == x);
        assert(o.push(x).drop_first() =~= Seq::<(Seq<char>, Seq<char>)>::empty());
    } else {
        assert(o.push(x)[0] == o[0]);
        assert(o.push(x).drop_first() =~= o.drop_first().push(x));
        lemma_extend_snoc(insert_s(s, o[0].0, o[0].1), o.drop_first(), x);
    }
}

/// A layered merge looks a key up in the top layer first.
pub proof fn lemma_lookup_extend(
    s: Seq<(Seq<char>, Seq<char>)>,
    o: Seq<(Seq<char>, Seq<char>)>,
    k: Seq<char>,
)
    requires
        env_wf(o),
    ensures
        lookup(extend_s(s, o), k) == (match lookup(o, k) {
            Some(v) => Some(v),
            None => lookup(s, k),
        }),
    decreases o.len(),
{
    if o.len() == 0 {
    } else {
        assert(env_wf(o.drop_first())) by {
            assert(forall|i: int|
                0 <= i < o.drop_first().len() ==> #[trigger] o.drop_first()[i] == o[i + 1]);
        }
        lemma_lookup_extend(insert_s(s, o[0].0, o[0].1), o.drop_first(), k);
        lemma_lookup_insert(s, o[0].0, o[0].1, k);
        if k == o[0].0 {
            assert(lookup(o.drop_first(), k) is None) by {
                assert(forall|j: int|
                    0 <= j < o.drop_first().len() ==> (#[trigger] o.drop_first()[j]).0 == o[j
                        + 1].0);
                lemma_lookup_none(o.drop_first(), k);
            }
        }
    }
}

/// If no binding carries `k`, the lookup misses.
pub proof fn lemma_lookup_none(s: Seq<(Seq<char>, Seq<char>)>, k: Seq<char>)
    requires
        forall|j: int| 0 <= j < s.len() ==> (#[trigger] s[j]).0 != k,
    ensures
        lookup(s, k) is None,
    decreases s.len(),
{
    if s.len() == 0 {
    } else {
        assert(s[0].0 != k);
        assert(forall|j: int| 0 <= j < s.drop_first().len() ==> (#[trigger] s.drop_first()[j]).0
            == s[j + 1].0);
        lemma_lookup_none(s.drop_first(), k);
    }
}

proof fn lemma_lookup_at(s: Seq<(Seq<char>, Seq<char>)>, k: Seq<char>, i: int)
    requires
        0 <= i < s.len(),
        s[i].0 == k,
        forall|j: int| 0 <= j < i ==> (#[trigger] s[j]).0 != k,
    ensures
        lookup(s, k) == Some(s[i].1),
    decreases i,
{
    if i == 0 {
    } else {
        assert(s[0].0 != k);
        assert(forall|j: int| 0 <= j < s.drop_first().len() ==> #[trigger] s.drop_first()[j] == s[j
            + 1]);
        lemma_lookup_at(s.drop_first(), k, i - 1);
    }
}

proof fn lemma_insert_s_at(s: Seq<(Seq<char>, Seq<char>)>, k: Seq<char>, v: Seq<char>, i: int)
    requires
        0 <= i < s.len(),
        s[i].0 == k,
        forall|j: int| 0 <= j < i ==> (#[trigger] s[j]).0 != k,
    ensures
        insert_s(s, k, v) == s.update(i, (k, v)),
    decreases i,
{
    if i == 0 {
        assert(seq![(k, v)] + s.drop_first() =~= s.update(0, (k, v)));
    } else {
        assert(s[0].0 != k);
        assert(forall|j: int| 0 <= j < s.drop_first().len() ==> #[trigger] s.drop_first()[j] == s[j
            + 1]);
        lemma_insert_s_at(s.drop_first(), k, v, i - 1);
        assert(seq![s[0]] + s.drop_first().update(i - 1, (k, v)) =~= s.update(i, (k, v)));
    }
}

proof fn lemma_insert_s_absent(s: Seq<(Seq<char>, Seq<char>)>, k: Seq<char>, v: Seq<char>)
    requires
        forall|j: int| 0 <= j < s.len() ==> (#[trigger] s[j]).0 != k,
    ensures
        insert_s(s, k, v) == s.push((k, v)),
    decreases s.len(),
{
    if s.len() == 0 {
        assert(seq![(k, v)] =~= s.push((k, v)));
    } else {
        assert(forall|j: int| 0 <= j < s.drop_first().len() ==> #[trigger] s.drop_first()[j] == s[j
            + 1]);
        lemma_insert_s_absent(s.drop_first(), k, v);
        assert(seq![s[0]] + s.drop_first().push((k, v)) =~= s.push((k, v)));
    }
}

/// A mapping of variable name to value with unique keys, kept in insertion
/// order.
pub struct EnvMap {
    items: Vec<(String, String)>,
}

impl View for EnvMap {
    type V = Seq<(Seq<char>, Seq<char>)>;

    closed spec fn view(&self) -> Seq<(Seq<char>, Seq<char>)> {
        Seq::new(self.items@.len(), |i: int| (self.items@[i].0@, self.items@[i].1@))
    }
}

impl EnvMap {
    pub fn new() -> (r: EnvMap)
        ensures
            r@ == Seq::<(Seq<char>, Seq<char>)>::empty(),
    {
        let r = EnvMap { items: Vec::new() };
        proof {
            assert(r@ =~= Seq::<(Seq<char>, Seq<char>)>::empty());
        }
        r
    }

    pub fn len(&self) -> (n: usize)
        ensures
            n == self@.len(),
    {
        self.items.len()
    }

    pub fn key_at(&self, i: usize) -> (k: &String)
        requires
            i < self@.len(),
        ensures
            k@ == self@[i as int].0,
    {
        &self.items[i].0
    }

    pub fn value_at(&self, i: usize) -> (v: &String)
        requires
            i < self@.len(),
        ensures
            v@ == self@[i as int].1,
    {
        &self.items[i].1
    }

    pub fn get(&self, k: &str) -> (r: Option<&String>)
        ensures
            match r {
                Some(v) => lookup(self@, k@) == Some(v@),
                None => lookup(self@, k@) is None,
            },
    {
        let mut i: usize = 0;
        while i < self.items.len()
            invariant
                i <= self@.len(),
                self@.len() == self.items@.len(),
                forall|j: int| 0 <= j < i ==> (#[trigger] self@[j]).0 != k@,
            decreases self@.len() - i,
        {
            if str_eq(self.items[i].0.as_str(), k) {
                proof {
                    assert(self@[i as int].0 == k@);
                    lemma_lookup_at(self@, k@, i as int);
                }
                return Some(&self.items[i].1);
            }
            proof {
                assert(self@[i as int].0 != k@);
            }
            i += 1;
        }
        proof {
            lemma_lookup_none(self@, k@);
        }
        None
    }

    pub fn insert(&mut self, k: String, v: String)
        ensures
            final(self)@ == insert_s(old(self)@, k@, v@),
    {
        proof {
            reveal_with_fuel(insert_s, 2);
        }
        let ghost s0 = self@;
        let mut i: usize = 0;
        while i < self.items.len()
            invariant
                old(self)@ == s0,
                self@ == s0,
                i <= self@.len(),
                self@.len() == self.items@.len(),
                forall|j: int| 0 <= j < i ==> (#[trigger] self@[j]).0 != k@,
            decreases self@.len() - i,
        {
            if str_eq(self.items[i].0.as_str(), k.as_str()) {
                proof {
                    lemma_insert_s_at(s0, k@, v@, i as int);
                }
                self.items.remove(i);
                self.items.insert(i, (k, v));
                proof {
                    assert(self@ =~= s0.update(i as int, (k@, v@)));
                }
                return ;
            }
            i += 1;
        }
        proof {
            lemma_insert_s_absent(s0, k@, v@);
        }
        self.items.push((k, v));
        proof {
            assert(self@ =~= s0.push((k@, v@)));
        }
    }

    /// Bind `k` to `v` only when `k` is not yet bound; the default used for
    /// `TERM` on remote sessions.
    pub fn insert_if_absent(&mut self, k: String, v: String)
        ensures
            final(self)@ == (if lookup(old(self)@, k@) is Some {
                old(self)@
            } else {
                insert_s(old(self)@, k@, v@)
            }),
    {
        let present = match self.get(k.as_str()) {
            Some(_) => true,
            None => false,
        };
        if !present {
            self.insert(k, v);
        }
    }

    /// Layered merge: every binding of `other`, in order; later layers
    /// override earlier ones for the same key.
    pub fn extend(&mut self, other: &EnvMap)
        ensures
            final(self)@ == extend_s(old(self)@, other@),
    {
        let ghost s0 = self@;
        let mut i: usize = 0;
        while i < other.items.len()
            invariant
                other@.len() == other.items@.len(),
                i <= other@.len(),
                self@ == extend_s(s0, other@.subrange(0, i as int)),
            decreases other@.len() - i,
        {
            let k = other.items[i].0.clone();
            let v = other.items[i].1.clone();
            proof {
                assert(other@.subrange(0, i + 1 as int) =~= other@.subrange(0, i as int).push(
                    (k@, v@),
                ));
                lemma_extend_snoc(s0, other@.subrange(0, i as int), (k@, v@));
            }
            self.insert(k, v);
            i += 1;
        }
        proof {
            assert(other@.subrange(0, other@.len() as int) =~= other@);
        }
    }

    /// A copy with the same bindings in the same order.
    pub fn duplicate(&self) -> (r: EnvMap)
        ensures
            r@ == self@,
    {
        let mut items: Vec<(String, String)> = Vec::new();
        let mut i: usize = 0;
        while i < self.items.len()
            invariant
                self@.len() == self.items@.len(),
                i <= self@.len(),
                items@.len() == i,
                forall|j: int| 0 <= j < i ==> (#[trigger] items@[j]).0@ == self@[j].0 && items@[j].1@
                    == self@[j].1,
            decreases self@.len() - i,
        {
            let k = self.items[i].0.clone();
            let v = self.items[i].1.clone();
            items.push((k, v));
            i += 1;
        }
        let r = EnvMap { items };
        proof {
            assert(r@ =~= self@);
        }
        r
    }
}

/// Environment precedence: in `inherited <- settings <- task` (later layers
/// override), a key takes its value from the task layer when bound there,
/// else from the settings layer, else from the inherited one.
pub proof fn lemma_env_precedence(
    inherited: Seq<(Seq<char>, Seq<char>)>,
    settings: Seq<(Seq<char>, Seq<char>)>,
    task: Seq<(Seq<char>, Seq<char>)>,
    k: Seq<char>,
)
    requires
        env_wf(settings),
        env_wf(task),
    ensures
        lookup(extend_s(extend_s(inherited, settings), task), k) == (match lookup(task, k) {
            Some(v) => Some(v),
            None => match lookup(settings, k) {
                Some(v) => Some(v),
                None => lookup(inherited, k),
            },
        }),
{
    lemma_lookup_extend(extend_s(inherited, settings), task, k);
    lemma_lookup_extend(inherited, settings, k);
}

/// Whether `s` holds the character `c`.
pub open spec fn has_char(s: Seq<char>, c: char) -> bool {
    exists|i: int| 0 <= i < s.len() && #[trigger] s[i] == c
}

/// The `PATH` value after prepending `new_path`: the old binding of the map
/// if there is one, else the ambient `PATH` handed in by the caller, else
/// nothing, joined with the platform's path-list separator.
pub open spec fn joined_path_s(
    env: Seq<(Seq<char>, Seq<char>)>,
    ambient: Option<Seq<char>>,
    new_path: Seq<char>,
    sep: char,
) -> Seq<char> {
    match lookup(env, "PATH"@) {
        Some(p) => new_path + seq![sep] + p,
        None => match ambient {
            Some(a) => new_path + seq![sep] + a,
            None => new_path,
        },
    }
}

/// The new `PATH` entry cannot be joined into a path list.
#[derive(Debug)]
pub enum EnvPathError {
    JoinFailed,
}

/// Prepend `new_path` to the `PATH` variable of `env`, falling back to the
/// caller-supplied ambient `PATH` when the map has none.  Fails exactly when
/// `new_path` itself holds the path-list separator, in which case the map is
/// left unchanged.
pub fn add_environment_path(
    env: &mut EnvMap,
    new_path: &str,
    ambient_path: Option<&String>,
    sep: char,
) -> (r: Result<(), EnvPathError>)
    ensures
        r is Ok <==> !has_char(new_path@, sep),
        r is Err ==> final(env)@ == old(env)@,
        r is Ok ==> final(env)@ == insert_s(
            old(env)@,
            "PATH"@,
            joined_path_s(
                old(env)@,
                match ambient_path {
                    Some(a) => Some(a@),
                    None => None,
                },
                new_path@,
                sep,
            ),
        ),
{
    let np = chars_of(new_path);
    let mut i: usize = 0;
    let mut found = false;
    while i < np.len()
        invariant
            np@ == new_path@,
            i <= np@.len(),
            found == exists|j: int| 0 <= j < i && #[trigger] np@[j] == sep,
        decreases np@.len() - i,
    {
        if np[i] == sep {
            found = true;
        }
        i += 1;
    }
    if found {
        assert(has_char(new_path@, sep));
        return Err(EnvPathError::JoinFailed);
    }
    assert(!has_char(new_path@, sep));
    let existing: Option<String> = match env.get("PATH") {
        Some(v) => Some(v.clone()),
        None => match ambient_path {
            Some(a) => Some(a.clone()),
            None => None,
        },
    };
    let mut out = np;
    match &existing {
        Some(p) => {
            out.push(sep);
            crate::strutil::push_str_chars(&mut out, p.as_str());
        },
        None => {},
    }
    proof {
        assert(out@ =~= joined_path_s(
            env@,
            match ambient_path {
                Some(a) => Some(a@),
                None => None,
            },
            new_path@,
            sep,
        ));
    }
    env.insert(String::from_str("PATH"), string_of(&out));
    Ok(())
}

} // verus!
