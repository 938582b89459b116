//! Lifetimes as the generator sees them, and how borrows are named in
//! generated code.
use vstd::prelude::*;

verus! {

/// A lifetime of a type, struct or method: either `'static` or the index of
/// a lifetime of the surrounding definition.
#[derive(Clone, Copy, PartialEq, Eq, Structural)]
pub enum MaybeStatic {
    Static,
    NonStatic(usize),
}

/// What kind of parameter a lifetime edge starts from.
pub enum LifetimeEdgeKind {
    /// An opaque parameter borrowed as it is.
    OpaqueParam,
    /// A slice parameter, converted and then borrowed.
    SliceParam,
    /// A lifetime of a struct parameter; the name is that of the lifetime in
    /// the struct's definition, as the struct's lifetime environment writes it.
    StructLifetime(String),
}

/// An edge from a parameter to a value that borrows from it.
pub struct LifetimeEdge {
    pub param_name: String,
    pub kind: LifetimeEdgeKind,
}

/// The parameters a borrowed lifetime's data comes from, and the lifetimes
/// longer than it.
pub struct BorrowedLifetimeInfo {
    pub incoming_edges: Vec<LifetimeEdge>,
    pub all_longer_lifetimes: Vec<usize>,
}

/// For a struct that is borrowed (as a parameter, or as a field of another
/// struct): each lifetime of the struct's definition, listed in increasing
/// order, each once, with the lifetimes of the surrounding method or struct
/// that may flow from it, also increasing, each once: a map from lifetimes
/// to sets of lifetimes, walked in order.
pub struct StructBorrowInfo {
    borrowed_struct_lifetime_map: Vec<(usize, Vec<usize>)>,
}

/// For each lifetime that a method's output borrows (keys increasing, each
/// once), where its data comes from.
pub struct LifetimesMap {
    entries: Vec<(usize, BorrowedLifetimeInfo)>,
}

/// The lifetimes of a definition (a type or a method), named as the
/// definition's lifetime environment writes them, in the order of their
/// indices.
pub struct LifetimeEnv {
    pub names: Vec<String>,
}

/// The entries' keys are strictly increasing: each key occurs once, and
/// the entries come in key order, as a map keyed by lifetime is walked.
pub open spec fn keys_increasing<V>(entries: Seq<(usize, V)>) -> bool {
    forall|i: int, j: int| 0 <= i < j < entries.len() ==> #[trigger] entries[i].0 < #[trigger] entries[j].0
}

/// The numbers are strictly increasing: a set of lifetimes, walked in order.
pub open spec fn increasing(s: Seq<usize>) -> bool {
    forall|i: int, j: int| 0 <= i < j < s.len() ==> #[trigger] s[i] < #[trigger] s[j]
}

/// The map's entries with each set of lifetimes taken as a sequence.
pub open spec fn entries_view(entries: Seq<(usize, Vec<usize>)>) -> Seq<(usize, Seq<usize>)> {
    entries.map_values(|e: (usize, Vec<usize>)| (e.0, e.1@))
}

/// Keys strictly increasing, and each set of lifetimes strictly increasing.
pub open spec fn borrow_map_wf(entries: Seq<(usize, Seq<usize>)>) -> bool {
    &&& keys_increasing(entries)
    &&& forall|i: int| 0 <= i < entries.len() ==> increasing(#[trigger] entries[i].1)
}

fn vec_increasing(v: &Vec<usize>) -> (r: bool)
    ensures
        r == increasing(v@),
{
    let n = v.len();
    if n == 0 {
        return true;
    }
    for i in 1..n
        invariant
            n == v@.len(),
            n > 0,
            forall|a: int, b: int| 0 <= a < b < i ==> #[trigger] v@[a] < #[trigger] v@[b],
    {
        if v[i - 1] >= v[i] {
            return false;
        }
        proof {
            assert forall|a: int, b: int| 0 <= a < b < i + 1 implies #[trigger] v@[a] < #[trigger] v@[b] by {
                if b == i && a < i - 1 {
                    assert(v@[a] < v@[i - 1]);
                }
            }
        }
    }
    true
}

fn copy_lifetimes(v: &Vec<usize>) -> (r: Vec<usize>)
    ensures
        r@ == v@,
{
    let mut r: Vec<usize> = Vec::new();
    let n = v.len();
    for i in 0..n
        invariant
            n == v@.len(),
            r@ == v@.take(i as int),
    {
        r.push(v[i]);
        proof {
            assert(r@ =~= v@.take(i + 1));
        }
    }
    proof {
        assert(v@.take(n as int) =~= v@);
    }
    r
}

impl StructBorrowInfo {
    #[verifier::type_invariant]
    spec fn map_is_ordered(self) -> bool {
        borrow_map_wf(entries_view(self.borrowed_struct_lifetime_map@))
    }

    /// The entries of the map, in order.
    pub closed spec fn map(&self) -> Seq<(usize, Vec<usize>)> {
        self.borrowed_struct_lifetime_map@
    }

    /// The map's entries, if they are ordered as a map is walked: keys
    /// increasing, each once, and each set increasing, each once.
    pub fn new(entries: Vec<(usize, Vec<usize>)>) -> (r: Option<Self>)
        ensures
            r is Some <==> borrow_map_wf(entries_view(entries@)),
            r matches Some(info) ==> info.map() == entries@,
    {
        let n = entries.len();
        let mut i: usize = 0;
        while i < n
            invariant
                n == entries@.len(),
                i <= n,
                forall|a: int, b: int| 0 <= a < b < i ==> #[trigger] entries@[a].0 < #[trigger] entries@[b].0,
                forall|a: int| 0 <= a < i ==> increasing(#[trigger] entries@[a].1@),
            decreases n - i,
        {
            if i > 0 && entries[i - 1].0 >= entries[i].0 {
                proof {
                    assert(entries_view(entries@)[i - 1].0 >= entries_view(entries@)[i as int].0);
                }
                return None;
            }
            if !vec_increasing(&entries[i].1) {
                proof {
                    assert(entries_view(entries@)[i as int].1 == entries@[i as int].1@);
                }
                return None;
            }
            proof {
                assert forall|a: int, b: int| 0 <= a < b < i + 1 implies #[trigger] entries@[a].0
                    < #[trigger] entries@[b].0 by {
                    if b == i && a < i - 1 {
                        assert(entries@[a].0 < entries@[i - 1].0);
                    }
                }
            }
            i = i + 1;
        }
        proof {
            let ev = entries_view(entries@);
            assert forall|a: int, b: int| 0 <= a < b < ev.len() implies #[trigger] ev[a].0
                < #[trigger] ev[b].0 by {
                assert(ev[a].0 == entries@[a].0);
                assert(ev[b].0 == entries@[b].0);
            }
            assert forall|a: int| 0 <= a < ev.len() implies increasing(#[trigger] ev[a].1) by {
                assert(ev[a].1 == entries@[a].1@);
            }
        }
        Some(StructBorrowInfo { borrowed_struct_lifetime_map: entries })
    }

    /// The map's entries, in order; they are ordered as a map is walked.
    pub fn entries(&self) -> (r: &Vec<(usize, Vec<usize>)>)
        ensures
            r@ == self.map(),
            borrow_map_wf(entries_view(r@)),
    {
        proof {
            use_type_invariant(self);
        }
        &self.borrowed_struct_lifetime_map
    }

    /// A copy of the map.
    pub fn duplicate(&self) -> (r: Self)
        ensures
            entries_view(r.map()) == entries_view(self.map()),
    {
        proof {
            use_type_invariant(self);
        }
        let src = &self.borrowed_struct_lifetime_map;
        let n = src.len();
        let mut out: Vec<(usize, Vec<usize>)> = Vec::new();
        for i in 0..n
            invariant
                n == src@.len(),
                out@.len() == i,
                entries_view(out@) == entries_view(src@).take(i as int),
        {
            let copy = copy_lifetimes(&src[i].1);
            let ghost before = out@;
            out.push((src[i].0, copy));
            proof {
                assert(out@ == before.push((src@[i as int].0, copy)));
                assert forall|k: int| 0 <= k < i implies entries_view(out@)[k] == entries_view(src@)[k] by {
                    assert(entries_view(before)[k] == entries_view(src@).take(i as int)[k]);
                }
                assert(entries_view(out@) =~= entries_view(src@).take(i + 1));
            }
        }
        proof {
            assert(entries_view(src@).take(n as int) =~= entries_view(src@));
        }
        StructBorrowInfo { borrowed_struct_lifetime_map: out }
    }
}

impl LifetimesMap {
    #[verifier::type_invariant]
    spec fn keys_are_ordered(self) -> bool {
        keys_increasing(self.entries@)
    }

    /// The entries of the map, in order.
    pub closed spec fn spec_entries(&self) -> Seq<(usize, BorrowedLifetimeInfo)> {
        self.entries@
    }

    /// The entries, if their keys increase, each once, as a map is walked.
    pub fn new(entries: Vec<(usize, BorrowedLifetimeInfo)>) -> (r: Option<Self>)
        ensures
            r is Some <==> keys_increasing(entries@),
            r matches Some(m) ==> m.spec_entries() == entries@,
    {
        let n = entries.len();
        let mut i: usize = 1;
        if n == 0 {
            return Some(LifetimesMap { entries });
        }
        while i < n
            invariant
                n == entries@.len(),
                1 <= i <= n,
                forall|a: int, b: int| 0 <= a < b < i ==> #[trigger] entries@[a].0 < #[trigger] entries@[b].0,
            decreases n - i,
        {
            if entries[i - 1].0 >= entries[i].0 {
                return None;
            }
            proof {
                assert forall|a: int, b: int| 0 <= a < b < i + 1 implies #[trigger] entries@[a].0
                    < #[trigger] entries@[b].0 by {
                    if b == i && a < i - 1 {
                        assert(entries@[a].0 < entries@[i - 1].0);
                    }
                }
            }
            i = i + 1;
        }
        Some(LifetimesMap { entries })
    }

    /// The entries, in order of their keys.
    pub fn entries(&self) -> (r: &Vec<(usize, BorrowedLifetimeInfo)>)
        ensures
            r@ == self.spec_entries(),
            keys_increasing(r@),
    {
        proof {
            use_type_invariant(self);
        }
        &self.entries
    }
}

/// Upper case of a string, as `str::to_uppercase` computes it.
pub uninterp spec fn upper_case(s: Seq<char>) -> Seq<char>;

/// Calls `str::to_uppercase`. Claimed: the result is `upper_case` of the
/// argument's characters, and depends on nothing else. What the upper case
/// of each character is (the Unicode mapping) is left unstated.
#[verifier::external_body]
fn to_upper_case(s: &str) -> (r: String)
    ensures
        r@ == upper_case(s@),
{
    s.to_uppercase()
}

/// The JavaScript expression that stands for a lifetime edge.
pub open spec fn edge_expression(edge: LifetimeEdge) -> Seq<char> {
    match edge.kind {
        LifetimeEdgeKind::OpaqueParam => edge.param_name@,
        LifetimeEdgeKind::SliceParam => edge.param_name@ + "Slice"@,
        LifetimeEdgeKind::StructLifetime(lt) => "..."@ + edge.param_name@ + "._fieldsForLifetime"@
            + upper_case(lt@),
    }
}

/// Writes the JavaScript expression for a lifetime edge: an opaque
/// parameter is retained as it is, a slice by the slice object built for
/// it, and a struct lifetime by spreading the struct's fields for that
/// lifetime.
pub fn display_lifetime_edge(edge: &LifetimeEdge) -> (r: String)
    ensures
        r@ == edge_expression(*edge),
{
    match &edge.kind {
        LifetimeEdgeKind::OpaqueParam => edge.param_name.clone(),
        LifetimeEdgeKind::SliceParam => {
            let mut r = edge.param_name.clone();
            r.append("Slice");
            r
        },
        LifetimeEdgeKind::StructLifetime(lt) => {
            let mut r = String::from_str("...");
            r.append(edge.param_name.as_str());
            r.append("._fieldsForLifetime");
            let upper = to_upper_case(lt.as_str());
            r.append(upper.as_str());
            r
        },
    }
}

/// The definition lifetimes, in the map's order, whose use lifetimes
/// include `use_lt`.
pub open spec fn def_lifetimes_matching(entries: Seq<(usize, Vec<usize>)>, use_lt: usize) -> Seq<
    usize,
>
    decreases entries.len(),
{
    if entries.len() == 0 {
        seq![]
    } else {
        let rest = def_lifetimes_matching(entries.drop_last(), use_lt);
        if entries.last().1@.contains(use_lt) {
            rest.push(entries.last().0)
        } else {
            rest
        }
    }
}

fn vec_contains(v: &Vec<usize>, x: usize) -> (r: bool)
    ensures
        r == v@.contains(x),
{
    let n = v.len();
    for i in 0..n
        invariant
            n == v@.len(),
            forall|j: int| 0 <= j < i ==> v@[j] != x,
    {
        if v[i] == x {
            return true;
        }
    }
    false
}

/// `x` is the key of an entry whose set holds `use_lt`.
pub open spec fn is_matching_key(entries: Seq<(usize, Vec<usize>)>, use_lt: usize, x: usize) -> bool {
    exists|j: int| 0 <= j < entries.len() && entries[j].0 == x && entries[j].1@.contains(use_lt)
}

/// Each of the matching lifetimes is a key of the entries whose set holds
/// `use_lt`; with increasing keys they come out increasing.
pub proof fn lemma_matching_keys(entries: Seq<(usize, Vec<usize>)>, use_lt: usize)
    ensures
        forall|i: int|
            0 <= i < def_lifetimes_matching(entries, use_lt).len() ==> is_matching_key(
                entries,
                use_lt,
                #[trigger] def_lifetimes_matching(entries, use_lt)[i],
            ),
        keys_increasing(entries) ==> increasing(def_lifetimes_matching(entries, use_lt)),
    decreases entries.len(),
{
    if entries.len() > 0 {
        let prev = entries.drop_last();
        lemma_matching_keys(prev, use_lt);
        let m = def_lifetimes_matching(entries, use_lt);
        let pm = def_lifetimes_matching(prev, use_lt);
        assert forall|i: int| 0 <= i < m.len() implies is_matching_key(entries, use_lt, #[trigger] m[i]) by {
            if i < pm.len() {
                assert(m[i] == pm[i]);
                assert(is_matching_key(prev, use_lt, pm[i]));
                let j = choose|j: int|
                    0 <= j < prev.len() && prev[j].0 == pm[i] && prev[j].1@.contains(use_lt);
                assert(entries[j] == prev[j]);
            } else {
                assert(entries[entries.len() - 1].0 == m[i]);
            }
        }
        if keys_increasing(entries) {
            assert(keys_increasing(prev)) by {
                assert forall|i: int, j: int| 0 <= i < j < prev.len() implies #[trigger] prev[i].0
                    < #[trigger] prev[j].0 by {
                    assert(prev[i] == entries[i]);
                    assert(prev[j] == entries[j]);
                }
            }
            assert forall|i: int, k: int| 0 <= i < k < m.len() implies #[trigger] m[i]
                < #[trigger] m[k] by {
                if k >= pm.len() {
                    assert(m[i] == pm[i]);
                    assert(is_matching_key(prev, use_lt, pm[i]));
                    let j = choose|j: int|
                        0 <= j < prev.len() && prev[j].0 == pm[i] && prev[j].1@.contains(use_lt);
                    assert(entries[j] == prev[j]);
                    assert(entries[j].0 < entries[entries.len() - 1].0);
                } else {
                    assert(m[i] == pm[i]);
                    assert(m[k] == pm[k]);
                }
            }
        }
    }
}

/// Every definition lifetime whose set of use lifetimes holds `use_lt` is
/// among the matching lifetimes: the match misses none.
pub proof fn law_matching_complete(entries: Seq<(usize, Vec<usize>)>, use_lt: usize, x: usize)
    requires
        is_matching_key(entries, use_lt, x),
    ensures
        def_lifetimes_matching(entries, use_lt).contains(x),
    decreases entries.len(),
{
    let j = choose|j: int| 0 <= j < entries.len() && entries[j].0 == x && entries[j].1@.contains(use_lt);
    let prev = entries.drop_last();
    let rest = def_lifetimes_matching(prev, use_lt);
    let m = def_lifetimes_matching(entries, use_lt);
    if j == entries.len() - 1 {
        assert(m == rest.push(x));
        assert(m[m.len() - 1] == x);
    } else {
        assert(prev[j] == entries[j]);
        assert(is_matching_key(prev, use_lt, x));
        law_matching_complete(prev, use_lt, x);
        let k = choose|k: int| 0 <= k < rest.len() && rest[k] == x;
        if entries.last().1@.contains(use_lt) {
            assert(m == rest.push(entries.last().0));
            assert(m[k] == x);
        } else {
            assert(m[k] == x);
        }
    }
}

/// The lifetimes of a borrowed struct's definition through which a use
/// lifetime of the surrounding method or struct can be reached, in the
/// order of the map. Each is a definition lifetime whose set holds
/// `use_lt`, and they come out increasing, each once.
pub fn iter_def_lifetimes_matching_use_lt(use_lt: usize, info: &StructBorrowInfo) -> (r: Vec<usize>)
    ensures
        r@ == def_lifetimes_matching(info.map(), use_lt),
        forall|i: int|
            0 <= i < r.len() ==> is_matching_key(
                info.map(),
                use_lt,
                #[trigger] r@[i],
            ),
        increasing(r@),
        forall|x: usize| is_matching_key(info.map(), use_lt, x) ==> #[trigger] r@.contains(x),
{
    let entries = info.entries();
    proof {
        lemma_matching_keys(info.map(), use_lt);
        assert forall|x: usize| is_matching_key(info.map(), use_lt, x) implies #[trigger] def_lifetimes_matching(
            info.map(),
            use_lt,
        ).contains(x) by {
            law_matching_complete(info.map(), use_lt, x);
        }
        let ev = entries_view(entries@);
        assert forall|a: int, b: int| 0 <= a < b < entries@.len() implies #[trigger] entries@[a].0
            < #[trigger] entries@[b].0 by {
            assert(ev[a].0 == entries@[a].0);
            assert(ev[b].0 == entries@[b].0);
        }
    }
    let n = entries.len();
    let mut r: Vec<usize> = Vec::new();
    for i in 0..n
        invariant
            n == entries@.len(),
            r@ == def_lifetimes_matching(entries@.take(i as int), use_lt),
    {
        proof {
            assert(entries@.take(i + 1).drop_last() =~= entries@.take(i as int));
        }
        if vec_contains(&entries[i].1, use_lt) {
            r.push(entries[i].0);
        }
    }
    proof {
        assert(entries@.take(n as int) =~= entries@);
    }
    r
}

/// The type's lifetimes name `lt`.
pub open spec fn uses_lifetime(lts: Seq<MaybeStatic>, lt: usize) -> bool {
    exists|i: int| 0 <= i < lts.len() && lts[i] == MaybeStatic::NonStatic(lt)
}

/// `'static` does not occur among the lifetimes before `lt` first does:
/// looking for `lt`, one meets no `'static`.
pub open spec fn no_static_before(lts: Seq<MaybeStatic>, lt: usize) -> bool {
    forall|i: int|
        0 <= i < lts.len() && lts[i] == MaybeStatic::Static ==> exists|j: int|
            0 <= j < i && lts[j] == MaybeStatic::NonStatic(lt)
}

/// Whether a type whose lifetimes are `lts` uses the lifetime `lt`. The
/// lifetimes are looked at in order up to the first use of `lt`; `'static`
/// among them is not supported here, so it must not occur before that use.
pub fn does_type_use_lifetime_from_set(lts: &Vec<MaybeStatic>, lt: usize) -> (r: bool)
    requires
        no_static_before(lts@, lt),
    ensures
        r == uses_lifetime(lts@, lt),
{
    let n = lts.len();
    for i in 0..n
        invariant
            n == lts@.len(),
            no_static_before(lts@, lt),
            forall|j: int| 0 <= j < i ==> lts@[j] != MaybeStatic::NonStatic(lt),
    {
        match lts[i] {
            MaybeStatic::Static => {
                assert(lts@[i as int] == MaybeStatic::Static);
                assert(false);
            },
            MaybeStatic::NonStatic(l) => {
                if l == lt {
                    return true;
                }
            },
        }
    }
    false
}

} // verus!
