//! The set of names a generated file imports, kept in the order in which the
//! import statements are written out.
use vstd::prelude::*;

use crate::order::{lemma_less_irreflexive, lemma_less_transitive, lemma_less_trichotomy, seq_less, str_equal, str_less};

verus! {

/// Every element comes strictly before every later one.
pub open spec fn strictly_sorted(s: Seq<Seq<char>>) -> bool {
    forall|i: int, j: int| 0 <= i < j < s.len() ==> seq_less(#[trigger] s[i], #[trigger] s[j])
}

/// The character sequences of a list of strings.
pub open spec fn string_views(v: Seq<String>) -> Seq<Seq<char>> {
    v.map_values(|s: String| s@)
}

/// A set of import names. Its view is the names listed in increasing order,
/// each once: the order in which a set of strings is walked.
pub struct ImportSet {
    names: Vec<String>,
}

impl View for ImportSet {
    type V = Seq<Seq<char>>;

    closed spec fn view(&self) -> Seq<Seq<char>> {
        string_views(self.names@)
    }
}

/// A strictly sorted sequence holds no element twice.
pub proof fn lemma_sorted_no_duplicates(s: Seq<Seq<char>>)
    requires
        strictly_sorted(s),
    ensures
        s.no_duplicates(),
{
    assert forall|i: int, j: int| 0 <= i < s.len() && 0 <= j < s.len() && i != j implies s[i]
        != s[j] by {
        if i < j {
            lemma_less_irreflexive(s[i]);
        } else {
            lemma_less_irreflexive(s[j]);
        }
    }
}

/// Two strictly sorted sequences that hold the same elements are equal: the
/// listing of a set of names depends on the set alone.
pub proof fn lemma_sorted_listing_unique(a: Seq<Seq<char>>, b: Seq<Seq<char>>)
    requires
        strictly_sorted(a),
        strictly_sorted(b),
        a.to_set() == b.to_set(),
    ensures
        a == b,
    decreases a.len(),
{
    if a.len() == 0 {
        if b.len() > 0 {
            assert(b.to_set().contains(b[0]));
        }
        assert(a =~= b);
    } else if b.len() == 0 {
        assert(a.to_set().contains(a[0]));
    } else {
        assert(b.to_set().contains(a[0]));
        assert(a.to_set().contains(b[0]));
        let k = choose|k: int| 0 <= k < b.len() && b[k] == a[0];
        let m = choose|m: int| 0 <= m < a.len() && a[m] == b[0];
        if k > 0 {
            assert(seq_less(b[0], b[k]));
            if m > 0 {
                assert(seq_less(a[0], a[m]));
                lemma_less_trichotomy(a[0], b[0]);
            } else {
                lemma_less_irreflexive(b[0]);
            }
        }
        assert(a[0] == b[0]);
        let a1 = a.drop_first();
        let b1 = b.drop_first();
        lemma_sorted_no_duplicates(a);
        lemma_sorted_no_duplicates(b);
        assert forall|x: Seq<char>| a1.to_set().contains(x) <==> b1.to_set().contains(x) by {
            if a1.to_set().contains(x) {
                let i = choose|i: int| 0 <= i < a1.len() && a1[i] == x;
                assert(a[i + 1] == x);
                assert(a.to_set().contains(x));
                assert(b.to_set().contains(x));
                let j = choose|j: int| 0 <= j < b.len() && b[j] == x;
                assert(j != 0);
                assert(b1[j - 1] == x);
            }
            if b1.to_set().contains(x) {
                let i = choose|i: int| 0 <= i < b1.len() && b1[i] == x;
                assert(b[i + 1] == x);
                assert(b.to_set().contains(x));
                assert(a.to_set().contains(x));
                let j = choose|j: int| 0 <= j < a.len() && a[j] == x;
                assert(j != 0);
                assert(a1[j - 1] == x);
            }
        }
        assert(a1.to_set() =~= b1.to_set());
        lemma_sorted_listing_unique(a1, b1);
        assert(a =~= seq![a[0]] + a1);
        assert(b =~= seq![b[0]] + b1);
    }
}

proof fn lemma_insert_keeps_sorted(s: Seq<Seq<char>>, p: int, x: Seq<char>)
    requires
        strictly_sorted(s),
        0 <= p <= s.len(),
        forall|j: int| 0 <= j < p ==> seq_less(#[trigger] s[j], x),
        p < s.len() ==> seq_less(x, s[p]),
    ensures
        strictly_sorted(s.insert(p, x)),
        s.insert(p, x).to_set() == s.to_set().insert(x),
{
    let t = s.insert(p, x);
    assert forall|i: int, j: int| 0 <= i < j < t.len() implies seq_less(#[trigger] t[i], #[trigger] t[j]) by {
        if j < p {
        } else if j == p {
        } else if i < p {
            assert(seq_less(s[i], x));
            assert(seq_less(x, s[p]));
            lemma_less_transitive(s[i], x, s[p]);
            if j - 1 > p {
                lemma_less_transitive(s[i], s[p], s[j - 1]);
            }
        } else if i == p {
            if j - 1 > p {
                lemma_less_transitive(x, s[p], s[j - 1]);
            }
        } else {
        }
    }
    assert forall|y: Seq<char>| t.to_set().contains(y) <==> s.to_set().insert(x).contains(y) by {
        if t.to_set().contains(y) {
            let k = choose|k: int| 0 <= k < t.len() && t[k] == y;
            if k < p {
                assert(s[k] == y);
            } else if k > p {
                assert(s[k - 1] == y);
            }
        }
        if s.to_set().contains(y) {
            let k = choose|k: int| 0 <= k < s.len() && s[k] == y;
            if k < p {
                assert(t[k] == y);
            } else {
                assert(t[k + 1] == y);
            }
        }
        if y == x {
            assert(t[p] == x);
        }
    }
    assert(t.to_set() =~= s.to_set().insert(x));
}

proof fn lemma_remove_keeps_sorted(s: Seq<Seq<char>>, p: int)
    requires
        strictly_sorted(s),
        0 <= p < s.len(),
    ensures
        strictly_sorted(s.remove(p)),
        s.remove(p).to_set() == s.to_set().remove(s[p]),
{
    let t = s.remove(p);
    lemma_sorted_no_duplicates(s);
    assert forall|i: int, j: int| 0 <= i < j < t.len() implies seq_less(#[trigger] t[i], #[trigger] t[j]) by {
        let si = if i < p { i } else { i + 1 };
        let sj = if j < p { j } else { j + 1 };
        assert(t[i] == s[si]);
        assert(t[j] == s[sj]);
    }
    assert forall|y: Seq<char>| t.to_set().contains(y) <==> s.to_set().remove(s[p]).contains(y) by {
        if t.to_set().contains(y) {
            let k = choose|k: int| 0 <= k < t.len() && t[k] == y;
            let sk = if k < p { k } else { k + 1 };
            assert(s[sk] == y);
            assert(sk != p);
        }
        if s.to_set().remove(s[p]).contains(y) {
            let k = choose|k: int| 0 <= k < s.len() && s[k] == y;
            assert(k != p);
            if k < p {
                assert(t[k] == y);
            } else {
                assert(t[k - 1] == y);
            }
        }
    }
    assert(t.to_set() =~= s.to_set().remove(s[p]));
}

impl ImportSet {
    /// The listing is strictly increasing; every `ImportSet` satisfies this.
    pub open spec fn wf(&self) -> bool {
        strictly_sorted(self@)
    }

    /// The names in the set.
    pub open spec fn names(&self) -> Set<Seq<char>> {
        self@.to_set()
    }

    /// An empty set.
    pub fn new() -> (r: Self)
        ensures
            r.wf(),
            r@ == Seq::<Seq<char>>::empty(),
    {
        let r = ImportSet { names: Vec::new() };
        assert(r@ =~= Seq::<Seq<char>>::empty());
        r
    }

    /// The number of names in the set.
    pub fn len(&self) -> (n: usize)
        ensures
            n == self@.len(),
    {
        self.names.len()
    }

    /// Finds where `name` stands or would stand: the first position whose
    /// name does not come before `name`.
    fn position(&self, name: &str) -> (p: usize)
        requires
            self.wf(),
        ensures
            p <= self@.len(),
            forall|j: int| 0 <= j < p ==> seq_less(#[trigger] self@[j], name@),
            p < self@.len() ==> !seq_less(self@[p as int], name@),
    {
        let n = self.names.len();
        let mut p: usize = 0;
        while p < n
            invariant
                p <= n,
                n == self@.len(),
                self@ == string_views(self.names@),
                forall|j: int| 0 <= j < p ==> seq_less(#[trigger] self@[j], name@),
            decreases n - p,
        {
            if !str_less(self.names[p].as_str(), name) {
                return p;
            }
            p = p + 1;
        }
        p
    }

    /// Whether `name` is in the set.
    pub fn contains(&self, name: &str) -> (r: bool)
        requires
            self.wf(),
        ensures
            r == self.names().contains(name@),
    {
        let p = self.position(name);
        if p < self.names.len() && str_equal(self.names[p].as_str(), name) {
            proof {
                assert(self@[p as int] == name@);
            }
            true
        } else {
            proof {
                if self.names().contains(name@) {
                    let k = choose|k: int| 0 <= k < self@.len() && self@[k] == name@;
                    if k < p {
                        lemma_less_irreflexive(name@);
                    } else if k > p {
                        assert(seq_less(self@[p as int], self@[k]));
                        lemma_less_trichotomy(self@[p as int], name@);
                    }
                }
            }
            false
        }
    }

    /// Adds `name` to the set; a name already there is not added twice.
    pub fn add_import(&mut self, name: String)
        requires
            old(self).wf(),
        ensures
            final(self).wf(),
            final(self).names() == old(self).names().insert(name@),
    {
        let p = self.position(name.as_str());
        if p < self.names.len() && str_equal(self.names[p].as_str(), name.as_str()) {
            proof {
                assert(old(self).names().contains(name@));
                assert(old(self).names().insert(name@) =~= old(self).names());
            }
            return;
        }
        proof {
            if p < self@.len() {
                lemma_less_trichotomy(self@[p as int], name@);
            }
            lemma_insert_keeps_sorted(self@, p as int, name@);
        }
        let ghost before = self.names@;
        self.names.insert(p, name);
        proof {
            assert(string_views(self.names@) =~= string_views(before).insert(p as int, self.names@[p as int]@));
        }
    }

    /// Takes `name` out of the set; a name not there leaves it unchanged.
    pub fn remove_import(&mut self, name: String)
        requires
            old(self).wf(),
        ensures
            final(self).wf(),
            final(self).names() == old(self).names().remove(name@),
    {
        let p = self.position(name.as_str());
        if p < self.names.len() && str_equal(self.names[p].as_str(), name.as_str()) {
            proof {
                lemma_remove_keeps_sorted(self@, p as int);
            }
            let ghost before = self.names@;
            self.names.remove(p);
            proof {
                assert(string_views(self.names@) =~= string_views(before).remove(p as int));
            }
        } else {
            proof {
                if self.names().contains(name@) {
                    let k = choose|k: int| 0 <= k < self@.len() && self@[k] == name@;
                    if k < p {
                        lemma_less_irreflexive(name@);
                    } else if k > p {
                        assert(seq_less(self@[p as int], self@[k]));
                        lemma_less_trichotomy(self@[p as int], name@);
                    }
                }
                assert(old(self).names().remove(name@) =~= old(self).names());
            }
        }
    }

    /// The names, each once, in increasing order.
    pub fn imports_in_order(&self) -> (r: Vec<String>)
        ensures
            string_views(r@) == self@,
    {
        let mut r: Vec<String> = Vec::new();
        let n = self.names.len();
        for i in 0..n
            invariant
                n == self.names@.len(),
                r@.len() == i,
                string_views(r@) == string_views(self.names@).take(i as int),
        {
            let ghost before = r@;
            let c = self.names[i].clone();
            assert(c@ == self.names@[i as int]@);
            r.push(c);
            proof {
                assert(r@ == before.push(c));
                assert(string_views(r@).len() == i + 1);
                assert forall|k: int| 0 <= k < i + 1 implies string_views(r@)[k] == string_views(self.names@)[k] by {
                    if k < i {
                        assert(string_views(before)[k] == string_views(self.names@).take(i as int)[k]);
                    }
                }
                assert(string_views(r@) =~= string_views(self.names@).take(i + 1));
            }
        }
        proof {
            assert(string_views(self.names@).take(n as int) =~= string_views(self.names@));
        }
        r
    }
}

/// Two import sets that hold the same names list them the same way: the
/// imports written for a file do not depend on the order in which they
/// were added or removed.
pub proof fn law_listing_determined_by_names(a: ImportSet, b: ImportSet)
    requires
        a.wf(),
        b.wf(),
        a.names() == b.names(),
    ensures
        a@ == b@,
{
    lemma_sorted_listing_unique(a@, b@);
}

/// Removing a name just added, that was not there before, gives back the
/// set as it was.
pub proof fn law_remove_undoes_add(before: ImportSet, added: ImportSet, removed: ImportSet, name: Seq<char>)
    requires
        before.wf(),
        added.wf(),
        removed.wf(),
        !before.names().contains(name),
        added.names() == before.names().insert(name),
        removed.names() == added.names().remove(name),
    ensures
        removed@ == before@,
        added.names().contains(name),
{
    assert(removed.names() =~= before.names());
    lemma_sorted_listing_unique(removed@, before@);
}

} // verus!
