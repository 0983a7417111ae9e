//! Tracking of a pool of items, generating the items that were added and
//! removed on each update

use vstd::prelude::*;

verus! {

/// Lexicographic strict order of byte sequences, compared from index `i`
pub open spec fn lt_from(a: Seq<u8>, b: Seq<u8>, i: int) -> bool
    decreases a.len() - i,
{
    if i < 0 {
        false
    } else if i >= a.len() {
        i < b.len()
    } else if i >= b.len() {
        false
    } else if a[i] < b[i] {
        true
    } else if a[i] > b[i] {
        false
    } else {
        lt_from(a, b, i + 1)
    }
}

/// Lexicographic strict order of byte sequences
pub open spec fn byte_lt(a: Seq<u8>, b: Seq<u8>) -> bool {
    lt_from(a, b, 0)
}

/// The order of strings: that of their UTF-8 encodings
pub open spec fn str_lt(a: Seq<char>, b: Seq<char>) -> bool {
    byte_lt(vstd::utf8::encode_utf8(a), vstd::utf8::encode_utf8(b))
}

/// Strictly ascending in string order (so free of duplicates)
pub open spec fn sorted_strict(s: Seq<Seq<char>>) -> bool {
    forall|i: int, j: int| 0 <= i < j < s.len() ==> str_lt(#[trigger] s[i], #[trigger] s[j])
}

/// The views of a vector of strings
pub open spec fn views(v: Seq<String>) -> Seq<Seq<char>> {
    v.map_values(|s: String| s@)
}

/// The byte order is irreflexive
pub proof fn lemma_lt_irreflexive(a: Seq<u8>, i: int)
    requires
        0 <= i,
    ensures
        !lt_from(a, a, i),
    decreases a.len() - i,
{
    if i < a.len() {
        lemma_lt_irreflexive(a, i + 1);
    }
}

/// The byte order is transitive
pub proof fn lemma_lt_transitive(a: Seq<u8>, b: Seq<u8>, c: Seq<u8>, i: int)
    requires
        0 <= i,
        lt_from(a, b, i),
        lt_from(b, c, i),
    ensures
        lt_from(a, c, i),
    decreases a.len() - i,
{
    if i < a.len() && i < b.len() && i < c.len() && a[i] == b[i] && b[i] == c[i] {
        lemma_lt_transitive(a, b, c, i + 1);
    }
}

/// The byte order is total
pub proof fn lemma_lt_total(a: Seq<u8>, b: Seq<u8>, i: int)
    requires
        0 <= i,
        a.len() >= i,
        b.len() >= i,
        a.subrange(0, i) == b.subrange(0, i),
    ensures
        lt_from(a, b, i) || lt_from(b, a, i) || a == b,
    decreases a.len() - i,
{
    if i < a.len() && i < b.len() && a[i] == b[i] {
        assert(a.subrange(0, i + 1) =~= a.subrange(0, i).push(a[i]));
        assert(b.subrange(0, i + 1) =~= b.subrange(0, i).push(b[i]));
        lemma_lt_total(a, b, i + 1);
    } else if i >= a.len() && i >= b.len() {
        assert(a =~= a.subrange(0, i));
        assert(b =~= b.subrange(0, i));
    }
}

/// The byte order is asymmetric
pub proof fn lemma_lt_asymmetric(a: Seq<u8>, b: Seq<u8>, i: int)
    requires
        0 <= i,
        lt_from(a, b, i),
    ensures
        !lt_from(b, a, i),
    decreases a.len() - i,
{
    if i < a.len() && i < b.len() && a[i] == b[i] {
        lemma_lt_asymmetric(a, b, i + 1);
    }
}

/// Strings with equal encodings are equal
pub proof fn lemma_encoding_injective(a: Seq<char>, b: Seq<char>)
    requires
        vstd::utf8::encode_utf8(a) == vstd::utf8::encode_utf8(b),
    ensures
        a == b,
{
    vstd::utf8::encode_utf8_decode_utf8(a);
    vstd::utf8::encode_utf8_decode_utf8(b);
}

/// The string order is total, irreflexive and asymmetric
pub proof fn lemma_str_order(a: Seq<char>, b: Seq<char>)
    ensures
        !str_lt(a, a),
        str_lt(a, b) ==> !str_lt(b, a),
        a != b ==> str_lt(a, b) || str_lt(b, a),
{
    let ea = vstd::utf8::encode_utf8(a);
    let eb = vstd::utf8::encode_utf8(b);
    lemma_lt_irreflexive(ea, 0);
    if lt_from(ea, eb, 0) {
        lemma_lt_asymmetric(ea, eb, 0);
    }
    assert(ea.subrange(0, 0) =~= eb.subrange(0, 0));
    lemma_lt_total(ea, eb, 0);
    if ea == eb {
        lemma_encoding_injective(a, b);
    }
}

/// Pushing onto a sequence inserts into its set of elements
pub proof fn lemma_push_to_set<A>(s: Seq<A>, x: A)
    ensures
        s.push(x).to_set() == s.to_set().insert(x),
{
    assert forall|y: A| s.push(x).contains(y) implies s.contains(y) || y == x by {
        let k = choose|k: int| 0 <= k < s.push(x).len() && s.push(x)[k] == y;
        if k < s.len() {
            assert(s[k] == y);
        }
    }
    assert forall|y: A| s.contains(y) implies s.push(x).contains(y) by {
        let k = choose|k: int| 0 <= k < s.len() && s[k] == y;
        assert(s.push(x)[k] == y);
    }
    assert(s.push(x)[s.len() as int] == x);
    assert(s.push(x).to_set() =~= s.to_set().insert(x));
}

/// Compares two byte slices: negative, zero or positive as `a` is before,
/// equal to or after `b`
fn compare_bytes(a: &[u8], b: &[u8]) -> (r: i8)
    ensures
        r < 0 <==> byte_lt(a@, b@),
        r == 0 <==> a@ == b@,
        r > 0 <==> byte_lt(b@, a@),
{
    let mut i: usize = 0;
    proof {
        lemma_lt_irreflexive(a@, 0);
        assert(a@.subrange(0, 0) =~= b@.subrange(0, 0));
        lemma_lt_total(a@, b@, 0);
        if lt_from(a@, b@, 0) {
            lemma_lt_asymmetric(a@, b@, 0);
        }
    }
    while i < a.len() && i < b.len()
        invariant
            i <= a@.len(),
            i <= b@.len(),
            a@.subrange(0, i as int) == b@.subrange(0, i as int),
            lt_from(a@, b@, 0) == lt_from(a@, b@, i as int),
            lt_from(b@, a@, 0) == lt_from(b@, a@, i as int),
            !(lt_from(a@, b@, 0) && lt_from(b@, a@, 0)),
            lt_from(a@, b@, 0) || lt_from(b@, a@, 0) || a@ == b@,
        decreases a@.len() - i,
    {
        if a[i] < b[i] {
            return -1;
        }
        if a[i] > b[i] {
            return 1;
        }
        assert(a@.subrange(0, i + 1) =~= a@.subrange(0, i as int).push(a@[i as int]));
        assert(b@.subrange(0, i + 1) =~= b@.subrange(0, i as int).push(b@[i as int]));
        i += 1;
    }
    if a.len() < b.len() {
        -1
    } else if b.len() < a.len() {
        1
    } else {
        assert(a@ =~= a@.subrange(0, i as int));
        assert(b@ =~= b@.subrange(0, i as int));
        proof {
            lemma_lt_irreflexive(a@, 0);
        }
        0
    }
}

/// Compares two strings in string order
fn compare_strings(a: &String, b: &String) -> (r: i8)
    ensures
        r < 0 <==> str_lt(a@, b@),
        r == 0 <==> a@ == b@,
        r > 0 <==> str_lt(b@, a@),
{
    let r = compare_bytes(a.as_str().as_bytes(), b.as_str().as_bytes());
    proof {
        if r == 0 {
            lemma_encoding_injective(a@, b@);
        }
    }
    r
}

/// Whether a vector of strings holds a string equal to `x`
fn contains(v: &Vec<String>, x: &String) -> (r: bool)
    ensures
        r == views(v@).contains(x@),
{
    let mut i: usize = 0;
    while i < v.len()
        invariant
            i <= v@.len(),
            forall|j: int| 0 <= j < i ==> v@[j]@ != x@,
        decreases v@.len() - i,
    {
        if v[i] == *x {
            assert(views(v@)[i as int] == x@);
            return true;
        }
        i += 1;
    }
    assert(!views(v@).contains(x@)) by {
        if views(v@).contains(x@) {
            let k = choose|k: int| 0 <= k < views(v@).len() && views(v@)[k] == x@;
            assert(v@[k]@ == x@);
        }
    }
    false
}

/// Inserts `x` into a strictly sorted vector unless an equal string is there
fn insert_sorted(v: &mut Vec<String>, x: String)
    requires
        sorted_strict(views(old(v)@)),
    ensures
        sorted_strict(views(final(v)@)),
        views(final(v)@).to_set() == views(old(v)@).to_set().insert(x@),
{
    let ghost old_views = views(v@);
    let mut p: usize = 0;
    while p < v.len() && compare_strings(&v[p], &x) < 0
        invariant
            p <= v@.len(),
            v@ == old(v)@,
            forall|j: int| 0 <= j < p ==> str_lt(#[trigger] views(v@)[j], x@),
        decreases v@.len() - p,
    {
        p += 1;
    }
    if p < v.len() && compare_strings(&v[p], &x) == 0 {
        assert(views(v@).to_set() =~= views(old(v)@).to_set().insert(x@)) by {
            assert(views(v@)[p as int] == x@);
        }
        return;
    }
    proof {
        if p < v@.len() {
            lemma_str_order(views(v@)[p as int], x@);
        }
    }
    v.insert(p, x);
    proof {
        let nv = views(v@);
        assert(nv.len() == old_views.len() + 1);
        assert forall|j: int| 0 <= j < p implies nv[j] == old_views[j] by {}
        assert(nv[p as int] == x@);
        assert forall|j: int| p < j < nv.len() implies nv[j] == old_views[j - 1] by {}
        assert forall|i: int, j: int| 0 <= i < j < nv.len() implies str_lt(
            #[trigger] nv[i],
            #[trigger] nv[j],
        ) by {
            if j > p {
                if j - 1 > p {
                    assert(str_lt(old_views[p as int], old_views[j - 1]));
                    lemma_lt_transitive(
                        vstd::utf8::encode_utf8(x@),
                        vstd::utf8::encode_utf8(old_views[p as int]),
                        vstd::utf8::encode_utf8(nv[j]),
                        0,
                    );
                }
                assert(str_lt(x@, nv[j]));
                if i < p {
                    lemma_lt_transitive(
                        vstd::utf8::encode_utf8(nv[i]),
                        vstd::utf8::encode_utf8(x@),
                        vstd::utf8::encode_utf8(nv[j]),
                        0,
                    );
                } else if i > p {
                    assert(str_lt(old_views[i - 1], old_views[j - 1]));
                }
            }
        }
        assert(nv.to_set() =~= old_views.to_set().insert(x@)) by {
            assert forall|y: Seq<char>| nv.contains(y) implies old_views.contains(y) || y == x@ by {
                let k = choose|k: int| 0 <= k < nv.len() && nv[k] == y;
                if k < p {
                    assert(old_views[k] == y);
                } else if k > p {
                    assert(old_views[k - 1] == y);
                }
            }
            assert forall|y: Seq<char>| old_views.contains(y) implies nv.contains(y) by {
                let k = choose|k: int| 0 <= k < old_views.len() && old_views[k] == y;
                if k < p {
                    assert(nv[k] == y);
                } else {
                    assert(nv[k + 1] == y);
                }
            }
            assert(nv.contains(x@)) by {
                assert(nv[p as int] == x@);
            }
        }
    }
}

/// The elements of `a` that are not in `b`, in the order of `a`
fn difference(a: &Vec<String>, b: &Vec<String>) -> (r: Vec<String>)
    requires
        sorted_strict(views(a@)),
    ensures
        sorted_strict(views(r@)),
        views(r@).to_set() == views(a@).to_set().difference(views(b@).to_set()),
{
    let mut r: Vec<String> = Vec::new();
    let ghost bset = views(b@).to_set();
    let ghost mut last: int = -1;
    let mut i: usize = 0;
    assert(views(r@).to_set() =~= views(a@.subrange(0, 0)).to_set().difference(bset));
    while i < a.len()
        invariant
            i <= a@.len(),
            bset == views(b@).to_set(),
            sorted_strict(views(a@)),
            sorted_strict(views(r@)),
            -1 <= last < i,
            r@.len() > 0 ==> last >= 0 && views(r@).last() == views(a@)[last],
            views(r@).to_set() == views(a@.subrange(0, i as int)).to_set().difference(bset),
        decreases a@.len() - i,
    {
        let ghost before = views(r@);
        let ghost ai = views(a@)[i as int];
        let present = contains(b, &a[i]);
        if !present {
            r.push(a[i].clone());
            proof {
                let nr = views(r@);
                assert(nr =~= before.push(ai));
                assert forall|p: int, q: int| 0 <= p < q < nr.len() implies str_lt(
                    #[trigger] nr[p],
                    #[trigger] nr[q],
                ) by {
                    if q == nr.len() - 1 {
                        assert(str_lt(views(a@)[last], ai));
                        if p < before.len() - 1 {
                            lemma_lt_transitive(
                                vstd::utf8::encode_utf8(nr[p]),
                                vstd::utf8::encode_utf8(before.last()),
                                vstd::utf8::encode_utf8(nr[q]),
                                0,
                            );
                        }
                    } else {
                        assert(nr[p] == before[p] && nr[q] == before[q]);
                    }
                }
                last = i as int;
                lemma_push_to_set(before, ai);
            }
        }
        proof {
            assert(views(a@.subrange(0, i + 1)) =~= views(a@.subrange(0, i as int)).push(ai));
            lemma_push_to_set(views(a@.subrange(0, i as int)), ai);
            assert(views(r@).to_set() =~= views(a@.subrange(0, i + 1)).to_set().difference(bset));
        }
        i += 1;
    }
    assert(a@.subrange(0, a@.len() as int) =~= a@);
    r
}

/// What updating a pool that holds `previous` with the items `next` gives:
/// the new pool (exactly the given items), the added items (given, and not
/// in the previous pool) and the removed items (in the previous pool, and
/// not given)
pub open spec fn update_outcome(previous: Set<Seq<char>>, next: Set<Seq<char>>) -> (
    Set<Seq<char>>,
    Set<Seq<char>>,
    Set<Seq<char>>,
) {
    (next, next.difference(previous), previous.difference(next))
}

/// Utility structure for tracking a pool of items and generating events when
/// new items are added or old items are removed.
pub struct ItemPool {
    items: Vec<String>,
}

impl View for ItemPool {
    type V = Set<Seq<char>>;

    closed spec fn view(&self) -> Set<Seq<char>> {
        views(self.items@).to_set()
    }
}

impl ItemPool {
    /// Internal consistency: the items are kept strictly sorted
    pub closed spec fn wf(&self) -> bool {
        sorted_strict(views(self.items@))
    }

    /// An empty pool
    pub fn new() -> (r: Self)
        ensures
            r.wf(),
            r@ == Set::<Seq<char>>::empty(),
    {
        let r = ItemPool { items: Vec::new() };
        assert(r@ =~= Set::<Seq<char>>::empty());
        r
    }

    /// Updates the internal pool, returning two vectors of items `(added,
    /// removed)` that represent all new items that were added (items that
    /// appear in the given list and not in the previous internal pool)
    /// and all old items that were removed (items that appear in the
    /// previous internal pool but not in the given list). Both are in
    /// ascending string order, without duplicates.
    pub fn update(&mut self, new_target_ids: Vec<String>) -> (r: (Vec<String>, Vec<String>))
        requires
            old(self).wf(),
        ensures
            final(self).wf(),
            ({
                let (pool, added, removed) = update_outcome(
                    old(self)@,
                    views(new_target_ids@).to_set(),
                );
                &&& final(self)@ == pool
                &&& views(r.0@).to_set() == added
                &&& views(r.1@).to_set() == removed
            }),
            sorted_strict(views(r.0@)),
            sorted_strict(views(r.1@)),
    {
        let mut working: Vec<String> = Vec::new();
        let mut i: usize = 0;
        let n = new_target_ids.len();
        assert(views(working@).to_set() =~= views(new_target_ids@.subrange(0, 0)).to_set());
        while i < n
            invariant
                i <= n == new_target_ids@.len(),
                sorted_strict(views(working@)),
                views(working@).to_set() == views(new_target_ids@.subrange(0, i as int)).to_set(),
            decreases n - i,
        {
            insert_sorted(&mut working, new_target_ids[i].clone());
            proof {
                assert(views(new_target_ids@.subrange(0, i + 1)) =~= views(
                    new_target_ids@.subrange(0, i as int),
                ).push(new_target_ids@[i as int]@));
                lemma_push_to_set(
                    views(new_target_ids@.subrange(0, i as int)),
                    new_target_ids@[i as int]@,
                );
            }
            i += 1;
        }
        assert(new_target_ids@.subrange(0, n as int) =~= new_target_ids@);
        let added = difference(&working, &self.items);
        let removed = difference(&self.items, &working);
        self.items = working;
        (added, removed)
    }
}

/// Applying the changes an update reports to the previous pool gives the new
/// pool: the previous items, with the added ones and without the removed
/// ones; no item is both added and removed
pub proof fn law_update_changes_apply(previous: Set<Seq<char>>, next: Set<Seq<char>>)
    ensures
        ({
            let (pool, added, removed) = update_outcome(previous, next);
            &&& previous.union(added).difference(removed) == pool
            &&& added.intersect(removed) == Set::<Seq<char>>::empty()
        }),
{
    let (pool, added, removed) = update_outcome(previous, next);
    assert(previous.union(added).difference(removed) =~= pool);
    assert(added.intersect(removed) =~= Set::<Seq<char>>::empty());
}

/// Updating a pool a second time with the same items reports no change and
/// leaves the pool as it is
pub proof fn law_update_again_changes_nothing(previous: Set<Seq<char>>, next: Set<Seq<char>>)
    ensures
        ({
            let (pool, _, _) = update_outcome(previous, next);
            let (again, added, removed) = update_outcome(pool, next);
            &&& added == Set::<Seq<char>>::empty()
            &&& removed == Set::<Seq<char>>::empty()
            &&& again == pool
        }),
{
    let (pool, _, _) = update_outcome(previous, next);
    assert(next.difference(pool) =~= Set::<Seq<char>>::empty());
    assert(pool.difference(next) =~= Set::<Seq<char>>::empty());
}

} // verus!
