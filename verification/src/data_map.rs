//! An ordered map from text to text.

use vstd::prelude::*;

verus! {

broadcast use vstd::string::group_string_axioms;

/// Whether `a` comes before `b` in the order of their characters, the first difference deciding.
pub open spec fn precedes(a: Seq<char>, b: Seq<char>) -> bool
    decreases a.len(),
{
    if b.len() == 0 {
        false
    } else if a.len() == 0 {
        true
    } else if a[0] != b[0] {
        a[0] < b[0]
    } else {
        precedes(a.drop_first(), b.drop_first())
    }
}

/// No text comes before itself, and of two different texts exactly one comes first.
pub proof fn lemma_precedes_total(a: Seq<char>, b: Seq<char>)
    ensures
        a == b ==> !precedes(a, b),
        a != b ==> (precedes(a, b) <==> !precedes(b, a)),
    decreases a.len(),
{
    if a.len() == 0 && b.len() == 0 {
        assert(a == b);
    } else if a.len() > 0 && b.len() > 0 && a[0] == b[0] {
        lemma_precedes_total(a.drop_first(), b.drop_first());
        if a.drop_first() == b.drop_first() {
            assert(a == seq![a[0]] + a.drop_first());
            assert(b == seq![b[0]] + b.drop_first());
        }
    }
}

/// The order is transitive.
pub proof fn lemma_precedes_transitive(a: Seq<char>, b: Seq<char>, c: Seq<char>)
    requires
        precedes(a, b),
        precedes(b, c),
    ensures
        precedes(a, c),
    decreases a.len(),
{
    if a.len() > 0 && a[0] == b[0] && b[0] == c[0] {
        lemma_precedes_transitive(a.drop_first(), b.drop_first(), c.drop_first());
    }
}

/// The first difference decides: of two texts that begin alike, the one whose next character is
/// the smaller comes first, whatever follows, and a text comes before every longer text that
/// begins with it.
pub proof fn law_first_difference_decides(
    common: Seq<char>,
    x: char,
    y: char,
    a: Seq<char>,
    b: Seq<char>,
)
    ensures
        x < y ==> precedes(common + seq![x] + a, common + seq![y] + b),
        precedes(common, common + seq![y] + b),
    decreases common.len(),
{
    let left = common + seq![x] + a;
    let right = common + seq![y] + b;
    if common.len() > 0 {
        let rest = common.drop_first();
        law_first_difference_decides(rest, x, y, a, b);
        assert(left.drop_first() == rest + seq![x] + a);
        assert(right.drop_first() == rest + seq![y] + b);
    }
}

/// The characters of `s`.
fn chars_of(s: &str) -> (r: Vec<char>)
    ensures
        r@ == s@,
{
    let mut out: Vec<char> = Vec::new();
    for x in it: s.chars()
        invariant
            it.seq() == s@,
            out@ == s@.take(it.index()),
    {
        out.push(x);
    }
    assert(s@.take(s@.len() as int) == s@);
    out
}

/// Whether `a` comes before `b` in the order of their characters.
pub fn text_precedes(a: &str, b: &str) -> (r: bool)
    ensures
        r == precedes(a@, b@),
{
    let left: Vec<char> = chars_of(a);
    let right: Vec<char> = chars_of(b);
    let mut i: usize = 0;
    assert(a@.skip(0) == a@ && b@.skip(0) == b@);
    while i < left.len() && i < right.len()
        invariant
            left@ == a@,
            right@ == b@,
            i <= left.len(),
            i <= right.len(),
            precedes(a@, b@) == precedes(a@.skip(i as int), b@.skip(i as int)),
        decreases left.len() - i,
    {
        if left[i] != right[i] {
            return left[i] < right[i];
        }
        assert(a@.skip(i as int).drop_first() == a@.skip(i + 1));
        assert(b@.skip(i as int).drop_first() == b@.skip(i + 1));
        i = i + 1;
    }
    i < right.len()
}

/// The characters of each key and value.
pub open spec fn pairs(entries: Seq<(String, String)>) -> Seq<(Seq<char>, Seq<char>)> {
    entries.map_values(|e: (String, String)| (e.0@, e.1@))
}

/// Whether the keys stand in order, none of them twice.
pub open spec fn increasing(p: Seq<(Seq<char>, Seq<char>)>) -> bool {
    forall|i: int, j: int| 0 <= i < j < p.len() ==> precedes(#[trigger] p[i].0, #[trigger] p[j].0)
}

/// The map that a list of keys and values stands for, where no key occurs twice.
pub open spec fn pairs_map(p: Seq<(Seq<char>, Seq<char>)>) -> Map<Seq<char>, Seq<char>> {
    Map::new(
        |k: Seq<char>| exists|i: int| 0 <= i < p.len() && #[trigger] p[i].0 == k,
        |k: Seq<char>| p[choose|i: int| 0 <= i < p.len() && #[trigger] p[i].0 == k].1,
    )
}

/// In an ordered list each key is found at its one position.
proof fn lemma_pairs_map(p: Seq<(Seq<char>, Seq<char>)>, i: int)
    requires
        increasing(p),
        0 <= i < p.len(),
    ensures
        pairs_map(p).contains_key(p[i].0),
        pairs_map(p)[p[i].0] == p[i].1,
{
    let k = p[i].0;
    let j = choose|j: int| 0 <= j < p.len() && #[trigger] p[j].0 == k;
    assert(p[i].0 == k);
    assert(0 <= j < p.len() && p[j].0 == k);
    lemma_precedes_total(k, k);
    assert(i == j);
}

/// There are as many pairs as entries, and each has the characters of its key and its value.
pub proof fn law_pairs(entries: Seq<(String, String)>)
    ensures
        pairs(entries).len() == entries.len(),
        forall|i: int|
            0 <= i < entries.len() ==> #[trigger] pairs(entries)[i].0 == entries[i].0@ && pairs(
                entries,
            )[i].1 == entries[i].1@,
{
}

/// In a list that stands in order no key occurs twice. The map of the list holds what the list
/// holds, and nothing else.
pub proof fn law_pairs_map(p: Seq<(Seq<char>, Seq<char>)>)
    requires
        increasing(p),
    ensures
        forall|i: int, j: int|
            0 <= i < j < p.len() ==> #[trigger] p[i].0 != #[trigger] p[j].0 && precedes(
                p[i].0,
                p[j].0,
            ),
        forall|i: int|
            0 <= i < p.len() ==> pairs_map(p).contains_key(#[trigger] p[i].0) && pairs_map(
                p,
            )[p[i].0] == p[i].1,
        forall|k: Seq<char>| #[trigger]
            pairs_map(p).contains_key(k) ==> exists|i: int|
                0 <= i < p.len() && #[trigger] p[i].0 == k,
{
    assert forall|i: int, j: int| 0 <= i < j < p.len() implies #[trigger] p[i].0 != #[trigger] p[j].0
        && precedes(p[i].0, p[j].0) by {
        lemma_precedes_total(p[i].0, p[j].0);
    }
    assert forall|i: int| 0 <= i < p.len() implies pairs_map(p).contains_key(#[trigger] p[i].0)
        && pairs_map(p)[p[i].0] == p[i].1 by {
        lemma_pairs_map(p, i);
    }
}

/// Two ordered lists that differ in the entry of `k` alone stand for maps that differ there alone.
proof fn lemma_insert(
    before: Seq<(Seq<char>, Seq<char>)>,
    after: Seq<(Seq<char>, Seq<char>)>,
    at: int,
    k: Seq<char>,
    v: Seq<char>,
)
    requires
        increasing(before),
        increasing(after),
        0 <= at < after.len(),
        after[at] == (k, v),
        forall|j: int|
            0 <= j < before.len() && #[trigger] before[j].0 != k ==> after.contains(before[j]),
        forall|m: int|
            0 <= m < after.len() && m != at ==> before.contains(#[trigger] after[m]),
    ensures
        pairs_map(after) == pairs_map(before).insert(k, v),
{
    let left = pairs_map(after);
    let right = pairs_map(before).insert(k, v);
    lemma_pairs_map(after, at);
    assert forall|x: Seq<char>| left.contains_key(x) <==> right.contains_key(x) by {
        if x != k {
            if left.contains_key(x) {
                let m = choose|m: int| 0 <= m < after.len() && #[trigger] after[m].0 == x;
                assert(before.contains(after[m]));
                let j = choose|j: int| 0 <= j < before.len() && before[j] == after[m];
                assert(before[j].0 == x);
            }
            if right.contains_key(x) {
                let j = choose|j: int| 0 <= j < before.len() && #[trigger] before[j].0 == x;
                let m = choose|m: int| 0 <= m < after.len() && after[m] == before[j];
                assert(after[m].0 == x);
            }
        }
    }
    assert forall|x: Seq<char>| left.contains_key(x) implies left[x] == right[x] by {
        if x != k {
            let m = choose|m: int| 0 <= m < after.len() && #[trigger] after[m].0 == x;
            lemma_pairs_map(after, m);
            assert(before.contains(after[m]));
            let j = choose|j: int| 0 <= j < before.len() && before[j] == after[m];
            lemma_pairs_map(before, j);
        }
    }
    assert(left =~= right);
}

/// Puts `value` under `key`, in place of what was there before.
fn insert_in_order(entries: &mut Vec<(String, String)>, key: String, value: String)
    requires
        increasing(pairs(old(entries)@)),
    ensures
        increasing(pairs(final(entries)@)),
        pairs_map(pairs(final(entries)@)) == pairs_map(pairs(old(entries)@)).insert(key@, value@),
{
    let ghost before = pairs(entries@);
    let ghost k = key@;
    let ghost v = value@;
    let n: usize = entries.len();
    let mut i: usize = 0;
    while i < n && text_precedes(entries[i].0.as_str(), key.as_str())
        invariant
            n == entries.len(),
            i <= n,
            before == pairs(entries@),
            increasing(before),
            k == key@,
            forall|j: int| 0 <= j < i ==> precedes(#[trigger] before[j].0, k),
        decreases n - i,
    {
        i = i + 1;
    }
    proof {
        if i < n {
            lemma_precedes_total(before[i as int].0, k);
        }
        assert forall|j: int| i < j < n implies precedes(k, #[trigger] before[j].0) by {
            assert(precedes(before[i as int].0, before[j].0));
            if before[i as int].0 != k {
                lemma_precedes_transitive(k, before[i as int].0, before[j].0);
            }
        }
    }
    if i < n && entries[i].0 == key {
        entries.set(i, (key, value));
        proof {
            let after = pairs(entries@);
            assert(after == before.update(i as int, (k, v)));
            assert(increasing(after));
            assert forall|j: int| 0 <= j < before.len() && #[trigger] before[j].0
                != k implies after.contains(before[j]) by {
                assert(after[j] == before[j]);
            }
            assert forall|m: int| 0 <= m < after.len() && m != i implies before.contains(
                #[trigger] after[m],
            ) by {
                assert(before[m] == after[m]);
            }
            lemma_insert(before, after, i as int, k, v);
        }
    } else {
        entries.insert(i, (key, value));
        proof {
            let after = pairs(entries@);
            assert(after == before.insert(i as int, (k, v)));
            assert forall|a: int, b: int| 0 <= a < b < after.len() implies precedes(
                #[trigger] after[a].0,
                #[trigger] after[b].0,
            ) by {
                let x = if a < i { a } else { a - 1 };
                let y = if b < i { b } else { b - 1 };
                if a != i {
                    assert(after[a] == before[x]);
                }
                if b != i {
                    assert(after[b] == before[y]);
                }
            }
            assert forall|j: int| 0 <= j < before.len() && #[trigger] before[j].0
                != k implies after.contains(before[j]) by {
                let m = if j < i { j } else { j + 1 };
                assert(after[m] == before[j]);
            }
            assert forall|m: int| 0 <= m < after.len() && m != i implies before.contains(
                #[trigger] after[m],
            ) by {
                let j = if m < i { m } else { m - 1 };
                assert(before[j] == after[m]);
            }
            lemma_insert(before, after, i as int, k, v);
        }
    }
}

/// A map from text to text whose entries stand in the order of their keys.
pub struct DataMap {
    entries: Vec<(String, String)>,
}

impl View for DataMap {
    type V = Map<Seq<char>, Seq<char>>;

    closed spec fn view(&self) -> Map<Seq<char>, Seq<char>> {
        pairs_map(pairs(self.entries@))
    }
}

impl DataMap {
    #[verifier::type_invariant]
    spec fn well_formed(&self) -> bool {
        increasing(pairs(self.entries@))
    }

    /// A map without entries.
    pub fn new() -> (r: DataMap)
        ensures
            r@ == Map::<Seq<char>, Seq<char>>::empty(),
    {
        let r = DataMap { entries: Vec::new() };
        assert(r@ =~= Map::<Seq<char>, Seq<char>>::empty());
        r
    }

    /// Puts `value` under `key`, in place of what was there before.
    pub fn insert(&mut self, key: String, value: String)
        ensures
            final(self)@ == old(self)@.insert(key@, value@),
    {
        proof {
            use_type_invariant(&*self);
        }
        let mut entries: Vec<(String, String)> = Vec::new();
        std::mem::swap(&mut entries, &mut self.entries);
        insert_in_order(&mut entries, key, value);
        self.entries = entries;
    }

    /// The value under `key`.
    pub fn get(&self, key: &str) -> (r: Option<&String>)
        ensures
            match r {
                Some(value) => self@.contains_key(key@) && self@[key@] == value@,
                None => !self@.contains_key(key@),
            },
    {
        proof {
            use_type_invariant(self);
        }
        let ghost p = pairs(self.entries@);
        let wanted: String = key.to_owned();
        let n: usize = self.entries.len();
        let mut i: usize = 0;
        while i < n
            invariant
                n == self.entries.len(),
                i <= n,
                p == pairs(self.entries@),
                increasing(p),
                wanted@ == key@,
                forall|j: int| 0 <= j < i ==> #[trigger] p[j].0 != key@,
            decreases n - i,
        {
            if self.entries[i].0 == wanted {
                proof {
                    lemma_pairs_map(p, i as int);
                }
                return Some(&self.entries[i].1);
            }
            i = i + 1;
        }
        None
    }

    /// The entries, in the order of their keys.
    pub fn entries(&self) -> (r: &Vec<(String, String)>)
        ensures
            increasing(pairs(r@)),
            pairs_map(pairs(r@)) == self@,
    {
        proof {
            use_type_invariant(self);
        }
        &self.entries
    }
}

} // verus!
