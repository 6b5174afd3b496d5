//! The balances of an account, one per currency, kept in increasing order of
//! the currency code as a `BTreeMap<String, _>` keeps them.

use vstd::prelude::*;
use crate::money::{Balance, BalanceView};

verus! {

/// Order of texts as `String`'s `Ord` orders them: code point by code point,
/// a proper prefix first.
pub open spec fn text_lt(a: Seq<char>, b: Seq<char>) -> bool
    decreases a.len(),
{
    if a.len() == 0 {
        b.len() > 0
    } else if b.len() == 0 {
        false
    } else if a[0] != b[0] {
        a[0] < b[0]
    } else {
        text_lt(a.drop_first(), b.drop_first())
    }
}

/// No text comes before itself.
pub proof fn lemma_text_lt_irreflexive(a: Seq<char>)
    ensures
        !text_lt(a, a),
    decreases a.len(),
{
    if a.len() > 0 {
        lemma_text_lt_irreflexive(a.drop_first());
    }
}

/// Of two different texts, exactly one comes first.
pub proof fn lemma_text_lt_total(a: Seq<char>, b: Seq<char>)
    ensures
        a != b ==> (text_lt(a, b) || text_lt(b, a)),
        !(text_lt(a, b) && text_lt(b, a)),
    decreases a.len(),
{
    if a.len() > 0 && b.len() > 0 {
        if a[0] == b[0] {
            lemma_text_lt_total(a.drop_first(), b.drop_first());
            if a.drop_first() == b.drop_first() {
                assert(a =~= seq![a[0]] + a.drop_first());
                assert(b =~= seq![b[0]] + b.drop_first());
            }
        }
    } else if a.len() == 0 && b.len() == 0 {
        assert(a =~= b);
    }
}

/// The order of texts is transitive.
pub proof fn lemma_text_lt_transitive(a: Seq<char>, b: Seq<char>, c: Seq<char>)
    requires
        text_lt(a, b),
        text_lt(b, c),
    ensures
        text_lt(a, c),
    decreases a.len(),
{
    if a.len() > 0 && b.len() > 0 && c.len() > 0 {
        if a[0] == b[0] && b[0] == c[0] {
            lemma_text_lt_transitive(a.drop_first(), b.drop_first(), c.drop_first());
        }
    }
}

/// The outcome of comparing two texts.
#[derive(PartialEq, Eq, Structural)]
pub enum TextOrder {
    Before,
    Same,
    After,
}

/// Compares two texts in the order of `text_lt`.
pub fn compare_text(a: &str, b: &str) -> (order: TextOrder)
    ensures
        (order == TextOrder::Before) == text_lt(a@, b@),
        (order == TextOrder::Same) == (a@ == b@),
        (order == TextOrder::After) == text_lt(b@, a@),
{
    let na = a.unicode_len();
    let nb = b.unicode_len();
    let mut i: usize = 0;
    proof {
        assert(a@.skip(0) =~= a@);
        assert(b@.skip(0) =~= b@);
    }
    while i < na && i < nb
        invariant
            na == a@.len(),
            nb == b@.len(),
            i <= na,
            i <= nb,
            a@.subrange(0, i as int) =~= b@.subrange(0, i as int),
            text_lt(a@, b@) == text_lt(a@.skip(i as int), b@.skip(i as int)),
            text_lt(b@, a@) == text_lt(b@.skip(i as int), a@.skip(i as int)),
        decreases na - i,
    {
        let ca = a.get_char(i);
        let cb = b.get_char(i);
        assert(a@.skip(i as int)[0] == ca);
        assert(b@.skip(i as int)[0] == cb);
        if ca < cb {
            proof {
                lemma_text_lt_total(a@, b@);
            }
            return TextOrder::Before;
        }
        if cb < ca {
            proof {
                lemma_text_lt_total(a@, b@);
            }
            return TextOrder::After;
        }
        assert(ca == cb);
        assert(a@.skip(i as int).drop_first() =~= a@.skip(i + 1));
        assert(b@.skip(i as int).drop_first() =~= b@.skip(i + 1));
        assert(a@.subrange(0, i + 1) =~= a@.subrange(0, i as int).push(ca));
        assert(b@.subrange(0, i + 1) =~= b@.subrange(0, i as int).push(cb));
        i = i + 1;
    }
    proof {
        lemma_text_lt_total(a@, b@);
        lemma_text_lt_irreflexive(a@);
    }
    if na == nb {
        assert(a@ =~= a@.subrange(0, i as int));
        assert(b@ =~= b@.subrange(0, i as int));
        TextOrder::Same
    } else if na < nb {
        assert(a@.skip(i as int).len() == 0);
        assert(a@ != b@);
        TextOrder::Before
    } else {
        assert(b@.skip(i as int).len() == 0);
        assert(a@ != b@);
        TextOrder::After
    }
}

/// Whether the keys of `s` increase strictly.
pub open spec fn keys_increase<V>(s: Seq<(Seq<char>, V)>) -> bool {
    forall|i: int, j: int| 0 <= i < j < s.len() ==> text_lt(#[trigger] s[i].0, #[trigger] s[j].0)
}

/// Whether some entry of `s` has key `k`.
pub open spec fn has_key<V>(s: Seq<(Seq<char>, V)>, k: Seq<char>) -> bool {
    exists|i: int| 0 <= i < s.len() && #[trigger] s[i].0 == k
}

/// An index of `s` whose entry has key `k`, where there is one.
pub open spec fn key_index<V>(s: Seq<(Seq<char>, V)>, k: Seq<char>) -> int {
    choose|i: int| 0 <= i < s.len() && #[trigger] s[i].0 == k
}

/// The map from each key of `s` to the value stored with it.
pub open spec fn keyed<V>(s: Seq<(Seq<char>, V)>) -> Map<Seq<char>, V> {
    Map::new(|k: Seq<char>| has_key(s, k), |k: Seq<char>| s[key_index(s, k)].1)
}

/// In a sequence with increasing keys the map gives each entry's value.
pub proof fn lemma_keyed_entry<V>(s: Seq<(Seq<char>, V)>, i: int)
    requires
        keys_increase(s),
        0 <= i < s.len(),
    ensures
        keyed(s).dom().contains(s[i].0),
        keyed(s)[s[i].0] == s[i].1,
{
    let k = s[i].0;
    assert(has_key(s, k));
    let j = key_index(s, k);
    if j < i {
        lemma_text_lt_irreflexive(k);
        assert(text_lt(s[j].0, s[i].0));
    } else if i < j {
        lemma_text_lt_irreflexive(k);
        assert(text_lt(s[i].0, s[j].0));
    }
    assert(j == i);
    assert(keyed(s).dom().contains(k));
    assert(keyed(s)[k] == s[j].1);
}

/// The balances of an account by currency.
pub struct BalanceBook {
    entries: Vec<(String, Balance)>,
}

impl BalanceBook {
    /// The entries in the order the book keeps them.
    pub closed spec fn ordered(&self) -> Seq<(Seq<char>, BalanceView)> {
        self.entries@.map_values(|e: (String, Balance)| (e.0@, e.1@))
    }

    /// The book keeps its entries in strictly increasing order of currency.
    pub open spec fn well_formed(&self) -> bool {
        keys_increase(self.ordered())
    }

    /// An empty book.
    pub fn new() -> (book: BalanceBook)
        ensures
            book.well_formed(),
            book.ordered().len() == 0,
            book@ == Map::<Seq<char>, BalanceView>::empty(),
    {
        let book = BalanceBook { entries: Vec::new() };
        assert(book.ordered() =~= Seq::empty());
        assert(book@ =~= Map::<Seq<char>, BalanceView>::empty());
        book
    }

    /// The number of currencies in the book.
    pub fn len(&self) -> (n: usize)
        ensures
            n == self.ordered().len(),
    {
        self.entries.len()
    }

    /// Whether the book holds no currency.
    pub fn is_empty(&self) -> (empty: bool)
        ensures
            empty == (self.ordered().len() == 0),
    {
        self.entries.len() == 0
    }

    /// The `i`-th entry in increasing order of currency.
    pub fn entry(&self, i: usize) -> (e: (&String, &Balance))
        requires
            i < self.ordered().len(),
        ensures
            e.0@ == self.ordered()[i as int].0,
            e.1@ == self.ordered()[i as int].1,
    {
        let e = &self.entries[i];
        (&e.0, &e.1)
    }

    /// Removes every entry.
    pub fn clear(&mut self)
        ensures
            final(self).well_formed(),
            final(self).ordered().len() == 0,
            final(self)@ == Map::<Seq<char>, BalanceView>::empty(),
    {
        self.entries.clear();
        assert(self.ordered() =~= Seq::empty());
        assert(self@ =~= Map::<Seq<char>, BalanceView>::empty());
    }

    /// The entry with the first currency, the one that the tray shows; `None`
    /// for an empty book.
    pub fn first(&self) -> (first: Option<(&String, &Balance)>)
        requires
            self.well_formed(),
        ensures
            first is None <==> self.ordered().len() == 0,
            first matches Some(e) ==> {
                &&& self.ordered().len() > 0
                &&& e.0@ == self.ordered()[0].0
                &&& e.1@ == self.ordered()[0].1
                &&& self@.dom().contains(e.0@)
                &&& self@[e.0@] == e.1@
                &&& forall|k: Seq<char>| #[trigger] self@.dom().contains(k) && k != e.0@ ==> text_lt(e.0@, k)
            },
    {
        if self.entries.len() == 0 {
            None
        } else {
            let e = &self.entries[0];
            proof {
                let s = self.ordered();
                lemma_keyed_entry(s, 0);
                assert(self@.dom().contains(s[0].0));
                assert forall|k: Seq<char>| #[trigger] self@.dom().contains(k) && k != s[0].0 implies text_lt(s[0].0, k) by {
                    let j = choose|j: int| 0 <= j < s.len() && #[trigger] s[j].0 == k;
                    assert(j != 0);
                    assert(text_lt(s[0].0, s[j].0));
                }
            }
            Some((&e.0, &e.1))
        }
    }

    /// Sets the balance of `currency`, replacing the one it had (as
    /// `BTreeMap::insert` does).
    pub fn insert(&mut self, currency: String, balance: Balance)
        requires
            old(self).well_formed(),
        ensures
            final(self).well_formed(),
            final(self)@ == old(self)@.insert(currency@, balance@),
    {
        let ghost before = self.ordered();
        let ghost key = currency@;
        let n = self.entries.len();
        let mut p: usize = 0;
        while p < n && compare_text(self.entries[p].0.as_str(), currency.as_str()) == TextOrder::Before
            invariant
                n == self.entries@.len(),
                before == self.ordered(),
                keys_increase(before),
                key == currency@,
                p <= n,
                forall|j: int| 0 <= j < p ==> text_lt(#[trigger] before[j].0, key),
            decreases n - p,
        {
            p = p + 1;
        }
        let same = p < n && compare_text(self.entries[p].0.as_str(), currency.as_str()) == TextOrder::Same;
        let ghost value = balance@;
        if same {
            self.entries.set(p, (currency, balance));
            proof {
                let after = self.ordered();
                assert(after =~= before.update(p as int, (key, value)));
                assert(before[p as int].0 == key);
                assert forall|i: int| 0 <= i < after.len() implies #[trigger] after[i].0 == before[i].0 by {}
                assert(keys_increase(after));
                lemma_keyed_entry(after, p as int);
                assert forall|k: Seq<char>| #[trigger] self@.dom().contains(k) == old(self)@.insert(key, value).dom().contains(k) by {
                    if has_key(before, k) {
                        let j = choose|j: int| 0 <= j < before.len() && #[trigger] before[j].0 == k;
                        assert(after[j].0 == k);
                    }
                    if has_key(after, k) {
                        let j = choose|j: int| 0 <= j < after.len() && #[trigger] after[j].0 == k;
                        if j != p {
                            assert(before[j].0 == k);
                        }
                    }
                }
                assert forall|k: Seq<char>| #[trigger] self@.dom().contains(k) implies self@[k] == old(self)@.insert(key, value)[k] by {
                    let j = choose|j: int| 0 <= j < after.len() && #[trigger] after[j].0 == k;
                    lemma_keyed_entry(after, j);
                    if j != p {
                        lemma_keyed_entry(before, j);
                    }
                }
                assert(self@ =~= old(self)@.insert(key, value));
            }
        } else {
            self.entries.insert(p, (currency, balance));
            proof {
                let after = self.ordered();
                assert(after =~= before.insert(p as int, (key, value)));
                if p < n {
                    lemma_text_lt_total(before[p as int].0, key);
                }
                assert forall|i: int, j: int| 0 <= i < j < after.len() implies text_lt(#[trigger] after[i].0, #[trigger] after[j].0) by {
                    if j == p {
                    } else if i == p {
                        if j > p + 1 {
                            lemma_text_lt_transitive(key, before[p as int].0, before[j - 1].0);
                        }
                    } else if i < p && j > p {
                        assert(text_lt(before[i].0, key));
                        if j > p + 1 {
                            lemma_text_lt_transitive(key, before[p as int].0, before[j - 1].0);
                        }
                        lemma_text_lt_transitive(before[i].0, key, before[j - 1].0);
                    } else if j < p {
                    } else {
                        assert(after[i].0 == before[i - 1].0);
                        assert(after[j].0 == before[j - 1].0);
                    }
                }
                assert(keys_increase(after));
                lemma_keyed_entry(after, p as int);
                assert forall|k: Seq<char>| #[trigger] self@.dom().contains(k) == old(self)@.insert(key, value).dom().contains(k) by {
                    if has_key(before, k) {
                        let j = choose|j: int| 0 <= j < before.len() && #[trigger] before[j].0 == k;
                        if j < p {
                            assert(after[j].0 == k);
                        } else {
                            assert(after[j + 1].0 == k);
                        }
                    }
                    if has_key(after, k) {
                        let j = choose|j: int| 0 <= j < after.len() && #[trigger] after[j].0 == k;
                        if j < p {
                            assert(before[j].0 == k);
                        } else if j > p {
                            assert(before[j - 1].0 == k);
                        }
                    }
                }
                assert forall|k: Seq<char>| #[trigger] self@.dom().contains(k) implies self@[k] == old(self)@.insert(key, value)[k] by {
                    let j = choose|j: int| 0 <= j < after.len() && #[trigger] after[j].0 == k;
                    lemma_keyed_entry(after, j);
                    if j < p {
                        lemma_keyed_entry(before, j);
                        lemma_text_lt_irreflexive(key);
                        assert(k != key);
                    } else if j > p {
                        lemma_keyed_entry(before, j - 1);
                        assert(k != key) by {
                            lemma_text_lt_irreflexive(key);
                        }
                    }
                }
                assert(self@ =~= old(self)@.insert(key, value));
            }
        }
    }
}

/// A well-formed book lists each of its currencies once, with its balance,
/// and lists no other currency: walking `ordered()` visits exactly the map.
pub proof fn lemma_entries_are_the_map(book: &BalanceBook)
    requires
        book.well_formed(),
    ensures
        forall|i: int|
            0 <= i < book.ordered().len() ==> #[trigger] book@.dom().contains(book.ordered()[i].0)
                && book@[book.ordered()[i].0] == book.ordered()[i].1,
        forall|k: Seq<char>|
            #[trigger] book@.dom().contains(k) ==> exists|i: int|
                0 <= i < book.ordered().len() && book.ordered()[i].0 == k,
        forall|i: int, j: int|
            0 <= i < j < book.ordered().len() ==> book.ordered()[i].0 != book.ordered()[j].0,
{
    let s = book.ordered();
    assert forall|i: int| 0 <= i < s.len() implies #[trigger] book@.dom().contains(s[i].0) && book@[s[i].0] == s[i].1 by {
        lemma_keyed_entry(s, i);
    }
    assert forall|i: int, j: int| 0 <= i < j < s.len() implies s[i].0 != s[j].0 by {
        lemma_text_lt_irreflexive(s[i].0);
        assert(text_lt(s[i].0, s[j].0));
    }
}

impl View for BalanceBook {
    type V = Map<Seq<char>, BalanceView>;

    closed spec fn view(&self) -> Map<Seq<char>, BalanceView> {
        keyed(self.ordered())
    }
}

} // verus!
