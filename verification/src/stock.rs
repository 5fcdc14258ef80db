use vstd::prelude::*;

verus! {

/// How many units of `product` a ledger holds; a product with no entry holds none.
pub open spec fn quantity_of(ledger: Map<Seq<char>, usize>, product: Seq<char>) -> nat {
    if ledger.contains_key(product) {
        ledger[product] as nat
    } else {
        0
    }
}

/// `quantity` units of `product` can be taken out of the ledger: the product
/// has an entry and that entry is at least `quantity`.
pub open spec fn can_take(ledger: Map<Seq<char>, usize>, product: Seq<char>, quantity: usize) -> bool {
    ledger.contains_key(product) && ledger[product] >= quantity
}

/// The ledger after taking `quantity` units of `product` out of it (when
/// `can_take` holds): an entry that reaches exactly zero is removed.
pub open spec fn taken(ledger: Map<Seq<char>, usize>, product: Seq<char>, quantity: usize) -> Map<
    Seq<char>,
    usize,
> {
    if ledger[product] == quantity {
        ledger.remove(product)
    } else {
        ledger.insert(product, (ledger[product] - quantity) as usize)
    }
}

/// `quantity` more units of `product` fit in a `usize` entry.
pub open spec fn can_add(ledger: Map<Seq<char>, usize>, product: Seq<char>, quantity: usize) -> bool {
    ledger.contains_key(product) ==> ledger[product] + quantity <= usize::MAX
}

/// The ledger after adding `quantity` units of `product`: an existing entry
/// grows, a missing one is created with exactly `quantity`.
pub open spec fn added(ledger: Map<Seq<char>, usize>, product: Seq<char>, quantity: usize) -> Map<
    Seq<char>,
    usize,
> {
    if ledger.contains_key(product) {
        ledger.insert(product, (ledger[product] + quantity) as usize)
    } else {
        ledger.insert(product, quantity)
    }
}

/// A ledger of product names and unit counts, one entry per name.
pub struct StockTable {
    names: Vec<String>,
    counts: Vec<usize>,
    model: Ghost<Map<Seq<char>, usize>>,
}

impl View for StockTable {
    type V = Map<Seq<char>, usize>;

    closed spec fn view(&self) -> Map<Seq<char>, usize> {
        self.model@
    }
}

impl StockTable {
    /// The entries agree with the model: names are distinct, every name maps to
    /// its count, and the model holds nothing else.
    pub closed spec fn wf(&self) -> bool {
        &&& self.names.len() == self.counts.len()
        &&& forall|i: int, j: int|
            0 <= i < j < self.names.len() ==> self.names@[i]@ != self.names@[j]@
        &&& forall|i: int|
            0 <= i < self.names.len() ==> {
                &&& #[trigger] self.model@.contains_key(self.names@[i]@)
                &&& self.model@[self.names@[i]@] == self.counts@[i]
            }
        &&& forall|k: Seq<char>|
            #[trigger] self.model@.contains_key(k) ==> exists|i: int|
                0 <= i < self.names.len() && self.names@[i]@ == k
    }

    /// The number of entries.
    pub closed spec fn entry_count(&self) -> nat {
        self.names.len() as nat
    }

    /// The name of the entry at `i`.
    pub closed spec fn name_at(&self, i: int) -> Seq<char> {
        self.names@[i]@
    }

    /// An empty ledger.
    pub fn new() -> (table: Self)
        ensures
            table.wf(),
            table@ == Map::<Seq<char>, usize>::empty(),
    {
        StockTable { names: Vec::new(), counts: Vec::new(), model: Ghost(Map::empty()) }
    }

    /// Where the entry for `product` stands, if there is one.
    fn position(&self, product: &String) -> (pos: Option<usize>)
        requires
            self.wf(),
        ensures
            match pos {
                Some(i) => i < self.names.len() && self.names@[i as int]@ == product@,
                None => !self@.contains_key(product@),
            },
    {
        let mut i: usize = 0;
        while i < self.names.len()
            invariant
                self.wf(),
                i <= self.names.len(),
                forall|j: int| 0 <= j < i ==> self.names@[j]@ != product@,
            decreases self.names.len() - i,
        {
            if self.names[i] == *product {
                return Some(i);
            }
            i = i + 1;
        }
        None
    }

    /// The count recorded for `product`, if it has an entry.
    pub fn get(&self, product: &String) -> (count: Option<usize>)
        requires
            self.wf(),
        ensures
            count == (if self@.contains_key(product@) {
                Some(self@[product@])
            } else {
                None
            }),
    {
        match self.position(product) {
            Some(i) => Some(self.counts[i]),
            None => None,
        }
    }

    /// Replaces the count of the entry at `i`.
    fn set_at(&mut self, i: usize, count: usize)
        requires
            old(self).wf(),
            i < old(self).names.len(),
        ensures
            final(self).wf(),
            final(self).names == old(self).names,
            final(self)@ == old(self)@.insert(old(self).names@[i as int]@, count),
    {
        let ghost name = self.names@[i as int]@;
        self.counts[i] = count;
        self.model = Ghost(self.model@.insert(name, count));
        assert forall|j: int| 0 <= j < self.names.len() implies {
            &&& #[trigger] self.model@.contains_key(self.names@[j]@)
            &&& self.model@[self.names@[j]@] == self.counts@[j]
        } by {
            if j != i {
                if j < i {
                    assert(self.names@[j]@ != self.names@[i as int]@);
                } else {
                    assert(self.names@[i as int]@ != self.names@[j]@);
                }
                assert(old(self).model@.contains_key(self.names@[j]@));
            }
        }
        assert forall|k: Seq<char>| #[trigger] self.model@.contains_key(k) implies exists|j: int|
            0 <= j < self.names.len() && self.names@[j]@ == k by {
            if k != name {
                assert(old(self).model@.contains_key(k));
                let j = choose|j: int| 0 <= j < old(self).names.len() && old(self).names@[j]@ == k;
                assert(self.names@[j]@ == k);
            } else {
                assert(self.names@[i as int]@ == k);
            }
        }
    }

    /// Records `count` for `product`, replacing any earlier entry.
    pub fn insert(&mut self, product: String, count: usize)
        requires
            old(self).wf(),
        ensures
            final(self).wf(),
            final(self)@ == old(self)@.insert(product@, count),
    {
        match self.position(&product) {
            Some(i) => {
                self.set_at(i, count);
            },
            None => {
                let ghost name = product@;
                self.names.push(product);
                self.counts.push(count);
                self.model = Ghost(self.model@.insert(name, count));
                assert forall|k: Seq<char>| #[trigger] self.model@.contains_key(k) implies exists|
                    j: int,
                | 0 <= j < self.names.len() && self.names@[j]@ == k by {
                    if k != name {
                        assert(old(self).model@.contains_key(k));
                        let j = choose|j: int|
                            0 <= j < old(self).names.len() && old(self).names@[j]@ == k;
                        assert(self.names@[j] == old(self).names@[j]);
                    } else {
                        assert(self.names@[self.names.len() - 1]@ == k);
                    }
                }
            },
        }
    }

    /// Drops the entry at `i`.
    fn remove_at(&mut self, i: usize)
        requires
            old(self).wf(),
            i < old(self).names.len(),
        ensures
            final(self).wf(),
            final(self)@ == old(self)@.remove(old(self).names@[i as int]@),
    {
        let ghost name = self.names@[i as int]@;
        let ghost old_names = self.names@;
        self.names.remove(i);
        self.counts.remove(i);
        self.model = Ghost(self.model@.remove(name));
        assert forall|j: int| 0 <= j < self.names.len() implies {
            &&& #[trigger] self.model@.contains_key(self.names@[j]@)
            &&& self.model@[self.names@[j]@] == self.counts@[j]
        } by {
            if j < i {
                assert(self.names@[j] == old_names[j]);
                assert(old_names[j]@ != old_names[i as int]@);
            } else {
                assert(self.names@[j] == old_names[j + 1]);
                assert(old_names[i as int]@ != old_names[j + 1]@);
            }
        }
        assert forall|k: Seq<char>| #[trigger] self.model@.contains_key(k) implies exists|
            j: int,
        | 0 <= j < self.names.len() && self.names@[j]@ == k by {
            assert(old(self).model@.contains_key(k));
            let j = choose|j: int| 0 <= j < old_names.len() && old_names[j]@ == k;
            if j < i {
                assert(self.names@[j] == old_names[j]);
            } else {
                assert(j != i);
                assert(self.names@[j - 1] == old_names[j]);
            }
        }
    }

    /// Takes `quantity` units of `product` out: an entry larger than `quantity`
    /// shrinks, one equal to it is removed. Returns `false`, and changes
    /// nothing, when the product has no entry or too few units.
    pub fn take(&mut self, product: &String, quantity: usize) -> (done: bool)
        requires
            old(self).wf(),
        ensures
            final(self).wf(),
            done == can_take(old(self)@, product@, quantity),
            done ==> final(self)@ == taken(old(self)@, product@, quantity),
            !done ==> final(self)@ == old(self)@,
    {
        match self.position(product) {
            Some(i) => {
                let current = self.counts[i];
                assert(self.model@.contains_key(self.names@[i as int]@));
                if current > quantity {
                    self.set_at(i, current - quantity);
                    true
                } else if current == quantity {
                    self.remove_at(i);
                    true
                } else {
                    false
                }
            },
            None => false,
        }
    }

    /// Adds `quantity` units of `product`: an existing entry grows, a missing
    /// one is created.
    pub fn add(&mut self, product: &String, quantity: usize)
        requires
            old(self).wf(),
            can_add(old(self)@, product@, quantity),
        ensures
            final(self).wf(),
            final(self)@ == added(old(self)@, product@, quantity),
    {
        match self.get(product) {
            Some(current) => {
                self.insert(product.clone(), current + quantity);
            },
            None => {
                self.insert(product.clone(), quantity);
            },
        }
    }

    /// The number of entries.
    pub fn len(&self) -> (n: usize)
        ensures
            n == self.entry_count(),
    {
        self.names.len()
    }

    /// The entry at `i`: its name and count.
    pub fn entry(&self, i: usize) -> (e: (&String, usize))
        requires
            self.wf(),
            i < self.entry_count(),
        ensures
            e.0@ == self.name_at(i as int),
            self@.contains_key(e.0@),
            e.1 == self@[e.0@],
    {
        (&self.names[i], self.counts[i])
    }
}

} // verus!
