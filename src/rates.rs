//! A rate table: the exchange rate of each currency code against one base
//! currency. Codes are compared exactly, case included. The rate type is left
//! to the caller.

use vstd::prelude::*;

verus! {

/// Each code at most once, with its rate.
pub struct RateTable<R> {
    codes: Vec<String>,
    rates: Vec<R>,
}

pub open spec fn code_at<R>(t: &RateTable<R>, i: int, k: Seq<char>) -> bool {
    0 <= i < t.spec_codes().len() && t.spec_codes()[i]@ == k
}

impl<R> RateTable<R> {
    pub closed spec fn spec_codes(&self) -> Seq<String> {
        self.codes@
    }

    pub closed spec fn spec_rates(&self) -> Seq<R> {
        self.rates@
    }

    /// Codes and rates pair up, and no code is listed twice.
    pub open spec fn wf(&self) -> bool {
        &&& self.spec_codes().len() == self.spec_rates().len()
        &&& forall|i: int, j: int|
            0 <= i < j < self.spec_codes().len() ==> #[trigger] self.spec_codes()[i]@
                != #[trigger] self.spec_codes()[j]@
    }

    /// An empty table.
    pub fn new() -> (r: RateTable<R>)
        ensures
            r.wf(),
            r@ == Map::<Seq<char>, R>::empty(),
    {
        let r = RateTable { codes: Vec::new(), rates: Vec::new() };
        assert(r@ =~= Map::<Seq<char>, R>::empty());
        r
    }

    /// Where `code` stands in the table, if it does.
    fn find(&self, code: &String) -> (r: Option<usize>)
        requires
            self.wf(),
        ensures
            r matches Some(i) ==> code_at(self, i as int, code@),
            r is None ==> forall|i: int| !code_at(self, i, code@),
    {
        let mut i: usize = 0;
        while i < self.codes.len()
            invariant
                i <= self.codes@.len(),
                forall|k: int| 0 <= k < i ==> !code_at(self, k, code@),
            decreases self.codes@.len() - i,
        {
            if self.codes[i] == *code {
                return Some(i);
            }
            i += 1;
        }
        None
    }

    proof fn lemma_index(&self, i: int)
        requires
            self.wf(),
            0 <= i < self.spec_codes().len(),
        ensures
            self@.contains_key(self.spec_codes()[i]@),
            self@[self.spec_codes()[i]@] == self.spec_rates()[i],
    {
        let k = self.spec_codes()[i]@;
        assert(code_at(self, i, k));
        let c = choose|j: int| code_at(self, j, k);
        assert(c == i) by {
            if c < i {
                assert(self.spec_codes()[c]@ != self.spec_codes()[i]@);
            } else if c > i {
                assert(self.spec_codes()[i]@ != self.spec_codes()[c]@);
            }
        }
    }

    /// The rate of `code`, if the table has one.
    pub fn get(&self, code: &String) -> (r: Option<&R>)
        requires
            self.wf(),
        ensures
            r is Some <==> self@.contains_key(code@),
            r matches Some(v) ==> *v == self@[code@],
    {
        match self.find(code) {
            Some(i) => {
                proof {
                    self.lemma_index(i as int);
                }
                Some(&self.rates[i])
            },
            None => None,
        }
    }

    /// Sets the rate of `code`, in place of any rate it had.
    pub fn insert(&mut self, code: String, rate: R)
        requires
            old(self).wf(),
        ensures
            final(self).wf(),
            final(self)@ == old(self)@.insert(code@, rate),
    {
        let ghost before = *self;
        let ghost k = code@;
        match self.find(&code) {
            Some(i) => {
                self.rates.set(i, rate);
                proof {
                    assert forall|c: Seq<char>| #[trigger]
                        self@.contains_key(c) implies before@.insert(k, rate).contains_key(c) by {
                        let j = choose|j: int| code_at(self, j, c);
                        assert(code_at(&before, j, c));
                    }
                    assert forall|c: Seq<char>| #[trigger]
                        before@.insert(k, rate).contains_key(c) implies self@.contains_key(c) && self@[c]
                        == before@.insert(k, rate)[c] by {
                        if c == k {
                            self.lemma_index(i as int);
                        } else {
                            let j = choose|j: int| code_at(&before, j, c);
                            before.lemma_index(j);
                            self.lemma_index(j);
                        }
                    }
                    assert(self@ =~= before@.insert(k, rate));
                }
            },
            None => {
                self.codes.push(code);
                self.rates.push(rate);
                proof {
                    let n = before.spec_codes().len() as int;
                    assert(code_at(self, n, k));
                    assert forall|i: int, j: int|
                        0 <= i < j < self.spec_codes().len() implies #[trigger] self.spec_codes()[i]@
                        != #[trigger] self.spec_codes()[j]@ by {
                        if j == n {
                            assert(!code_at(&before, i, k));
                        } else {
                            assert(before.spec_codes()[i]@ != before.spec_codes()[j]@);
                        }
                    }
                    assert forall|c: Seq<char>| #[trigger]
                        self@.contains_key(c) implies before@.insert(k, rate).contains_key(c) by {
                        let j = choose|j: int| code_at(self, j, c);
                        if j < n {
                            assert(code_at(&before, j, c));
                        }
                    }
                    assert forall|c: Seq<char>| #[trigger]
                        before@.insert(k, rate).contains_key(c) implies self@.contains_key(c) && self@[c]
                        == before@.insert(k, rate)[c] by {
                        if c == k {
                            self.lemma_index(n);
                        } else {
                            let j = choose|j: int| code_at(&before, j, c);
                            before.lemma_index(j);
                            assert(code_at(self, j, c));
                            self.lemma_index(j);
                        }
                    }
                    assert(self@ =~= before@.insert(k, rate));
                }
            },
        }
    }
}

impl<R> View for RateTable<R> {
    type V = Map<Seq<char>, R>;

    /// Each listed code, with the rate beside it.
    closed spec fn view(&self) -> Map<Seq<char>, R> {
        Map::new(
            |k: Seq<char>| exists|i: int| code_at(self, i, k),
            |k: Seq<char>| self.rates@[choose|i: int| code_at(self, i, k)],
        )
    }
}

} // verus!
