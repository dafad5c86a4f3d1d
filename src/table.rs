use vstd::prelude::*;
use crate::address::Address;

verus! {

/// One row of an account table: an address and what the ledger keeps for it.
#[derive(Clone, Copy, Debug)]
pub struct Entry<T> {
    pub address: Address,
    pub data: T,
}

/// The map from address to data that a sequence of rows describes.
pub open spec fn table_map<T>(s: Seq<Entry<T>>) -> Map<Seq<u8>, T> {
    Map::new(
        |k: Seq<u8>| exists|i: int| 0 <= i < s.len() && s[i].address@ == k,
        |k: Seq<u8>| s[choose|i: int| 0 <= i < s.len() && s[i].address@ == k].data,
    )
}

/// No address occurs in two rows.
pub open spec fn keys_unique<T>(s: Seq<Entry<T>>) -> bool {
    forall|i: int, j: int|
        0 <= i < s.len() && 0 <= j < s.len() && s[i].address@ == s[j].address@ ==> i == j
}

proof fn lemma_map_at<T>(s: Seq<Entry<T>>, i: int)
    requires
        keys_unique(s),
        0 <= i < s.len(),
    ensures
        table_map(s).contains_key(s[i].address@),
        table_map(s)[s[i].address@] == s[i].data,
{
    let k = s[i].address@;
    assert(exists|j: int| 0 <= j < s.len() && s[j].address@ == k);
    let j = choose|j: int| 0 <= j < s.len() && s[j].address@ == k;
    assert(j == i);
}

proof fn lemma_map_update<T>(s: Seq<Entry<T>>, i: int, e: Entry<T>)
    requires
        keys_unique(s),
        0 <= i < s.len(),
        s[i].address@ == e.address@,
    ensures
        keys_unique(s.update(i, e)),
        table_map(s.update(i, e)) =~= table_map(s).insert(e.address@, e.data),
{
    let t = s.update(i, e);
    assert forall|k: Seq<u8>| table_map(t).contains_key(k) <==> table_map(s).insert(e.address@, e.data).contains_key(k) by {
        if table_map(t).contains_key(k) {
            let j = choose|j: int| 0 <= j < t.len() && t[j].address@ == k;
            if j != i {
                assert(s[j].address@ == k);
            }
        }
        if table_map(s).contains_key(k) {
            let j = choose|j: int| 0 <= j < s.len() && s[j].address@ == k;
            assert(t[j].address@ == k);
        }
        if k == e.address@ {
            assert(t[i].address@ == k);
        }
    }
    assert forall|k: Seq<u8>| #[trigger] table_map(t).contains_key(k) implies table_map(t)[k] == table_map(s).insert(e.address@, e.data)[k] by {
        let j = choose|j: int| 0 <= j < t.len() && t[j].address@ == k;
        lemma_map_at(t, j);
        if j != i {
            lemma_map_at(s, j);
        }
    }
}

proof fn lemma_map_push<T>(s: Seq<Entry<T>>, e: Entry<T>)
    requires
        keys_unique(s),
        !table_map(s).contains_key(e.address@),
    ensures
        keys_unique(s.push(e)),
        table_map(s.push(e)) =~= table_map(s).insert(e.address@, e.data),
{
    let t = s.push(e);
    assert forall|i: int, j: int|
        0 <= i < t.len() && 0 <= j < t.len() && t[i].address@ == t[j].address@ implies i == j by {
        if i < s.len() && j == s.len() {
            assert(s[i].address@ == e.address@);
        }
        if j < s.len() && i == s.len() {
            assert(s[j].address@ == e.address@);
        }
    }
    assert forall|k: Seq<u8>| table_map(t).contains_key(k) <==> table_map(s).insert(e.address@, e.data).contains_key(k) by {
        if table_map(t).contains_key(k) {
            let j = choose|j: int| 0 <= j < t.len() && t[j].address@ == k;
            if j < s.len() {
                assert(s[j].address@ == k);
            }
        }
        if table_map(s).contains_key(k) {
            let j = choose|j: int| 0 <= j < s.len() && s[j].address@ == k;
            assert(t[j].address@ == k);
        }
        if k == e.address@ {
            assert(t[s.len() as int].address@ == k);
        }
    }
    assert forall|k: Seq<u8>| #[trigger] table_map(t).contains_key(k) implies table_map(t)[k] == table_map(s).insert(e.address@, e.data)[k] by {
        let j = choose|j: int| 0 <= j < t.len() && t[j].address@ == k;
        lemma_map_at(t, j);
        if j < s.len() {
            lemma_map_at(s, j);
        }
    }
}

/// Accounts keyed by address, each address at most once.
pub struct AccountTable<T> {
    entries: Vec<Entry<T>>,
}

impl<T> View for AccountTable<T> {
    type V = Map<Seq<u8>, T>;

    closed spec fn view(&self) -> Map<Seq<u8>, T> {
        table_map(self.entries@)
    }
}

impl<T: Copy> AccountTable<T> {
    /// Well-formed: every address occurs once.
    pub closed spec fn wf(&self) -> bool {
        keys_unique(self.entries@)
    }

    /// A table with no accounts.
    pub fn new() -> (r: Self)
        ensures
            r.wf(),
            r@ == Map::<Seq<u8>, T>::empty(),
    {
        let r = AccountTable { entries: Vec::new() };
        assert(r@ =~= Map::<Seq<u8>, T>::empty());
        r
    }

    fn find(&self, a: &Address) -> (r: Option<usize>)
        requires
            self.wf(),
        ensures
            match r {
                Some(i) => i < self.entries@.len() && self.entries@[i as int].address@ == a@,
                None => !self@.contains_key(a@),
            },
    {
        let mut i: usize = 0;
        while i < self.entries.len()
            invariant
                i <= self.entries@.len(),
                forall|j: int| 0 <= j < i ==> self.entries@[j].address@ != a@,
            decreases self.entries@.len() - i,
        {
            if self.entries[i].address.same(a) {
                return Some(i);
            }
            i = i + 1;
        }
        None
    }

    /// The data kept for `a`, if the table holds it.
    pub fn get(&self, a: &Address) -> (r: Option<T>)
        requires
            self.wf(),
        ensures
            match r {
                Some(v) => self@.contains_key(a@) && v == self@[a@],
                None => !self@.contains_key(a@),
            },
    {
        match self.find(a) {
            Some(i) => {
                proof {
                    lemma_map_at(self.entries@, i as int);
                }
                Some(self.entries[i].data)
            },
            None => None,
        }
    }

    /// Keeps `data` for `a`, in place of what was kept for it.
    pub fn set(&mut self, a: &Address, data: T)
        requires
            old(self).wf(),
        ensures
            final(self).wf(),
            final(self)@ == old(self)@.insert(a@, data),
    {
        let e = Entry { address: *a, data };
        match self.find(a) {
            Some(i) => {
                proof {
                    lemma_map_update(self.entries@, i as int, e);
                }
                self.entries.set(i, e);
            },
            None => {
                proof {
                    lemma_map_push(self.entries@, e);
                }
                self.entries.push(e);
            },
        }
    }

    /// An independent copy of the table.
    pub fn duplicate(&self) -> (r: Self)
        requires
            self.wf(),
        ensures
            r.wf(),
            r@ == self@,
    {
        let mut entries: Vec<Entry<T>> = Vec::new();
        let mut i: usize = 0;
        while i < self.entries.len()
            invariant
                i <= self.entries@.len(),
                entries@ == self.entries@.subrange(0, i as int),
            decreases self.entries@.len() - i,
        {
            entries.push(self.entries[i]);
            i = i + 1;
            assert(entries@ =~= self.entries@.subrange(0, i as int));
        }
        assert(entries@ =~= self.entries@);
        AccountTable { entries }
    }
}

} // verus!
