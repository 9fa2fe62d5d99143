//! The ledger: a transactional key-value store holding the registry
//! singleton and every diploma record, addressed by `diploma_id`.
//!
//! The store keeps at most one record per identifier, so holding the records
//! as a sequence with pairwise-distinct identifiers models it exactly. The
//! well-formedness invariant ties the singleton's counter to the number of
//! records still verified.

use vstd::prelude::*;

verus! {

use crate::records::{Diploma, DiplomaRegistry, DiplomaView};

/// Everything the ledger persists for one deployment of the registry:
/// the singleton (absent until `initialize`) and the diploma records.
pub struct Ledger {
    /// The registry singleton, at its fixed, well-known address.
    pub registry: Option<DiplomaRegistry>,
    /// The diploma records, each at the address derived from its
    /// `diploma_id`; identifiers are pairwise distinct.
    pub diplomas: Vec<Diploma>,
}

/// Mathematical image of a [`Ledger`].
#[verifier::ext_equal]
pub ghost struct LedgerView {
    pub registry: Option<DiplomaRegistry>,
    pub diplomas: Seq<DiplomaView>,
}

impl View for Ledger {
    type V = LedgerView;

    open spec fn view(&self) -> LedgerView {
        LedgerView {
            registry: self.registry,
            diplomas: Seq::new(self.diplomas@.len(), |i: int| self.diplomas@[i]@),
        }
    }
}

/// Number of records in `s` whose `verified` flag is still set.
pub open spec fn count_active(s: Seq<DiplomaView>) -> nat
    decreases s.len(),
{
    if s.len() == 0 {
        0
    } else {
        count_active(s.drop_last()) + if s.last().verified {
            1nat
        } else {
            0nat
        }
    }
}

impl LedgerView {
    /// Some record is stored under `id`.
    pub open spec fn contains_id(self, id: Seq<u8>) -> bool {
        exists|i: int| 0 <= i < self.diplomas.len() && self.diplomas[i].diploma_id == id
    }

    /// The position of the record stored under `id`; meaningful only when
    /// `contains_id(id)` holds, and unique once identifiers are pairwise
    /// distinct.
    pub open spec fn index_of(self, id: Seq<u8>) -> int {
        choose|i: int| 0 <= i < self.diplomas.len() && self.diplomas[i].diploma_id == id
    }

    /// The record stored under `id`; meaningful only when `contains_id(id)`
    /// holds.
    pub open spec fn record_of(self, id: Seq<u8>) -> DiplomaView {
        self.diplomas[self.index_of(id)]
    }

    /// At most one record per identifier: the ledger's deterministic
    /// addressing makes a second record under the same identifier
    /// impossible.
    pub open spec fn ids_unique(self) -> bool {
        forall|i: int, j: int|
            0 <= i < j < self.diplomas.len() ==> self.diplomas[i].diploma_id
                != self.diplomas[j].diploma_id
    }

    /// Well-formedness of the whole ledger:
    /// identifiers are pairwise distinct, every stored record passed
    /// validation, every record was registered by the registry's authority,
    /// records exist only once the singleton does, and the singleton's
    /// counter equals the number of records still verified.
    pub open spec fn inv(self) -> bool {
        &&& self.ids_unique()
        &&& forall|i: int| 0 <= i < self.diplomas.len() ==> (#[trigger] self.diplomas[i]).wf()
        &&& match self.registry {
            Some(reg) => {
                &&& reg.count == count_active(self.diplomas)
                &&& forall|i: int|
                    0 <= i < self.diplomas.len() ==> (#[trigger] self.diplomas[i]).authority
                        == reg.authority
            },
            None => self.diplomas.len() == 0,
        }
    }
}

/// Appending a record adds its own contribution to the active count.
pub proof fn lemma_count_active_push(s: Seq<DiplomaView>, d: DiplomaView)
    ensures
        count_active(s.push(d)) == count_active(s) + if d.verified {
            1nat
        } else {
            0nat
        },
{
    assert(s.push(d).drop_last() =~= s);
    assert(s.push(d).last() == d);
}

/// Replacing the record at `i` exchanges its contribution to the active
/// count for that of the replacement.
pub proof fn lemma_count_active_update(s: Seq<DiplomaView>, i: int, d: DiplomaView)
    requires
        0 <= i < s.len(),
    ensures
        count_active(s.update(i, d)) + if s[i].verified {
            1nat
        } else {
            0nat
        } == count_active(s) + if d.verified {
            1nat
        } else {
            0nat
        },
    decreases s.len(),
{
    let t = s.update(i, d);
    assert(t.len() == s.len());
    if i == s.len() - 1 {
        assert(t.drop_last() =~= s.drop_last());
        assert(t.last() == d);
    } else {
        assert(t.drop_last() =~= s.drop_last().update(i, d));
        assert(t.last() == s.last());
        lemma_count_active_update(s.drop_last(), i, d);
    }
}

/// The active count never exceeds the number of records.
pub proof fn lemma_count_active_le_len(s: Seq<DiplomaView>)
    ensures
        count_active(s) <= s.len(),
    decreases s.len(),
{
    if s.len() > 0 {
        lemma_count_active_le_len(s.drop_last());
    }
}

/// A record that is still verified contributes to the active count, so the
/// count is positive.
pub proof fn lemma_count_active_pos(s: Seq<DiplomaView>, i: int)
    requires
        0 <= i < s.len(),
        s[i].verified,
    ensures
        count_active(s) >= 1,
{
    let cleared = DiplomaView { verified: false, ..s[i] };
    lemma_count_active_update(s, i, cleared);
}

/// Any position holding `id` is the one `index_of` picks: with pairwise
/// distinct identifiers there is no other.
pub proof fn lemma_index_of_unique(l: LedgerView, id: Seq<u8>, i: int)
    requires
        l.ids_unique(),
        0 <= i < l.diplomas.len(),
        l.diplomas[i].diploma_id == id,
    ensures
        l.contains_id(id),
        l.index_of(id) == i,
{
    assert(l.contains_id(id));
    let j = l.index_of(id);
    assert(0 <= j < l.diplomas.len() && l.diplomas[j].diploma_id == id);
    if i < j {
        assert(l.diplomas[i].diploma_id != l.diplomas[j].diploma_id);
    } else if j < i {
        assert(l.diplomas[j].diploma_id != l.diplomas[i].diploma_id);
    }
}

/// Byte-for-byte comparison of two identifiers or references.
fn bytes_eq(a: &Vec<u8>, b: &Vec<u8>) -> (r: bool)
    ensures
        r <==> a@ == b@,
{
    if a.len() != b.len() {
        return false;
    }
    let n = a.len();
    let mut k: usize = 0;
    while k < n
        invariant
            n == a@.len(),
            n == b@.len(),
            k <= n,
            forall|j: int| 0 <= j < k ==> a@[j] == b@[j],
        decreases n - k,
    {
        if a[k] != b[k] {
            return false;
        }
        k += 1;
    }
    proof {
        assert(a@ =~= b@);
    }
    true
}

impl Ledger {
    /// A fresh deployment: no singleton yet and no records.
    pub fn new() -> (l: Ledger)
        ensures
            l@.registry is None,
            l@.diplomas == Seq::<DiplomaView>::empty(),
            l@.inv(),
    {
        let l = Ledger { registry: None, diplomas: Vec::new() };
        proof {
            assert(l@.diplomas =~= Seq::<DiplomaView>::empty());
        }
        l
    }

    /// Look up the position of the record stored under `diploma_id`, the
    /// ledger's plain key lookup.
    pub fn find_diploma(&self, diploma_id: &Vec<u8>) -> (r: Option<usize>)
        ensures
            match r {
                Some(i) => 0 <= i < self@.diplomas.len() && self@.diplomas[i as int].diploma_id
                    == diploma_id@,
                None => !self@.contains_id(diploma_id@),
            },
    {
        let n = self.diplomas.len();
        let mut k: usize = 0;
        while k < n
            invariant
                n == self@.diplomas.len(),
                k <= n,
                forall|j: int|
                    0 <= j < k ==> (#[trigger] self@.diplomas[j]).diploma_id != diploma_id@,
            decreases n - k,
        {
            if bytes_eq(&self.diplomas[k].diploma_id, diploma_id) {
                return Some(k);
            }
            k += 1;
        }
        None
    }

    /// Read the record stored under `diploma_id`, as any party may: the read
    /// path is a plain key lookup and needs no authority.
    pub fn diploma_record(&self, diploma_id: &Vec<u8>) -> (r: Option<&Diploma>)
        requires
            self@.inv(),
        ensures
            match r {
                Some(d) => self@.contains_id(diploma_id@) && d@ == self@.record_of(diploma_id@),
                None => !self@.contains_id(diploma_id@),
            },
    {
        match self.find_diploma(diploma_id) {
            Some(i) => {
                proof {
                    lemma_index_of_unique(self@, diploma_id@, i as int);
                }
                Some(&self.diplomas[i])
            },
            None => None,
        }
    }
}

} // verus!
