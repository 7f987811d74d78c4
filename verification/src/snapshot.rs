use crate::model::PlatformView;
use crate::principal::Principal;
use crate::records::{Bounty, DeveloperProfile};
use crate::table::{distinct_keys, has_row, lemma_map_of_row, lists_of, map_of, Row, Table};
use vstd::prelude::*;

verus! {

/// A ledger written out as plain records, as it is kept between operations.
pub struct Snapshot {
    pub custody: Principal,
    /// One row for each registered developer.
    pub developers: Vec<Row<DeveloperProfile>>,
    /// The bounties in the order of their identifiers.
    pub bounties: Vec<Bounty>,
    /// One row for each company that has a list of bounties.
    pub company_bounties: Vec<Row<Vec<u64>>>,
    /// One row for each developer that has a list of bounties.
    pub developer_bounties: Vec<Row<Vec<u64>>>,
}

impl Snapshot {
    /// The ledger that the records describe.
    pub open spec fn view(self) -> PlatformView {
        PlatformView {
            custody: self.custody,
            developers: map_of(self.developers@),
            bounties: self.bounties@,
            company_bounties: lists_of(map_of(self.company_bounties@)),
            developer_bounties: lists_of(map_of(self.developer_bounties@)),
        }
    }

    /// The records describe a ledger the platform can hold: no principal has
    /// two rows of one kind, and the ledger described is valid.
    pub open spec fn sound(self) -> bool {
        &&& distinct_keys(self.developers@)
        &&& distinct_keys(self.company_bounties@)
        &&& distinct_keys(self.developer_bounties@)
        &&& self@.valid()
    }
}

/// Whether `id` occurs in `list`.
pub(crate) fn contains_id(list: &Vec<u64>, id: u64) -> (r: bool)
    ensures
        r == list@.contains(id),
{
    let mut k: usize = 0;
    while k < list.len()
        invariant
            k <= list@.len(),
            forall|j: int| 0 <= j < k ==> list@[j] != id,
        decreases list@.len() - k,
    {
        if list[k] == id {
            return true;
        }
        k += 1;
    }
    false
}

/// Whether the profiles and bounties of `view` are valid records.
pub(crate) fn check_records(
    developers: &Table<DeveloperProfile>,
    bounties: &Vec<Bounty>,
    Ghost(view): Ghost<PlatformView>,
) -> (ok: bool)
    requires
        developers.well_formed(),
        view.developers == developers@,
        view.bounties == bounties@,
    ensures
        ok == view.records_valid(),
{
    let mut n: usize = 0;
    while n < developers.len()
        invariant
            n <= developers.rows().len(),
            developers.well_formed(),
            view.developers == developers@,
            forall|j: int|
                0 <= j < n ==> (#[trigger] developers.rows()[j]).value.address
                    == developers.rows()[j].key,
        decreases developers.rows().len() - n,
    {
        let row = developers.row(n);
        if !row.value.address.same(&row.key) {
            proof {
                lemma_map_of_row(developers.rows(), row.key, n as int);
            }
            return false;
        }
        n += 1;
    }
    assert forall|p: Principal| view.developers.dom().contains(p) implies (
    #[trigger] view.developers[p]).address == p by {
        let j = choose|j: int| has_row(developers.rows(), p, j);
        assert(has_row(developers.rows(), p, j));
        lemma_map_of_row(developers.rows(), p, j);
    }
    let mut i: usize = 0;
    while i < bounties.len()
        invariant
            i <= bounties@.len(),
            developers.well_formed(),
            view.developers == developers@,
            view.bounties == bounties@,
            forall|j: int|
                0 <= j < i ==> {
                    &&& (#[trigger] bounties@[j]).id == j + 1
                    &&& bounties@[j].consistent()
                    &&& (bounties@[j].assigned_developer matches Some(d)
                        ==> view.developers.dom().contains(d))
                },
        decreases bounties@.len() - i,
    {
        let bounty = &bounties[i];
        if bounty.id != i as u64 + 1 || !bounty.is_consistent() {
            return false;
        }
        match &bounty.assigned_developer {
            Some(developer) => {
                if !developers.contains(developer) {
                    return false;
                }
            },
            None => {},
        }
        i += 1;
    }
    true
}

/// Whether the lists of `company_bounties` index the bounties by company.
pub(crate) fn check_company_index(
    bounties: &Vec<Bounty>,
    company_bounties: &Table<Vec<u64>>,
    Ghost(view): Ghost<PlatformView>,
) -> (ok: bool)
    requires
        company_bounties.well_formed(),
        view.bounties == bounties@,
        view.company_bounties == lists_of(company_bounties@),
    ensures
        ok == view.company_indexed(),
{
    let ghost rows = company_bounties.rows();
    let mut n: usize = 0;
    while n < company_bounties.len()
        invariant
            n <= rows.len(),
            rows == company_bounties.rows(),
            company_bounties.well_formed(),
            view.bounties == bounties@,
            view.company_bounties == lists_of(company_bounties@),
            forall|r: int, k: int|
                0 <= r < n && 0 <= k < rows[r].value@.len() ==> {
                    &&& view.has_bounty(#[trigger] rows[r].value@[k])
                    &&& view.bounties[rows[r].value@[k] - 1].company == rows[r].key
                },
            forall|r: int, k: int, l: int|
                0 <= r < n && 0 <= k < l < rows[r].value@.len() ==> #[trigger] rows[r].value@[k]
                    < #[trigger] rows[r].value@[l],
        decreases rows.len() - n,
    {
        let row = company_bounties.row(n);
        let list = &row.value;
        proof {
            lemma_map_of_row(rows, row.key, n as int);
            assert(view.company_index(row.key) == list@);
        }
        let mut k: usize = 0;
        while k < list.len()
            invariant
                k <= list@.len(),
                view.bounties == bounties@,
                view.company_index(row.key) == list@,
                forall|j: int|
                    0 <= j < k ==> {
                        &&& view.has_bounty(#[trigger] list@[j])
                        &&& view.bounties[list@[j] - 1].company == row.key
                    },
                forall|a: int, b: int| 0 <= a < b < k ==> #[trigger] list@[a] < #[trigger] list@[b],
            decreases list@.len() - k,
        {
            let id = list[k];
            if id == 0 || id > bounties.len() as u64 {
                return false;
            }
            if !bounties[(id - 1) as usize].company.same(&row.key) {
                return false;
            }
            if k > 0 && list[k - 1] >= id {
                return false;
            }
            k += 1;
        }
        n += 1;
    }
    proof {
        assert forall|c: Principal, k: int| 0 <= k < view.company_index(c).len() implies {
            &&& view.has_bounty(#[trigger] view.company_index(c)[k])
            &&& view.bounties[view.company_index(c)[k] - 1].company == c
        } by {
            let r = choose|r: int| has_row(rows, c, r);
            assert(has_row(rows, c, r));
            lemma_map_of_row(rows, c, r);
        }
        assert forall|c: Principal, k: int, l: int|
            0 <= k < l < view.company_index(c).len() implies #[trigger] view.company_index(c)[k]
            < #[trigger] view.company_index(c)[l] by {
            let r = choose|r: int| has_row(rows, c, r);
            assert(has_row(rows, c, r));
            lemma_map_of_row(rows, c, r);
        }
    }
    let mut i: usize = 0;
    while i < bounties.len()
        invariant
            i <= bounties@.len(),
            company_bounties.well_formed(),
            view.bounties == bounties@,
            view.company_bounties == lists_of(company_bounties@),
            forall|j: int|
                0 <= j < i ==> view.company_index((#[trigger] view.bounties[j]).company).contains(
                    (j + 1) as u64,
                ),
        decreases bounties@.len() - i,
    {
        let listed = match company_bounties.get(&bounties[i].company) {
            Some(list) => contains_id(list, i as u64 + 1),
            None => false,
        };
        if !listed {
            assert(!view.company_index(view.bounties[i as int].company).contains((i + 1) as u64));
            return false;
        }
        i += 1;
    }
    true
}

/// Whether the lists of `developer_bounties` index the bounties by assigned developer.
pub(crate) fn check_developer_index(
    bounties: &Vec<Bounty>,
    developer_bounties: &Table<Vec<u64>>,
    Ghost(view): Ghost<PlatformView>,
) -> (ok: bool)
    requires
        developer_bounties.well_formed(),
        view.bounties == bounties@,
        view.developer_bounties == lists_of(developer_bounties@),
    ensures
        ok == view.developer_indexed(),
{
    let ghost rows = developer_bounties.rows();
    let mut n: usize = 0;
    while n < developer_bounties.len()
        invariant
            n <= rows.len(),
            rows == developer_bounties.rows(),
            developer_bounties.well_formed(),
            view.bounties == bounties@,
            view.developer_bounties == lists_of(developer_bounties@),
            forall|r: int, k: int|
                0 <= r < n && 0 <= k < rows[r].value@.len() ==> {
                    &&& view.has_bounty(#[trigger] rows[r].value@[k])
                    &&& view.bounties[rows[r].value@[k] - 1].assigned_developer == Some(
                        rows[r].key,
                    )
                },
            forall|r: int, k: int, l: int|
                0 <= r < n && 0 <= k < l < rows[r].value@.len() ==> #[trigger] rows[r].value@[k]
                    != #[trigger] rows[r].value@[l],
        decreases rows.len() - n,
    {
        let row = developer_bounties.row(n);
        let list = &row.value;
        proof {
            lemma_map_of_row(rows, row.key, n as int);
            assert(view.developer_index(row.key) == list@);
        }
        let mut k: usize = 0;
        while k < list.len()
            invariant
                k <= list@.len(),
                view.bounties == bounties@,
                view.developer_index(row.key) == list@,
                forall|j: int|
                    0 <= j < k ==> {
                        &&& view.has_bounty(#[trigger] list@[j])
                        &&& view.bounties[list@[j] - 1].assigned_developer == Some(row.key)
                    },
                forall|a: int, b: int|
                    0 <= a < b < k ==> #[trigger] list@[a] != #[trigger] list@[b],
            decreases list@.len() - k,
        {
            let id = list[k];
            if id == 0 || id > bounties.len() as u64 {
                return false;
            }
            let assigned = match &bounties[(id - 1) as usize].assigned_developer {
                Some(developer) => developer.same(&row.key),
                None => false,
            };
            if !assigned {
                return false;
            }
            let mut a: usize = 0;
            while a < k
                invariant
                    a <= k < list@.len(),
                    id == list@[k as int],
                    view.developer_index(row.key) == list@,
                    forall|j: int| 0 <= j < a ==> #[trigger] list@[j] != id,
                decreases k - a,
            {
                if list[a] == id {
                    return false;
                }
                a += 1;
            }
            k += 1;
        }
        n += 1;
    }
    proof {
        assert forall|d: Principal, k: int| 0 <= k < view.developer_index(d).len() implies {
            &&& view.has_bounty(#[trigger] view.developer_index(d)[k])
            &&& view.bounties[view.developer_index(d)[k] - 1].assigned_developer == Some(d)
        } by {
            let r = choose|r: int| has_row(rows, d, r);
            assert(has_row(rows, d, r));
            lemma_map_of_row(rows, d, r);
        }
        assert forall|d: Principal, k: int, l: int|
            0 <= k < l < view.developer_index(d).len() implies #[trigger] view.developer_index(
            d,
        )[k] != #[trigger] view.developer_index(d)[l] by {
            let r = choose|r: int| has_row(rows, d, r);
            assert(has_row(rows, d, r));
            lemma_map_of_row(rows, d, r);
        }
    }
    let mut i: usize = 0;
    while i < bounties.len()
        invariant
            i <= bounties@.len(),
            developer_bounties.well_formed(),
            view.bounties == bounties@,
            view.developer_bounties == lists_of(developer_bounties@),
            forall|j: int|
                0 <= j < i ==> ((#[trigger] view.bounties[j]).assigned_developer matches Some(d)
                    ==> view.developer_index(d).contains((j + 1) as u64)),
        decreases bounties@.len() - i,
    {
        match &bounties[i].assigned_developer {
            Some(developer) => {
                let listed = match developer_bounties.get(developer) {
                    Some(list) => contains_id(list, i as u64 + 1),
                    None => false,
                };
                if !listed {
                    assert(!view.developer_index(*developer).contains((i + 1) as u64));
                    return false;
                }
            },
            None => {},
        }
        i += 1;
    }
    true
}

} // verus!
