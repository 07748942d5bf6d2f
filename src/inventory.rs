use vstd::prelude::*;
use vstd::string::StringExecFns;
use crate::text::{extract_name_tag, name_tag_of};
use crate::link::{inspect_link, inspect_link_of};

verus! {

/// One entry of an inventory listing.
#[allow(non_camel_case_types)]
pub struct rgInventory {
    pub instanceid: String,
    pub classid: String,
    /// The asset id.
    pub id: String,
}

/// An action of an item description: a name and a link template.
pub struct Action {
    pub name: String,
    pub link: String,
}

/// The description of an item of an inventory listing.
#[allow(non_camel_case_types)]
pub struct rgDescription {
    pub appid: String,
    pub classid: String,
    pub instanceid: String,
    /// Free-text warnings; the first one carries the name tag, if any.
    pub fraudwarnings: Option<Vec<String>>,
    pub actions: Option<Vec<Action>>,
}

/// An inventory listing: its entries and their descriptions, each in the
/// order in which the listing gave them.
pub struct SteamApi {
    pub success: bool,
    pub inventory: Vec<rgInventory>,
    pub descriptions: Vec<rgDescription>,
}

impl rgDescription {
    /// A placeholder description that matches no entry and has no action.
    pub fn blank() -> (r: rgDescription)
        ensures
            r.appid@ == "NaN"@,
            r.classid@ == "NaN"@,
            r.instanceid@ == "NaN"@,
            r.fraudwarnings is None,
            r.actions is None,
    {
        rgDescription {
            appid: String::from_str("NaN"),
            classid: String::from_str("NaN"),
            instanceid: String::from_str("NaN"),
            fraudwarnings: None,
            actions: None,
        }
    }
}

impl rgInventory {
    /// A placeholder entry in place of `self`.
    pub fn blank(self) -> (r: rgInventory)
        ensures
            r.instanceid@ == "NaN"@,
            r.classid@ == "NaN"@,
            r.id@ == "NaN"@,
    {
        rgInventory {
            instanceid: String::from_str("NaN"),
            classid: String::from_str("NaN"),
            id: String::from_str("NaN"),
        }
    }
}

/// The description `d` belongs to the entry `e`: their (instanceid, classid)
/// pairs agree.
pub open spec fn same_pair(e: rgInventory, d: rgDescription) -> bool {
    d.instanceid@ == e.instanceid@ && d.classid@ == e.classid@
}

/// The first description at or after index `k` that belongs to `e`.
pub open spec fn match_from(descs: Seq<rgDescription>, e: rgInventory, k: int) -> Option<int>
    decreases descs.len() - k,
{
    if k < 0 || k >= descs.len() {
        None
    } else if same_pair(e, descs[k]) {
        Some(k)
    } else {
        match_from(descs, e, k + 1)
    }
}

proof fn lemma_match_from(descs: Seq<rgDescription>, e: rgInventory, k: int)
    requires
        0 <= k,
    ensures
        match_from(descs, e, k) matches Some(d) ==> k <= d < descs.len() && same_pair(
            e,
            descs[d],
        ),
    decreases descs.len() - k,
{
    if k < descs.len() && !same_pair(e, descs[k]) {
        lemma_match_from(descs, e, k + 1);
    }
}

/// The index of the first description that belongs to `e`.
pub fn find_description(descs: &Vec<rgDescription>, e: &rgInventory) -> (r: Option<usize>)
    ensures
        match_from(descs@, *e, 0) == match r {
            Some(d) => Some(d as int),
            None => None::<int>,
        },
{
    let mut k: usize = 0;
    while k < descs.len()
        invariant
            k <= descs@.len(),
            match_from(descs@, *e, k as int) == match_from(descs@, *e, 0),
        decreases descs@.len() - k,
    {
        let d = &descs[k];
        if d.instanceid == e.instanceid && d.classid == e.classid {
            return Some(k);
        }
        k = k + 1;
    }
    None
}

/// A fetch to make: the inspect link of one inventory entry, with the name
/// tag of its description.
pub struct FetchJob {
    /// Index of the entry in the listing.
    pub entry: usize,
    /// Index of its description in the listing.
    pub description: usize,
    pub link: String,
    pub name_tag: Option<String>,
}

/// What a fetch job stands for.
pub ghost struct JobView {
    pub entry: int,
    pub description: int,
    pub link: Seq<char>,
    pub name_tag: Option<Seq<char>>,
}

/// The text that an optional string holds.
pub open spec fn opt_text(s: Option<String>) -> Option<Seq<char>> {
    match s {
        Some(t) => Some(t@),
        None => None,
    }
}

impl View for FetchJob {
    type V = JobView;

    open spec fn view(&self) -> JobView {
        JobView {
            entry: self.entry as int,
            description: self.description as int,
            link: self.link@,
            name_tag: opt_text(self.name_tag),
        }
    }
}

impl FetchJob {
    /// A copy of the job.
    pub fn duplicate(&self) -> (r: FetchJob)
        ensures
            r@ == self@,
    {
        let name_tag = match &self.name_tag {
            Some(t) => Some(t.clone()),
            None => None,
        };
        FetchJob {
            entry: self.entry,
            description: self.description,
            link: self.link.clone(),
            name_tag,
        }
    }
}

/// The views of a sequence of jobs.
pub open spec fn jobs_view(s: Seq<FetchJob>) -> Seq<JobView> {
    s.map_values(|j: FetchJob| j@)
}

/// The description has an action whose link template can be filled.
pub open spec fn has_action(d: rgDescription) -> bool {
    d.actions matches Some(a) && a@.len() > 0
}

/// The name tag that a description carries in its first warning.
pub open spec fn description_tag(d: rgDescription) -> Option<Seq<char>> {
    match d.fraudwarnings {
        Some(w) => if w@.len() > 0 {
            name_tag_of(w@[0]@)
        } else {
            None
        },
        None => None,
    }
}

/// The fetch job of entry `k` with its description `d`, for the owner `owner`.
pub open spec fn job_of(inv: SteamApi, owner: Seq<char>, k: int, d: int) -> JobView {
    let desc = inv.descriptions@[d];
    JobView {
        entry: k,
        description: d,
        link: inspect_link_of(desc.actions->Some_0@[0].link@, owner, inv.inventory@[k].id@),
        name_tag: description_tag(desc),
    }
}

/// The jobs of the entries from index `k` on, `count` jobs having been made
/// before: an entry without a description with an action is skipped and not
/// counted, and work stops once more than `limit` jobs were made.
pub open spec fn plan_from(inv: SteamApi, owner: Seq<char>, limit: int, k: int, count: int) -> Seq<
    JobView,
>
    decreases inv.inventory@.len() - k,
{
    if k < 0 || k >= inv.inventory@.len() || count > limit {
        Seq::empty()
    } else {
        match match_from(inv.descriptions@, inv.inventory@[k], 0) {
            Some(d) => if has_action(inv.descriptions@[d]) {
                seq![job_of(inv, owner, k, d)] + plan_from(inv, owner, limit, k + 1, count + 1)
            } else {
                plan_from(inv, owner, limit, k + 1, count)
            },
            None => plan_from(inv, owner, limit, k + 1, count),
        }
    }
}

/// `limit`, lowered to `n` where it exceeds it.
pub open spec fn clamp(limit: int, n: int) -> int {
    if limit > n {
        n
    } else {
        limit
    }
}

/// The fetch jobs of an inventory listing under `limit`.
pub open spec fn plan(inv: SteamApi, owner: Seq<char>, limit: int) -> Seq<JobView> {
    plan_from(inv, owner, clamp(limit, inv.inventory@.len() as int), 0, 0)
}

/// The fetch jobs of an inventory listing for the owner `owner`, in the order
/// of its entries, under `limit` (see `plan`).
pub fn plan_jobs(inv: &SteamApi, owner: &str, limit: usize) -> (r: Vec<FetchJob>)
    ensures
        jobs_view(r@) == plan(*inv, owner@, limit as int),
{
    let n = inv.inventory.len();
    let lim = if limit > n {
        n
    } else {
        limit
    };
    let ghost total = plan(*inv, owner@, limit as int);
    let mut jobs: Vec<FetchJob> = Vec::new();
    let mut k: usize = 0;
    let mut count: usize = 0;
    while k < n && count <= lim
        invariant
            n == inv.inventory@.len(),
            lim == clamp(limit as int, n as int),
            total == plan(*inv, owner@, limit as int),
            k <= n,
            count <= k,
            jobs_view(jobs@) + plan_from(*inv, owner@, lim as int, k as int, count as int)
                == total,
        decreases n - k,
    {
        let e = &inv.inventory[k];
        let ghost rest = plan_from(*inv, owner@, lim as int, k as int, count as int);
        let found = find_description(&inv.descriptions, e);
        proof {
            lemma_match_from(inv.descriptions@, *e, 0);
        }
        match found {
            Some(d) => {
                let desc = &inv.descriptions[d];
                match &desc.actions {
                    Some(actions) => {
                        if actions.len() > 0 {
                            let link = inspect_link(
                                actions[0].link.as_str(),
                                owner,
                                e.id.as_str(),
                            );
                            let name_tag = match &desc.fraudwarnings {
                                Some(w) => if w.len() > 0 {
                                    extract_name_tag(w[0].as_str())
                                } else {
                                    None
                                },
                                None => None,
                            };
                            let job = FetchJob { entry: k, description: d, link, name_tag };
                            let ghost before = jobs_view(jobs@);
                            proof {
                                assert(job@ == job_of(*inv, owner@, k as int, d as int));
                            }
                            jobs.push(job);
                            proof {
                                assert(jobs_view(jobs@) =~= before.push(job@));
                                assert(rest == seq![job@] + plan_from(
                                    *inv,
                                    owner@,
                                    lim as int,
                                    k + 1,
                                    count + 1,
                                ));
                                assert(before.push(job@) + plan_from(
                                    *inv,
                                    owner@,
                                    lim as int,
                                    k + 1,
                                    count + 1,
                                ) =~= before + rest);
                            }
                            count = count + 1;
                        }
                    },
                    None => {},
                }
            },
            None => {},
        }
        k = k + 1;
    }
    proof {
        assert(plan_from(*inv, owner@, lim as int, k as int, count as int) =~= Seq::empty());
        assert(jobs_view(jobs@) + Seq::<JobView>::empty() =~= jobs_view(jobs@));
    }
    jobs
}

proof fn lemma_plan_from(inv: SteamApi, owner: Seq<char>, limit: int, k: int, count: int)
    requires
        0 <= k <= inv.inventory@.len(),
        0 <= count,
    ensures
        ({
            let p = plan_from(inv, owner, limit, k, count);
            &&& p.len() <= inv.inventory@.len() - k
            &&& count <= limit + 1 ==> p.len() <= limit + 1 - count
            &&& forall|i: int|
                0 <= i < p.len() ==> {
                    &&& k <= #[trigger] p[i].entry < inv.inventory@.len()
                    &&& 0 <= p[i].description < inv.descriptions@.len()
                    &&& same_pair(inv.inventory@[p[i].entry], inv.descriptions@[p[i].description])
                }
            &&& forall|i: int, j: int| 0 <= i < j < p.len() ==> #[trigger] p[i].entry < #[trigger] p[j].entry
        }),
    decreases inv.inventory@.len() - k,
{
    if k < inv.inventory@.len() && count <= limit {
        lemma_match_from(inv.descriptions@, inv.inventory@[k], 0);
        match match_from(inv.descriptions@, inv.inventory@[k], 0) {
            Some(d) => {
                if has_action(inv.descriptions@[d]) {
                    lemma_plan_from(inv, owner, limit, k + 1, count + 1);
                    let rest = plan_from(inv, owner, limit, k + 1, count + 1);
                    let p = plan_from(inv, owner, limit, k, count);
                    assert(p == seq![job_of(inv, owner, k, d)] + rest);
                    assert forall|i: int| 0 < i < p.len() implies p[i] == rest[i - 1] by {}
                    assert forall|i: int, j: int| 0 <= i < j < p.len() implies #[trigger] p[i].entry
                        < #[trigger] p[j].entry by {
                        assert(p[j] == rest[j - 1]);
                        if i > 0 {
                            assert(p[i] == rest[i - 1]);
                        }
                    }
                } else {
                    lemma_plan_from(inv, owner, limit, k + 1, count);
                }
            },
            None => {
                lemma_plan_from(inv, owner, limit, k + 1, count);
            },
        }
    }
}

/// Entry `k` has a description, and that description has an action.
pub open spec fn eligible(inv: SteamApi, k: int) -> bool {
    match_from(inv.descriptions@, inv.inventory@[k], 0) matches Some(d) && has_action(
        inv.descriptions@[d],
    )
}

proof fn lemma_plan_from_complete(inv: SteamApi, owner: Seq<char>, k: int, count: int)
    requires
        0 <= count <= k <= inv.inventory@.len(),
    ensures
        forall|e: int|
            k <= e < inv.inventory@.len() && eligible(inv, e) ==> exists|i: int|
                0 <= i < plan_from(inv, owner, inv.inventory@.len() as int, k, count).len()
                    && (#[trigger] plan_from(inv, owner, inv.inventory@.len() as int, k, count)[i]).entry
                    == e,
    decreases inv.inventory@.len() - k,
{
    let n = inv.inventory@.len() as int;
    if k < n {
        let p = plan_from(inv, owner, n, k, count);
        if eligible(inv, k) {
            lemma_plan_from_complete(inv, owner, k + 1, count + 1);
            let rest = plan_from(inv, owner, n, k + 1, count + 1);
            let d = match_from(inv.descriptions@, inv.inventory@[k], 0)->Some_0;
            assert(p == seq![job_of(inv, owner, k, d)] + rest);
            assert forall|e: int| k <= e < n && eligible(inv, e) implies exists|i: int|
                0 <= i < p.len() && (#[trigger] p[i]).entry == e by {
                if e == k {
                    assert(p[0].entry == k);
                } else {
                    let i = choose|i: int| 0 <= i < rest.len() && (#[trigger] rest[i]).entry == e;
                    assert(p[i + 1] == rest[i]);
                }
            }
        } else {
            lemma_plan_from_complete(inv, owner, k + 1, count);
        }
    }
}

/// Where `limit` reaches the number of entries, every entry that has a
/// description with an action gets a job.
pub proof fn lemma_all_eligible_planned(inv: SteamApi, owner: Seq<char>, limit: int)
    requires
        limit >= inv.inventory@.len(),
    ensures
        forall|e: int|
            0 <= e < inv.inventory@.len() && eligible(inv, e) ==> exists|i: int|
                0 <= i < plan(inv, owner, limit).len() && (#[trigger] plan(inv, owner, limit)[i]).entry
                    == e,
{
    lemma_plan_from_complete(inv, owner, 0, 0);
    assert(clamp(limit, inv.inventory@.len() as int) == inv.inventory@.len() as int);
    assert(plan(inv, owner, limit) == plan_from(inv, owner, inv.inventory@.len() as int, 0, 0));
}

/// Reconciliation never pairs an entry with a description of another
/// (instanceid, classid) pair: each job names an entry and a description
/// of the listing whose pairs agree, and each entry has at most one job,
/// in the order of the listing.
pub proof fn lemma_jobs_match_their_entries(inv: SteamApi, owner: Seq<char>, limit: int)
    ensures
        ({
            let p = plan(inv, owner, limit);
            &&& forall|i: int|
                0 <= i < p.len() ==> {
                    &&& 0 <= #[trigger] p[i].entry < inv.inventory@.len()
                    &&& 0 <= p[i].description < inv.descriptions@.len()
                    &&& same_pair(inv.inventory@[p[i].entry], inv.descriptions@[p[i].description])
                }
            &&& forall|i: int, j: int| 0 <= i < j < p.len() ==> #[trigger] p[i].entry < #[trigger] p[j].entry
        }),
{
    lemma_plan_from(inv, owner, clamp(limit, inv.inventory@.len() as int), 0, 0);
}

/// Under `limit`, at most `limit + 1` entries get a job, and never more than
/// the listing holds: the boundary is checked with a strict comparison after
/// the limit is lowered to the number of entries.
pub proof fn lemma_jobs_within_limit(inv: SteamApi, owner: Seq<char>, limit: nat)
    ensures
        plan(inv, owner, limit as int).len() <= limit + 1,
        plan(inv, owner, limit as int).len() <= inv.inventory@.len(),
{
    lemma_plan_from(inv, owner, clamp(limit as int, inv.inventory@.len() as int), 0, 0);
}

} // verus!
