use vstd::prelude::*;

use crate::case_report::CaseReport;
use crate::rating::RatingClassification;
use crate::reputation::WalletMetrics;

verus! {

/// Reports scoring below this are recorded as discredited wallets.
pub const DISCREDITED_SCORE_RATING_BOUNDARY: i32 = 400;

/// Relies on `uuid::Uuid::new_v4` and its `Display` (hyphenated form, 36 characters) for a
/// fresh random API key.
#[verifier::external_body]
fn fresh_api_key() -> (r: String)
    ensures
        r@.len() == 36,
{
    uuid::Uuid::new_v4().to_string()
}

/// The stored record of one job.
pub struct WalletReport {
    pub id: u128,
    pub rating_classification: RatingClassification,
    pub rating_score: i32,
    pub case_report: CaseReport,
    /// Creation time, in Unix seconds.
    pub report_creation_date: i64,
    pub wallet_addr: String,
    pub wallet_metrics: WalletMetrics,
}

impl WalletReport {
    /// Assembles the record of job `id`.
    pub fn new(
        id: u128,
        rating_classification: RatingClassification,
        rating_score: i32,
        case_report: CaseReport,
        wallet_addr: String,
        wallet_metrics: WalletMetrics,
        report_creation_date: i64,
    ) -> (r: Self)
        ensures
            r.id == id,
            r.rating_classification == rating_classification,
            r.rating_score == rating_score,
            r.case_report == case_report,
            r.wallet_addr == wallet_addr,
            r.wallet_metrics == wallet_metrics,
            r.report_creation_date == report_creation_date,
    {
        WalletReport {
            id,
            rating_classification,
            rating_score,
            case_report,
            report_creation_date,
            wallet_addr,
            wallet_metrics,
        }
    }
}

/// Whether a report with this score marks its wallet as discredited.
pub fn is_discredited(rating_score: i32) -> (r: bool)
    ensures
        r == (rating_score < DISCREDITED_SCORE_RATING_BOUNDARY),
{
    rating_score < DISCREDITED_SCORE_RATING_BOUNDARY
}

/// Index of the last report with identifier `id`, or -1.
pub open spec fn index_of_id(s: Seq<WalletReport>, id: u128) -> int
    decreases s.len(),
{
    if s.len() == 0 {
        -1
    } else if s.last().id == id {
        s.len() - 1
    } else {
        index_of_id(s.drop_last(), id)
    }
}

/// No two reports share an identifier.
pub open spec fn ids_unique(s: Seq<WalletReport>) -> bool {
    forall|i: int, j: int| 0 <= i < s.len() && 0 <= j < s.len() && s[i].id == s[j].id ==> i == j
}

/// The reports after saving `r`: it replaces the report with its identifier, or is added.
pub open spec fn upserted(s: Seq<WalletReport>, r: WalletReport) -> Seq<WalletReport> {
    let i = index_of_id(s, r.id);
    if i < 0 {
        s.push(r)
    } else {
        s.update(i, r)
    }
}

/// Reports with an identifier other than `id`.
pub open spec fn other_id(id: u128) -> spec_fn(WalletReport) -> bool {
    |r: WalletReport| r.id != id
}

/// The reports without the one with identifier `id`.
pub open spec fn without_id(s: Seq<WalletReport>, id: u128) -> Seq<WalletReport> {
    s.filter(other_id(id))
}

/// Number of reports on account `addr`.
pub open spec fn count_for(s: Seq<WalletReport>, addr: Seq<char>) -> int
    decreases s.len(),
{
    if s.len() == 0 {
        0
    } else {
        count_for(s.drop_last(), addr) + if s.last().wallet_addr@ == addr { 1int } else { 0 }
    }
}

proof fn lemma_index_of_id(s: Seq<WalletReport>, id: u128)
    ensures
        -1 <= index_of_id(s, id) < s.len(),
        index_of_id(s, id) >= 0 ==> s[index_of_id(s, id)].id == id,
        index_of_id(s, id) < 0 <==> forall|k: int| 0 <= k < s.len() ==> s[k].id != id,
    decreases s.len(),
{
    if s.len() > 0 {
        lemma_index_of_id(s.drop_last(), id);
        if s.last().id != id && index_of_id(s, id) < 0 {
            assert forall|k: int| 0 <= k < s.len() implies s[k].id != id by {
                if k < s.len() - 1 {
                    assert(s[k] == s.drop_last()[k]);
                }
            }
        }
    }
}

proof fn lemma_index_of_unique(s: Seq<WalletReport>, k: int)
    requires
        ids_unique(s),
        0 <= k < s.len(),
    ensures
        index_of_id(s, s[k].id) == k,
{
    lemma_index_of_id(s, s[k].id);
}

/// Saving a report twice under its identifier leaves the same reports as saving it once:
/// exactly one report carries that identifier, and it is the saved one.
pub proof fn lemma_save_idempotent(s: Seq<WalletReport>, r: WalletReport)
    requires
        ids_unique(s),
    ensures
        upserted(upserted(s, r), r) == upserted(s, r),
        ids_unique(upserted(s, r)),
        index_of_id(upserted(s, r), r.id) >= 0,
        upserted(s, r)[index_of_id(upserted(s, r), r.id)] == r,
        forall|k: int| 0 <= k < upserted(s, r).len() && upserted(s, r)[k].id == r.id
            ==> k == index_of_id(upserted(s, r), r.id),
{
    lemma_upsert_unique(s, r);
    let t = upserted(s, r);
    lemma_index_of_id(s, r.id);
    let i = index_of_id(s, r.id);
    let k = if i < 0 { s.len() as int } else { i };
    assert(t[k] == r);
    lemma_index_of_unique(t, k);
    assert(t.update(k, r) == t);
}

proof fn lemma_upsert_unique(s: Seq<WalletReport>, r: WalletReport)
    requires
        ids_unique(s),
    ensures
        ids_unique(upserted(s, r)),
{
    lemma_index_of_id(s, r.id);
}

/// Index of the entry of `v` whose text is `key`, if any.
fn find_text(v: &Vec<String>, key: &String) -> (r: Option<usize>)
    ensures
        r.is_none() <==> !texts(v@).contains(key@),
        r.is_some() ==> r.unwrap() < v@.len() && v@[r.unwrap() as int]@ == key@,
{
    let mut i: usize = 0;
    while i < v.len()
        invariant
            i <= v@.len(),
            forall|k: int| 0 <= k < i ==> v@[k]@ != key@,
        decreases v@.len() - i,
    {
        if v[i] == *key {
            assert(texts(v@)[i as int] == key@);
            return Some(i);
        }
        i = i + 1;
    }
    proof {
        if texts(v@).contains(key@) {
            let k = choose|k: int| 0 <= k < texts(v@).len() && texts(v@)[k] == key@;
            assert(v@[k]@ == key@);
        }
    }
    None
}

/// Adds `key` to the list unless it is there already.
fn add_text(v: &mut Vec<String>, key: String)
    ensures
        texts(final(v)@) == if texts(old(v)@).contains(key@) {
            texts(old(v)@)
        } else {
            texts(old(v)@).push(key@)
        },
{
    match find_text(v, &key) {
        Some(_) => {},
        None => {
            let ghost before = v@;
            let ghost k = key@;
            v.push(key);
            assert(texts(v@) =~= texts(before).push(k));
        },
    }
}

/// The entries of `keys` that the list `known` holds, in the order of `known`.
pub open spec fn known_among(known: Seq<Seq<char>>, keys: Seq<Seq<char>>) -> Seq<Seq<char>> {
    known.filter(|k: Seq<char>| keys.contains(k))
}

/// Copies the entries of `known` that occur in `keys`.
fn select_known(known: &Vec<String>, keys: &Vec<String>) -> (r: Vec<String>)
    ensures
        texts(r@) == known_among(texts(known@), texts(keys@)),
{
    let ghost pred = |k: Seq<char>| texts(keys@).contains(k);
    let mut out: Vec<String> = Vec::new();
    let mut i: usize = 0;
    while i < known.len()
        invariant
            i <= known@.len(),
            pred == (|k: Seq<char>| texts(keys@).contains(k)),
            texts(out@) == texts(known@).take(i as int).filter(pred),
        decreases known@.len() - i,
    {
        proof {
            reveal(Seq::filter);
            let s = texts(known@).take(i as int + 1);
            assert(s.drop_last() =~= texts(known@).take(i as int));
            assert(s.last() == known@[i as int]@);
        }
        let found = find_text(keys, &known[i]);
        if found.is_some() {
            let ghost before = out@;
            let c = known[i].clone();
            out.push(c);
            assert(texts(out@) =~= texts(before).push(c@));
        }
        i = i + 1;
    }
    assert(texts(known@).take(i as int) == texts(known@));
    out
}

/// In-memory store of reports keyed by job identifier, with API users and the lists of
/// known discredited and credited wallets.
pub struct ReportStore {
    reports: Vec<WalletReport>,
    users: Vec<String>,
    discredited: Vec<String>,
    credited: Vec<String>,
}

/// No two entries of the list are equal.
pub open spec fn distinct(s: Seq<Seq<char>>) -> bool {
    forall|i: int, j: int| 0 <= i < s.len() && 0 <= j < s.len() && s[i] == s[j] ==> i == j
}

/// Reports with a score in `[from, to]`.
pub open spec fn score_within(from: i32, to: i32) -> spec_fn(WalletReport) -> bool {
    |w: WalletReport| from <= w.rating_score <= to
}

/// Reports in band `c`.
pub open spec fn in_class(c: RatingClassification) -> spec_fn(WalletReport) -> bool {
    |w: WalletReport| w.rating_classification == c
}

/// The reports behind a list of references.
pub open spec fn derefs(v: Seq<&WalletReport>) -> Seq<WalletReport> {
    v.map_values(|w: &WalletReport| *w)
}

/// The texts of a list of strings.
pub open spec fn texts(v: Seq<String>) -> Seq<Seq<char>> {
    v.map_values(|s: String| s@)
}

impl ReportStore {
    pub closed spec fn reports(&self) -> Seq<WalletReport> {
        self.reports@
    }

    pub closed spec fn users(&self) -> Seq<Seq<char>> {
        texts(self.users@)
    }

    pub closed spec fn discredited(&self) -> Seq<Seq<char>> {
        texts(self.discredited@)
    }

    pub closed spec fn credited(&self) -> Seq<Seq<char>> {
        texts(self.credited@)
    }

    /// Identifiers are unique and no user is listed twice.
    pub open spec fn wf(&self) -> bool {
        ids_unique(self.reports()) && distinct(self.users())
    }

    /// An empty store.
    pub fn new() -> (r: Self)
        ensures
            r.wf(),
            r.reports() == Seq::<WalletReport>::empty(),
            r.users() == Seq::<Seq<char>>::empty(),
            r.discredited() == Seq::<Seq<char>>::empty(),
            r.credited() == Seq::<Seq<char>>::empty(),
    {
        let r = ReportStore { reports: Vec::new(), users: Vec::new(), discredited: Vec::new(), credited: Vec::new() };
        assert(texts(r.users@) =~= Seq::<Seq<char>>::empty());
        assert(texts(r.discredited@) =~= Seq::<Seq<char>>::empty());
        assert(texts(r.credited@) =~= Seq::<Seq<char>>::empty());
        r
    }

    fn position(&self, id: u128) -> (r: Option<usize>)
        requires
            self.wf(),
        ensures
            r.is_none() <==> index_of_id(self.reports(), id) < 0,
            r.is_some() ==> r.unwrap() as int == index_of_id(self.reports(), id),
    {
        let mut i: usize = 0;
        while i < self.reports.len()
            invariant
                i <= self.reports@.len(),
                ids_unique(self.reports@),
                forall|k: int| 0 <= k < i ==> self.reports@[k].id != id,
            decreases self.reports@.len() - i,
        {
            if self.reports[i].id == id {
                proof {
                    lemma_index_of_unique(self.reports@, i as int);
                }
                return Some(i);
            }
            i = i + 1;
        }
        proof {
            lemma_index_of_id(self.reports@, id);
        }
        None
    }

    /// Saves a report under its identifier, replacing any report saved under it before.
    pub fn insert_wallet_report(&mut self, wallet_report: WalletReport)
        requires
            old(self).wf(),
        ensures
            final(self).wf(),
            final(self).reports() == upserted(old(self).reports(), wallet_report),
            final(self).users() == old(self).users(),
            final(self).discredited() == old(self).discredited(),
            final(self).credited() == old(self).credited(),
    {
        proof {
            lemma_upsert_unique(self.reports@, wallet_report);
            lemma_index_of_id(self.reports@, wallet_report.id);
        }
        match self.position(wallet_report.id) {
            Some(i) => {
                self.reports.set(i, wallet_report);
            },
            None => {
                self.reports.push(wallet_report);
            },
        }
    }

    /// The report saved under `id`, if any.
    pub fn get_wallet_report(&self, id: u128) -> (r: Option<&WalletReport>)
        requires
            self.wf(),
        ensures
            r.is_none() <==> index_of_id(self.reports(), id) < 0,
            r.is_some() ==> *r.unwrap() == self.reports()[index_of_id(self.reports(), id)],
            r.is_some() ==> r.unwrap().id == id,
    {
        proof {
            lemma_index_of_id(self.reports@, id);
        }
        match self.position(id) {
            Some(i) => Some(&self.reports[i]),
            None => None,
        }
    }

    /// Number of reports saved on account `wallet_addr`.
    pub fn get_wallet_report_count(&self, wallet_addr: &String) -> (r: u64)
        ensures
            r == count_for(self.reports(), wallet_addr@),
    {
        let mut count: u64 = 0;
        let mut i: usize = 0;
        while i < self.reports.len()
            invariant
                i <= self.reports@.len(),
                count == count_for(self.reports@.take(i as int), wallet_addr@),
                count <= i,
            decreases self.reports@.len() - i,
        {
            assert(self.reports@.take(i as int + 1).drop_last() == self.reports@.take(i as int));
            if self.reports[i].wallet_addr == *wallet_addr {
                count = count + 1;
            }
            i = i + 1;
        }
        assert(self.reports@.take(i as int) == self.reports@);
        count
    }

    /// Removes the report saved under `id`; returns whether there was one.
    pub fn delete_report(&mut self, id: u128) -> (r: bool)
        requires
            old(self).wf(),
        ensures
            final(self).wf(),
            r == (index_of_id(old(self).reports(), id) >= 0),
            final(self).reports() == without_id(old(self).reports(), id),
            final(self).users() == old(self).users(),
            final(self).discredited() == old(self).discredited(),
            final(self).credited() == old(self).credited(),
    {
        proof {
            lemma_index_of_id(self.reports@, id);
        }
        let ghost s = self.reports@;
        let found = self.position(id);
        match found {
            Some(i) => {
                self.reports.remove(i);
                proof {
                    let t = self.reports@;
                    assert(t == s.remove(i as int));
                    assert forall|k: int| 0 <= k < s.len() && k != i implies s[k].id != id by {
                        lemma_index_of_unique(s, k);
                    }
                    lemma_filter_removes_one(s, other_id(id), i as int);
                    assert(ids_unique(t)) by {
                        assert forall|a: int, b: int|
                            0 <= a < t.len() && 0 <= b < t.len() && t[a].id == t[b].id implies a == b by {
                            let a2 = if a < i { a } else { a + 1 };
                            let b2 = if b < i { b } else { b + 1 };
                            assert(t[a] == s[a2]);
                            assert(t[b] == s[b2]);
                        }
                    }
                }
                true
            },
            None => {
                proof {
                    lemma_filter_keeps_all(s, other_id(id));
                }
                false
            },
        }
    }

    /// Registers an API key; a key registered already is kept once.
    pub fn insert_user(&mut self, api_key: String)
        requires
            old(self).wf(),
        ensures
            final(self).wf(),
            final(self).users() == if old(self).users().contains(api_key@) {
                old(self).users()
            } else {
                old(self).users().push(api_key@)
            },
            final(self).reports() == old(self).reports(),
            final(self).discredited() == old(self).discredited(),
            final(self).credited() == old(self).credited(),
    {
        add_text(&mut self.users, api_key);
        proof {
            let u = self.users();
            assert forall|a: int, b: int| 0 <= a < u.len() && 0 <= b < u.len() && u[a] == u[b] implies a == b by {
                if old(self).users().len() < u.len() {
                    let n = old(self).users().len() as int;
                    if a == n && b < n {
                        assert(old(self).users().contains(u[b]));
                    }
                    if b == n && a < n {
                        assert(old(self).users().contains(u[a]));
                    }
                }
            }
        }
    }

    /// Whether the API key is registered.
    pub fn check_user_exists(&self, api_key: &str) -> (r: bool)
        ensures
            r == self.users().contains(api_key@),
    {
        let key = String::from_str(api_key);
        find_text(&self.users, &key).is_some()
    }

    /// Removes the API key; returns whether it was registered.
    pub fn delete_user(&mut self, api_key: &str) -> (r: bool)
        requires
            old(self).wf(),
        ensures
            final(self).wf(),
            r == old(self).users().contains(api_key@),
            final(self).users() == old(self).users().filter(|u: Seq<char>| u != api_key@),
            final(self).reports() == old(self).reports(),
            final(self).discredited() == old(self).discredited(),
            final(self).credited() == old(self).credited(),
    {
        let key = String::from_str(api_key);
        let ghost pred = |u: Seq<char>| u != api_key@;
        let ghost before = self.users();
        match find_text(&self.users, &key) {
            Some(i) => {
                self.users.remove(i);
                proof {
                    assert(self.users() =~= before.remove(i as int));
                    assert forall|k: int| 0 <= k < before.len() && k != i implies pred(before[k]) by {
                        assert(before[k] != before[i as int]);
                    }
                    lemma_filter_removes_one(before, pred, i as int);
                    lemma_remove_keeps_distinct(before, i as int);
                }
                true
            },
            None => {
                proof {
                    assert forall|k: int| 0 <= k < before.len() implies pred(before[k]) by {
                        if before[k] == api_key@ {
                            assert(before.contains(api_key@));
                        }
                    }
                    lemma_filter_keeps_all(before, pred);
                }
                false
            },
        }
    }

    /// Records a wallet as discredited; one recorded already is kept once.
    pub fn insert_discredited_wallet(&mut self, wallet_addr: String)
        ensures
            final(self).discredited() == if old(self).discredited().contains(wallet_addr@) {
                old(self).discredited()
            } else {
                old(self).discredited().push(wallet_addr@)
            },
            final(self).reports() == old(self).reports(),
            final(self).users() == old(self).users(),
            final(self).credited() == old(self).credited(),
    {
        add_text(&mut self.discredited, wallet_addr);
    }

    /// Records a wallet as credited; one recorded already is kept once.
    pub fn insert_credited_wallet(&mut self, wallet_addr: String)
        ensures
            final(self).credited() == if old(self).credited().contains(wallet_addr@) {
                old(self).credited()
            } else {
                old(self).credited().push(wallet_addr@)
            },
            final(self).reports() == old(self).reports(),
            final(self).users() == old(self).users(),
            final(self).discredited() == old(self).discredited(),
    {
        add_text(&mut self.credited, wallet_addr);
    }

    /// The discredited wallets among `associated_wallets`.
    pub fn find_discredited_associates(&self, associated_wallets: &Vec<String>) -> (r: Vec<String>)
        ensures
            texts(r@) == known_among(self.discredited(), texts(associated_wallets@)),
    {
        select_known(&self.discredited, associated_wallets)
    }

    /// The credited wallets among `associated_wallets`.
    pub fn find_credited_associates(&self, associated_wallets: &Vec<String>) -> (r: Vec<String>)
        ensures
            texts(r@) == known_among(self.credited(), texts(associated_wallets@)),
    {
        select_known(&self.credited, associated_wallets)
    }

    /// Reports whose score lies in `[from_score, to_score]`, in store order.
    pub fn get_reports_between_scores(&self, from_score: i32, to_score: i32) -> (r: Vec<&WalletReport>)
        ensures
            derefs(r@) == self.reports().filter(score_within(from_score, to_score)),
    {
        let ghost pred = score_within(from_score, to_score);
        let mut out: Vec<&WalletReport> = Vec::new();
        let mut i: usize = 0;
        while i < self.reports.len()
            invariant
                i <= self.reports@.len(),
                pred == score_within(from_score, to_score),
                derefs(out@) == self.reports@.take(i as int).filter(pred),
            decreases self.reports@.len() - i,
        {
            proof {
                reveal(Seq::filter);
                let s = self.reports@.take(i as int + 1);
                assert(s.drop_last() == self.reports@.take(i as int));
                assert(s.filter(pred) == if pred(s.last()) {
                    s.drop_last().filter(pred).push(s.last())
                } else {
                    s.drop_last().filter(pred)
                });
                assert(s.last() == self.reports@[i as int]);
            }
            let w = &self.reports[i];
            if from_score <= w.rating_score && w.rating_score <= to_score {
                let ghost before = out@;
                out.push(w);
                assert(derefs(out@) =~= derefs(before).push(*w));
            }
            i = i + 1;
        }
        assert(self.reports@.take(i as int) == self.reports@);
        out
    }

    /// Reports in band `classification`, in store order.
    pub fn get_wallet_reports_by_classification(&self, classification: RatingClassification) -> (r: Vec<&WalletReport>)
        ensures
            derefs(r@) == self.reports().filter(in_class(classification)),
    {
        let ghost pred = in_class(classification);
        let mut out: Vec<&WalletReport> = Vec::new();
        let mut i: usize = 0;
        while i < self.reports.len()
            invariant
                i <= self.reports@.len(),
                pred == in_class(classification),
                derefs(out@) == self.reports@.take(i as int).filter(pred),
            decreases self.reports@.len() - i,
        {
            proof {
                reveal(Seq::filter);
                let s = self.reports@.take(i as int + 1);
                assert(s.drop_last() == self.reports@.take(i as int));
                assert(s.filter(pred) == if pred(s.last()) {
                    s.drop_last().filter(pred).push(s.last())
                } else {
                    s.drop_last().filter(pred)
                });
                assert(s.last() == self.reports@[i as int]);
            }
            let w = &self.reports[i];
            if w.rating_classification == classification {
                let ghost before = out@;
                out.push(w);
                assert(derefs(out@) =~= derefs(before).push(*w));
            }
            i = i + 1;
        }
        assert(self.reports@.take(i as int) == self.reports@);
        out
    }
}

proof fn lemma_filter_keeps_all<A>(s: Seq<A>, pred: spec_fn(A) -> bool)
    requires
        forall|k: int| 0 <= k < s.len() ==> pred(s[k]),
    ensures
        s.filter(pred) == s,
    decreases s.len(),
{
    reveal(Seq::filter);
    if s.len() > 0 {
        lemma_filter_keeps_all(s.drop_last(), pred);
        assert(s.drop_last().push(s.last()) == s);
    }
}

proof fn lemma_filter_removes_one<A>(s: Seq<A>, pred: spec_fn(A) -> bool, i: int)
    requires
        0 <= i < s.len(),
        !pred(s[i]),
        forall|k: int| 0 <= k < s.len() && k != i ==> pred(s[k]),
    ensures
        s.filter(pred) == s.remove(i),
    decreases s.len(),
{
    reveal(Seq::filter);
    if i == s.len() - 1 {
        lemma_filter_keeps_all(s.drop_last(), pred);
        assert(s.remove(i) == s.drop_last());
    } else {
        lemma_filter_removes_one(s.drop_last(), pred, i);
        assert(s.remove(i) == s.drop_last().remove(i).push(s.last()));
    }
}

proof fn lemma_remove_keeps_distinct(s: Seq<Seq<char>>, i: int)
    requires
        distinct(s),
        0 <= i < s.len(),
    ensures
        distinct(s.remove(i)),
{
    let t = s.remove(i);
    assert forall|a: int, b: int| 0 <= a < t.len() && 0 <= b < t.len() && t[a] == t[b] implies a == b by {
        let a2 = if a < i { a } else { a + 1 };
        let b2 = if b < i { b } else { b + 1 };
        assert(t[a] == s[a2]);
        assert(t[b] == s[b2]);
    }
}


/// Registers a fresh random API key and returns it; `None`, with the store unchanged, in
/// the unlikely case that the drawn key is registered already.
pub fn create_user(store: &mut ReportStore) -> (r: Option<String>)
    requires
        old(store).wf(),
    ensures
        final(store).wf(),
        r.is_some() ==> r.unwrap()@.len() == 36,
        r.is_some() ==> !old(store).users().contains(r.unwrap()@),
        r.is_some() ==> final(store).users() == old(store).users().push(r.unwrap()@),
        r.is_none() ==> final(store).users() == old(store).users(),
        final(store).reports() == old(store).reports(),
        final(store).discredited() == old(store).discredited(),
        final(store).credited() == old(store).credited(),
{
    let api_key = fresh_api_key();
    if store.check_user_exists(api_key.as_str()) {
        return None;
    }
    let copy = api_key.clone();
    store.insert_user(copy);
    Some(api_key)
}

/// Removes the API key; returns whether it was registered.
pub fn delete_user(store: &mut ReportStore, api_key: &str) -> (r: bool)
    requires
        old(store).wf(),
    ensures
        final(store).wf(),
        r == old(store).users().contains(api_key@),
        final(store).users() == old(store).users().filter(|u: Seq<char>| u != api_key@),
        final(store).reports() == old(store).reports(),
        final(store).discredited() == old(store).discredited(),
        final(store).credited() == old(store).credited(),
{
    store.delete_user(api_key)
}

/// Number of reports saved on account `wallet_addr`.
pub fn get_wallet_report_count(store: &ReportStore, wallet_addr: &String) -> (r: u64)
    ensures
        r == count_for(store.reports(), wallet_addr@),
{
    store.get_wallet_report_count(wallet_addr)
}

} // verus!
