use crate::amount::{amount_millionths, parse_millionths};
use crate::json::{json_number_text, json_parses, json_text_field, number_field, parses, text_field};
use vstd::prelude::*;
use vstd::string::*;

verus! {

/// Microseconds in a day and in a week.
pub const DAY_US: i64 = 86_400_000_000;
pub const WEEK_US: i64 = 604_800_000_000;

/// A JSON text assembled from cached batches.
#[derive(Debug, Clone)]
pub struct Transactions {
    pub results: String,
}

/// How many batches are cached for a user.
#[derive(Debug, Clone, Copy)]
pub struct CheckCache {
    pub results: i64,
}

/// One upstream reply, stored verbatim, with the fields the queries read.
#[derive(Debug)]
pub struct Batch {
    pub user_id: u128,
    pub results: String,
    /// When the batch was fetched, in microseconds since the Unix epoch.
    pub created_at: i64,
    /// The payload's `timestamp`, in microseconds since the Unix epoch.
    pub timestamp: Option<i64>,
    pub transaction_type: Option<String>,
    pub transaction_category: Option<String>,
    /// The payload's `amount`.
    pub amount: Amount,
}

/// A payload's `amount` field.
#[derive(Debug, Clone, Copy, PartialEq, Eq, Structural)]
pub enum Amount {
    /// No amount: it adds nothing to a sum.
    Absent,
    /// An amount that cannot be read exactly: a sum over it is unknown.
    Unreadable,
    /// An amount in millionths.
    Millionths(i64),
}

/// The instant, in microseconds since the Unix epoch, that an RFC 3339 text names.
pub uninterp spec fn rfc3339_micros(s: Seq<char>) -> Option<i64>;

/// Relies on chrono::DateTime::parse_from_rfc3339 and `timestamp_micros`.
#[verifier::external_body]
fn parse_instant(s: &str) -> (r: Option<i64>)
    ensures
        r == rfc3339_micros(s@),
{
    chrono::DateTime::parse_from_rfc3339(s).ok().map(|d| d.timestamp_micros())
}

/// The instant one calendar month before `us` (microseconds since the Unix
/// epoch, UTC), the day of the month clamped to the earlier month's length.
pub uninterp spec fn month_before(us: i64) -> Option<i64>;

/// Relies on chrono::DateTime::from_timestamp_micros and
/// `DateTime::checked_sub_months` with one month.
#[verifier::external_body]
fn one_month_earlier(us: i64) -> (r: Option<i64>)
    ensures
        r == month_before(us),
{
    let t = chrono::DateTime::from_timestamp_micros(us)?;
    t.checked_sub_months(chrono::Months::new(1)).map(|d| d.timestamp_micros())
}

pub open spec fn opt_view(o: Option<String>) -> Option<Seq<char>> {
    match o {
        Some(s) => Some(s@),
        None => None,
    }
}

/// The instant named by the payload's `timestamp` field, if any.
pub open spec fn payload_instant(body: Seq<char>) -> Option<i64> {
    match json_text_field(body, "timestamp"@) {
        Some(t) => rfc3339_micros(t),
        None => None,
    }
}

/// The text of the payload's `amount`: a number, or else a string.
pub open spec fn amount_text(body: Seq<char>) -> Option<Seq<char>> {
    match json_number_text(body, "amount"@) {
        Some(t) => Some(t),
        None => json_text_field(body, "amount"@),
    }
}

/// Whether `a` is what the payload says of its amount.
pub open spec fn amount_matches(a: Amount, body: Seq<char>) -> bool {
    match amount_text(body) {
        None => a == Amount::Absent,
        Some(t) => match amount_millionths(t) {
            None => a == Amount::Unreadable,
            Some(v) => a matches Amount::Millionths(x) && x == v,
        },
    }
}

/// The batch stored for `body`, fetched for `user` at `now`.
pub open spec fn batch_of(b: Batch, user: u128, body: Seq<char>, now: i64) -> bool {
    &&& b.user_id == user
    &&& b.results@ == body
    &&& b.created_at == now
    &&& b.timestamp == payload_instant(body)
    &&& opt_view(b.transaction_type) == json_text_field(body, "transaction_type"@)
    &&& opt_view(b.transaction_category) == json_text_field(body, "transaction_category"@)
    &&& amount_matches(b.amount, body)
}

/// Which of a user's batches a query keeps.
pub enum BatchFilter {
    All,
    After(i128),
    TypeIs(String),
}

/// A query's selection, as contracts speak of it.
pub ghost enum Pick {
    All,
    After(int),
    TypeIs(Seq<char>),
}

impl BatchFilter {
    pub open spec fn pick(&self) -> Pick {
        match self {
            BatchFilter::All => Pick::All,
            BatchFilter::After(c) => Pick::After(*c as int),
            BatchFilter::TypeIs(k) => Pick::TypeIs(k@),
        }
    }
}

pub open spec fn keeps(b: Batch, user: u128, f: Pick) -> bool {
    b.user_id == user && match f {
        Pick::All => true,
        Pick::After(cutoff) => b.timestamp matches Some(t) && t > cutoff,
        Pick::TypeIs(k) => b.transaction_type matches Some(t) && t@ == k,
    }
}

/// The payloads of the kept batches, in storage order.
pub open spec fn selected(s: Seq<Batch>, user: u128, f: Pick) -> Seq<Seq<char>>
    decreases s.len(),
{
    if s.len() == 0 {
        Seq::empty()
    } else {
        let rest = selected(s.drop_last(), user, f);
        if keeps(s.last(), user, f) {
            rest.push(s.last().results@)
        } else {
            rest
        }
    }
}

/// The texts joined with commas.
pub open spec fn joined(items: Seq<Seq<char>>) -> Seq<char>
    decreases items.len(),
{
    if items.len() == 0 {
        Seq::empty()
    } else if items.len() == 1 {
        items[0]
    } else {
        joined(items.drop_last()) + seq![','] + items.last()
    }
}

/// The JSON array whose elements are the given JSON texts.
pub open spec fn json_array(items: Seq<Seq<char>>) -> Seq<char> {
    seq!['['] + joined(items) + seq![']']
}

/// The number of batches cached for `user`.
pub open spec fn count_for(s: Seq<Batch>, user: u128) -> nat {
    selected(s, user, Pick::All).len()
}

proof fn lemma_selected_len(s: Seq<Batch>, user: u128, f: Pick)
    ensures
        selected(s, user, f).len() <= s.len(),
    decreases s.len(),
{
    if s.len() > 0 {
        lemma_selected_len(s.drop_last(), user, f);
    }
}

/// A kept batch that carries a category.
pub open spec fn counted(b: Batch, user: u128, f: Pick) -> bool {
    keeps(b, user, f) && b.transaction_category is Some
}

/// Whether some counted batch has category `cat`.
pub open spec fn has_category(s: Seq<Batch>, user: u128, f: Pick, cat: Seq<char>) -> bool {
    exists|k: int| 0 <= k < s.len() && counted(s[k], user, f) && s[k].transaction_category.unwrap()@ == cat
}

/// What a batch adds to its category's sum, if that is known.
pub open spec fn contribution(a: Amount) -> Option<int> {
    match a {
        Amount::Absent => Some(0),
        Amount::Unreadable => None,
        Amount::Millionths(v) => Some(v as int),
    }
}

/// The sum, in millionths, of the amounts of the counted batches of category
/// `cat`; unknown when one of those amounts cannot be read.
pub open spec fn category_total(s: Seq<Batch>, user: u128, f: Pick, cat: Seq<char>) -> Option<int>
    decreases s.len(),
{
    if s.len() == 0 {
        Some(0)
    } else {
        let b = s.last();
        let rest = category_total(s.drop_last(), user, f, cat);
        if counted(b, user, f) && b.transaction_category.unwrap()@ == cat {
            match (rest, contribution(b.amount)) {
                (Some(x), Some(y)) => Some(x + y),
                _ => None,
            }
        } else {
            rest
        }
    }
}

pub open spec fn total_view(t: Option<i128>) -> Option<int> {
    match t {
        Some(v) => Some(v as int),
        None => None,
    }
}

/// `totals` lists each category of the counted batches once, with its sum.
pub open spec fn totals_of(totals: Seq<(String, Option<i128>)>, s: Seq<Batch>, user: u128, f: Pick) -> bool {
    &&& forall|i: int, j: int| 0 <= i < totals.len() && 0 <= j < totals.len() && i != j ==> totals[i].0@ != totals[j].0@
    &&& forall|i: int| 0 <= i < totals.len() ==> total_view(totals[i].1) == category_total(s, user, f, totals[i].0@)
    &&& forall|cat: Seq<char>| has_category(s, user, f, cat) <==> exists|i: int| 0 <= i < totals.len() && totals[i].0@ == cat
}

proof fn lemma_total_absent(s: Seq<Batch>, user: u128, f: Pick, cat: Seq<char>)
    requires
        !has_category(s, user, f, cat),
    ensures
        category_total(s, user, f, cat) == Some(0int),
    decreases s.len(),
{
    if s.len() > 0 {
        let t = s.drop_last();
        assert(!has_category(t, user, f, cat)) by {
            if has_category(t, user, f, cat) {
                let k = choose|k: int| 0 <= k < t.len() && counted(t[k], user, f) && t[k].transaction_category.unwrap()@ == cat;
                assert(s[k] == t[k]);
            }
        }
        lemma_total_absent(t, user, f, cat);
        if counted(s.last(), user, f) && s.last().transaction_category.unwrap()@ == cat {
            assert(has_category(s, user, f, cat));
        }
    }
}

proof fn lemma_total_bound(s: Seq<Batch>, user: u128, f: Pick, cat: Seq<char>)
    ensures
        category_total(s, user, f, cat) matches Some(t) ==> -(s.len() * 0x8000_0000_0000_0000) <= t <= s.len() * 0x7fff_ffff_ffff_ffff,
    decreases s.len(),
{
    if s.len() > 0 {
        lemma_total_bound(s.drop_last(), user, f, cat);
    }
}

/// Whether the query `f` for `user_id` keeps batch `b`.
fn keeps_batch(b: &Batch, user_id: u128, f: &BatchFilter) -> (r: bool)
    ensures
        r == keeps(*b, user_id, f.pick()),
{
    b.user_id == user_id && match f {
        BatchFilter::All => true,
        BatchFilter::After(cutoff) => match b.timestamp {
            Some(t) => (t as i128) > *cutoff,
            None => false,
        },
        BatchFilter::TypeIs(k) => match &b.transaction_type {
            Some(t) => *t == *k,
            None => false,
        },
    }
}

/// The batches fetched from upstream, in the order they were stored.
pub struct TransRepository {
    batches: Vec<Batch>,
}

impl View for TransRepository {
    type V = Seq<Batch>;

    closed spec fn view(&self) -> Seq<Batch> {
        self.batches@
    }
}

impl TransRepository {
    pub fn new() -> (r: TransRepository)
        ensures
            r@ == Seq::<Batch>::empty(),
    {
        TransRepository { batches: Vec::new() }
    }

    /// How many batches are stored, for all users together.
    pub fn len(&self) -> (r: usize)
        ensures
            r == self@.len(),
    {
        self.batches.len()
    }

    /// Stores an upstream reply for `user_id`; a body that is not JSON is refused.
    pub fn save_trans(&mut self, user_id: u128, json_trans: String, now: i64) -> (r: bool)
        requires
            old(self)@.len() < i64::MAX,
        ensures
            r == json_parses(json_trans@),
            !r ==> final(self)@ == old(self)@,
            r ==> final(self)@.len() == old(self)@.len() + 1
                && final(self)@.drop_last() == old(self)@
                && batch_of(final(self)@.last(), user_id, json_trans@, now),
    {
        if !parses(json_trans.as_str()) {
            return false;
        }
        let timestamp = match text_field(json_trans.as_str(), "timestamp") {
            Some(t) => parse_instant(t.as_str()),
            None => None,
        };
        let transaction_type = text_field(json_trans.as_str(), "transaction_type");
        let transaction_category = text_field(json_trans.as_str(), "transaction_category");
        let text = match number_field(json_trans.as_str(), "amount") {
            Some(t) => Some(t),
            None => text_field(json_trans.as_str(), "amount"),
        };
        let amount = match text {
            None => Amount::Absent,
            Some(t) => match parse_millionths(t.as_str()) {
                Some(v) => Amount::Millionths(v),
                None => Amount::Unreadable,
            },
        };
        self.batches.push(Batch {
            user_id,
            results: json_trans,
            created_at: now,
            timestamp,
            transaction_type,
            transaction_category,
            amount,
        });
        proof {
            assert(self@.drop_last() =~= old(self)@);
        }
        true
    }

    /// How many batches are cached for `user_id`.
    pub fn check_cache(&self, user_id: u128) -> (r: CheckCache)
        requires
            self@.len() <= i64::MAX,
        ensures
            r.results == count_for(self@, user_id),
    {
        let mut n: i64 = 0;
        let mut i: usize = 0;
        while i < self.batches.len()
            invariant
                i <= self@.len(),
                self@ == self.batches@,
                self@.len() <= i64::MAX,
                n == count_for(self@.subrange(0, i as int), user_id),
            decreases self.batches.len() - i,
        {
            proof {
                assert(self@.subrange(0, i + 1).drop_last() =~= self@.subrange(0, i as int));
                lemma_selected_len(self@.subrange(0, i as int), user_id, Pick::All);
            }
            if self.batches[i].user_id == user_id {
                n = n + 1;
            }
            i += 1;
        }
        proof {
            assert(self@.subrange(0, self@.len() as int) =~= self@);
        }
        CheckCache { results: n }
    }

    /// The JSON array of the payloads that `f` keeps among `user_id`'s batches,
    /// and how many there are.
    fn aggregate(&self, user_id: u128, f: &BatchFilter) -> (r: (String, usize))
        ensures
            r.0@ == json_array(selected(self@, user_id, f.pick())),
            r.1 == selected(self@, user_id, f.pick()).len(),
    {
        let mut out = String::from_str("[");
        let mut n: usize = 0;
        let mut i: usize = 0;
        proof {
            reveal_strlit("[");
        }
        while i < self.batches.len()
            invariant
                i <= self@.len(),
                self@ == self.batches@,
                n == selected(self@.subrange(0, i as int), user_id, f.pick()).len(),
                out@ == seq!['['] + joined(selected(self@.subrange(0, i as int), user_id, f.pick())),
            decreases self.batches.len() - i,
        {
            let ghost before = selected(self@.subrange(0, i as int), user_id, f.pick());
            proof {
                assert(self@.subrange(0, i + 1).drop_last() =~= self@.subrange(0, i as int));
                lemma_selected_len(self@.subrange(0, i as int), user_id, f.pick());
            }
            let b = &self.batches[i];
            let keep = keeps_batch(b, user_id, f);
            if keep {
                if n > 0 {
                    out.append(",");
                    proof {
                        reveal_strlit(",");
                    }
                }
                out.append(b.results.as_str());
                n = n + 1;
                proof {
                    let after = before.push(b.results@);
                    assert(after.drop_last() =~= before);
                }
            }
            i += 1;
        }
        out.append("]");
        proof {
            reveal_strlit("]");
            assert(self@.subrange(0, self@.len() as int) =~= self@);
        }
        (out, n)
    }

    /// All of `user_id`'s cached payloads as one JSON array, in storage order.
    pub fn get_cache(&self, user_id: u128) -> (r: Transactions)
        ensures
            r.results@ == json_array(selected(self@, user_id, Pick::All)),
    {
        let (text, _n) = self.aggregate(user_id, &BatchFilter::All);
        Transactions { results: text }
    }

    /// The kept payloads as a JSON array, or `None` where nothing is kept.
    fn view_of(&self, user_id: u128, f: &BatchFilter) -> (r: Option<Transactions>)
        ensures
            r is None <==> selected(self@, user_id, f.pick()).len() == 0,
            r matches Some(t) ==> t.results@ == json_array(selected(self@, user_id, f.pick())),
    {
        let (text, n) = self.aggregate(user_id, f);
        if n == 0 {
            None
        } else {
            Some(Transactions { results: text })
        }
    }

    /// `user_id`'s batches timestamped strictly after `cutoff` (microseconds).
    fn window(&self, user_id: u128, cutoff: i128) -> (r: Option<Transactions>)
        ensures
            r is None <==> selected(self@, user_id, Pick::After(cutoff as int)).len() == 0,
            r matches Some(t) ==> t.results@ == json_array(selected(self@, user_id, Pick::After(cutoff as int))),
    {
        self.view_of(user_id, &BatchFilter::After(cutoff))
    }

    /// `user_id`'s batches of the last day before `now` (microseconds).
    pub fn daily_transactions(&self, user_id: u128, now: i64) -> (r: Option<Transactions>)
        ensures
            r is None <==> selected(self@, user_id, Pick::After(now - DAY_US)).len() == 0,
            r matches Some(t) ==> t.results@ == json_array(selected(self@, user_id, Pick::After(now - DAY_US))),
    {
        self.window(user_id, now as i128 - DAY_US as i128)
    }

    /// `user_id`'s batches of the last week before `now` (microseconds).
    pub fn weekly_transactions(&self, user_id: u128, now: i64) -> (r: Option<Transactions>)
        ensures
            r is None <==> selected(self@, user_id, Pick::After(now - WEEK_US)).len() == 0,
            r matches Some(t) ==> t.results@ == json_array(selected(self@, user_id, Pick::After(now - WEEK_US))),
    {
        self.window(user_id, now as i128 - WEEK_US as i128)
    }

    /// `user_id`'s batches of the last calendar month before `now`
    /// (microseconds); none where that month lies outside the calendar's range.
    pub fn monthly_transactions(&self, user_id: u128, now: i64) -> (r: Option<Transactions>)
        ensures
            month_before(now) is None ==> r is None,
            month_before(now) matches Some(c) ==> (r is None <==> selected(self@, user_id, Pick::After(c as int)).len() == 0),
            month_before(now) matches Some(c) ==> (r matches Some(t) ==> t.results@ == json_array(selected(self@, user_id, Pick::After(c as int)))),
    {
        match one_month_earlier(now) {
            Some(c) => self.window(user_id, c as i128),
            None => None,
        }
    }

    /// Per-category sums, in millionths, over the batches that `f` keeps.
    fn totals(&self, user_id: u128, f: &BatchFilter) -> (r: Vec<(String, Option<i128>)>)
        ensures
            totals_of(r@, self@, user_id, f.pick()),
    {
        let mut out: Vec<(String, Option<i128>)> = Vec::new();
        let mut i: usize = 0;
        while i < self.batches.len()
            invariant
                i <= self@.len(),
                self@ == self.batches@,
                totals_of(out@, self@.subrange(0, i as int), user_id, f.pick()),
            decreases self.batches.len() - i,
        {
            let ghost pre = self@.subrange(0, i as int);
            let ghost next = self@.subrange(0, i + 1);
            proof {
                assert(next.drop_last() =~= pre);
                assert(next.last() == self@[i as int]);
                assert forall|k: int| 0 <= k < pre.len() implies next[k] == pre[k] by {}
            }
            let b = &self.batches[i];
            let keep = keeps_batch(b, user_id, f);
            if keep && b.transaction_category.is_some() {
                let cat = b.transaction_category.as_ref().unwrap();
                let add: Option<i128> = match b.amount {
                    Amount::Absent => Some(0),
                    Amount::Unreadable => None,
                    Amount::Millionths(v) => Some(v as i128),
                };
                let ghost c = cat@;
                let mut j: usize = 0;
                while j < out.len()
                    invariant
                        j <= out@.len(),
                        c == cat@,
                        forall|m: int| 0 <= m < j ==> out@[m].0@ != c,
                    ensures
                        j <= out@.len(),
                        j < out@.len() ==> out@[j as int].0@ == c,
                        forall|m: int| 0 <= m < j ==> out@[m].0@ != c,
                    decreases out.len() - j,
                {
                    if out[j].0 == *cat {
                        break;
                    }
                    j += 1;
                }
                proof {
                    assert forall|cat2: Seq<char>| #[trigger] has_category(next, user_id, f.pick(), cat2)
                        == (has_category(pre, user_id, f.pick(), cat2) || cat2 == c) by {
                        if has_category(pre, user_id, f.pick(), cat2) {
                            let k = choose|k: int| 0 <= k < pre.len() && counted(pre[k], user_id, f.pick())
                                && pre[k].transaction_category.unwrap()@ == cat2;
                            assert(next[k] == pre[k]);
                        }
                        if cat2 == c {
                            assert(counted(next[i as int], user_id, f.pick()));
                        }
                        if has_category(next, user_id, f.pick(), cat2) && cat2 != c {
                            let k = choose|k: int| 0 <= k < next.len() && counted(next[k], user_id, f.pick())
                                && next[k].transaction_category.unwrap()@ == cat2;
                            assert(k < pre.len());
                        }
                    }
                    lemma_total_bound(pre, user_id, f.pick(), c);
                    assert(i + 1 <= 0xffff_ffff_ffff_ffff);
                    assert(counted(next.last(), user_id, f.pick()));
                    assert(total_view(add) == contribution(b.amount));
                    assert forall|cat2: Seq<char>| cat2 != c implies #[trigger] category_total(next, user_id, f.pick(), cat2)
                        == category_total(pre, user_id, f.pick(), cat2) by {}
                    assert(category_total(next, user_id, f.pick(), c) == match (category_total(pre, user_id, f.pick(), c), total_view(add)) {
                        (Some(x), Some(y)) => Some(x + y),
                        _ => None::<int>,
                    });
                }
                let ghost before = out@;
                if j < out.len() {
                    let name = out[j].0.clone();
                    let sum = match (out[j].1, add) {
                        (Some(x), Some(y)) => Some(x + y),
                        _ => None,
                    };
                    proof {
                        assert(out@[j as int].0@ == c);
                    }
                    out.set(j, (name, sum));
                    proof {
                        assert forall|m: int| 0 <= m < out@.len() && m != j implies out@[m] == before[m] by {}
                        assert forall|cat2: Seq<char>| has_category(next, user_id, f.pick(), cat2)
                            <==> exists|m: int| 0 <= m < out@.len() && out@[m].0@ == cat2 by {
                            if has_category(next, user_id, f.pick(), cat2) && cat2 != c {
                                let m = choose|m: int| 0 <= m < before.len() && before[m].0@ == cat2;
                                assert(out@[m] == before[m]);
                            }
                            if has_category(next, user_id, f.pick(), cat2) && cat2 == c {
                                assert(out@[j as int].0@ == cat2);
                            }
                            if exists|m: int| 0 <= m < out@.len() && out@[m].0@ == cat2 {
                                let m = choose|m: int| 0 <= m < out@.len() && out@[m].0@ == cat2;
                                if m != j {
                                    assert(before[m].0@ == cat2);
                                }
                            }
                        }
                    }
                } else {
                    proof {
                        assert(!has_category(pre, user_id, f.pick(), c));
                        lemma_total_absent(pre, user_id, f.pick(), c);
                    }
                    out.push((cat.clone(), add));
                    proof {
                        assert forall|m: int| 0 <= m < before.len() implies out@[m] == before[m] by {}
                        assert forall|cat2: Seq<char>| has_category(next, user_id, f.pick(), cat2)
                            <==> exists|m: int| 0 <= m < out@.len() && out@[m].0@ == cat2 by {
                            if has_category(next, user_id, f.pick(), cat2) && cat2 != c {
                                let m = choose|m: int| 0 <= m < before.len() && before[m].0@ == cat2;
                                assert(out@[m] == before[m]);
                            }
                            if has_category(next, user_id, f.pick(), cat2) && cat2 == c {
                                assert(out@[before.len() as int].0@ == cat2);
                            }
                            if exists|m: int| 0 <= m < out@.len() && out@[m].0@ == cat2 {
                                let m = choose|m: int| 0 <= m < out@.len() && out@[m].0@ == cat2;
                                if m < before.len() {
                                    assert(before[m].0@ == cat2);
                                }
                            }
                        }
                    }
                }
            } else {
                proof {
                    assert(!counted(next.last(), user_id, f.pick()));
                    assert forall|cat2: Seq<char>| #[trigger] category_total(next, user_id, f.pick(), cat2)
                        == category_total(pre, user_id, f.pick(), cat2) by {}
                    assert forall|cat2: Seq<char>| #[trigger] has_category(next, user_id, f.pick(), cat2)
                        == has_category(pre, user_id, f.pick(), cat2) by {
                        if has_category(pre, user_id, f.pick(), cat2) {
                            let k = choose|k: int| 0 <= k < pre.len() && counted(pre[k], user_id, f.pick())
                                && pre[k].transaction_category.unwrap()@ == cat2;
                            assert(next[k] == pre[k]);
                        }
                        if has_category(next, user_id, f.pick(), cat2) {
                            let k = choose|k: int| 0 <= k < next.len() && counted(next[k], user_id, f.pick())
                                && next[k].transaction_category.unwrap()@ == cat2;
                            assert(k < pre.len());
                        }
                    }
                }
            }
            i += 1;
        }
        proof {
            assert(self@.subrange(0, self@.len() as int) =~= self@);
        }
        out
    }

    /// Per-category sums, in millionths, of `user_id`'s batches of the last
    /// week before `now` (microseconds).
    pub fn total_week_transactions(&self, user_id: u128, now: i64) -> (r: Vec<(String, Option<i128>)>)
        ensures
            totals_of(r@, self@, user_id, Pick::After(now - WEEK_US)),
    {
        let cutoff: i128 = now as i128 - WEEK_US as i128;
        self.totals(user_id, &BatchFilter::After(cutoff))
    }

    /// Per-category sums, in millionths, of `user_id`'s batches of the last
    /// calendar month before `now` (microseconds); empty where that month lies
    /// outside the calendar's range.
    pub fn total_month_transactions(&self, user_id: u128, now: i64) -> (r: Vec<(String, Option<i128>)>)
        ensures
            month_before(now) is None ==> r@.len() == 0,
            month_before(now) matches Some(c) ==> totals_of(r@, self@, user_id, Pick::After(c as int)),
    {
        match one_month_earlier(now) {
            Some(c) => self.totals(user_id, &BatchFilter::After(c as i128)),
            None => Vec::new(),
        }
    }

    /// `user_id`'s batches whose `transaction_type` is `CREDIT`.
    pub fn credit(&self, user_id: u128) -> (r: Option<Transactions>)
        ensures
            r is None <==> selected(self@, user_id, Pick::TypeIs("CREDIT"@)).len() == 0,
            r matches Some(t) ==> t.results@ == json_array(selected(self@, user_id, Pick::TypeIs("CREDIT"@))),
    {
        self.view_of(user_id, &BatchFilter::TypeIs(String::from_str("CREDIT")))
    }

    /// `user_id`'s batches whose `transaction_type` is `DEBIT`.
    pub fn debit(&self, user_id: u128) -> (r: Option<Transactions>)
        ensures
            r is None <==> selected(self@, user_id, Pick::TypeIs("DEBIT"@)).len() == 0,
            r matches Some(t) ==> t.results@ == json_array(selected(self@, user_id, Pick::TypeIs("DEBIT"@))),
    {
        self.view_of(user_id, &BatchFilter::TypeIs(String::from_str("DEBIT")))
    }
}

} // verus!
