use vstd::prelude::*;
use crate::error::Result;
use crate::keyed::{entry_of, has_key, keys_unique, lemma_entry_at, lemma_push, lemma_remove, lemma_update};
use crate::models::{copy_bytes, same_bytes};

verus! {

/// The view of optional bytes.
pub open spec fn opt_bytes(o: Option<Vec<u8>>) -> Option<Seq<u8>> {
    match o {
        Some(v) => Some(v@),
        None => None,
    }
}

/// The views of a list of byte vectors.
pub open spec fn bytes_list(v: Seq<Vec<u8>>) -> Seq<Seq<u8>> {
    v.map_values(|b: Vec<u8>| b@)
}

/// The deadline, on the monotonic clock in seconds, of an entry read at
/// `now` with `sec` seconds left: `now + sec`, saturating; a negative count
/// is read as none left.
pub open spec fn deadline_from(now: u64, sec: i64) -> u64 {
    if sec <= 0 {
        now
    } else if now + sec > u64::MAX {
        u64::MAX
    } else {
        (now + sec) as u64
    }
}

/// The seconds left, at `now`, before `deadline`: none once passed, and at
/// most `i64::MAX`.
pub open spec fn seconds_left(deadline: u64, now: u64) -> i64 {
    if deadline <= now {
        0
    } else if deadline - now > i64::MAX {
        i64::MAX
    } else {
        (deadline - now) as i64
    }
}

/// Reconstructs an absolute deadline from the seconds stored for an entry:
/// `now + sec` on the monotonic clock, saturating.
pub fn convert_sec_to_instant(now: u64, sec: i64) -> (r: u64)
    ensures
        r == deadline_from(now, sec),
{
    if sec <= 0 {
        now
    } else {
        now.saturating_add(sec as u64)
    }
}

/// The seconds left before a deadline, as stored.
pub fn seconds_until(deadline: u64, now: u64) -> (r: i64)
    ensures
        r == seconds_left(deadline, now),
{
    if deadline <= now {
        0
    } else if deadline - now > i64::MAX as u64 {
        i64::MAX
    } else {
        (deadline - now) as i64
    }
}

/// A DHT record: key, value, the peer that first published it (peer id bytes) and an
/// optional deadline in seconds on the monotonic clock.
#[derive(Debug)]
pub struct DhtRecord {
    pub key: Vec<u8>,
    pub value: Vec<u8>,
    pub publisher: Option<Vec<u8>>,
    pub expires: Option<u64>,
}

impl View for DhtRecord {
    type V = (Seq<u8>, Seq<u8>, Option<Seq<u8>>, Option<u64>);

    open spec fn view(&self) -> Self::V {
        (self.key@, self.value@, opt_bytes(self.publisher), self.expires)
    }
}

/// A DHT record as stored: the expiry is kept as the seconds that were left
/// when it was written.
#[derive(Debug)]
pub struct RecordSerializable {
    pub id: Vec<u8>,
    pub value: Vec<u8>,
    pub publisher: Option<Vec<u8>>,
    pub expires: Option<i64>,
}

impl View for RecordSerializable {
    type V = (Seq<u8>, Seq<u8>, Option<Seq<u8>>, Option<i64>);

    open spec fn view(&self) -> Self::V {
        (self.id@, self.value@, opt_bytes(self.publisher), self.expires)
    }
}

/// The stored form of a record written at `now`.
pub open spec fn record_to_row(r: (Seq<u8>, Seq<u8>, Option<Seq<u8>>, Option<u64>), now: u64)
    -> (Seq<u8>, Seq<u8>, Option<Seq<u8>>, Option<i64>) {
    (r.0, r.1, r.2, match r.3 {
        Some(d) => Some(seconds_left(d, now)),
        None => None,
    })
}

/// The record read back at `now` from its stored form.
pub open spec fn row_to_record(row: (Seq<u8>, Seq<u8>, Option<Seq<u8>>, Option<i64>), now: u64)
    -> (Seq<u8>, Seq<u8>, Option<Seq<u8>>, Option<u64>) {
    (row.0, row.1, row.2, match row.3 {
        Some(s) => Some(deadline_from(now, s)),
        None => None,
    })
}

fn copy_opt_bytes(o: &Option<Vec<u8>>) -> (r: Option<Vec<u8>>)
    ensures
        opt_bytes(r) == opt_bytes(*o),
{
    match o {
        Some(v) => Some(copy_bytes(v)),
        None => None,
    }
}

fn copy_bytes_list(v: &Vec<Vec<u8>>) -> (r: Vec<Vec<u8>>)
    ensures
        bytes_list(r@) == bytes_list(v@),
{
    let mut r: Vec<Vec<u8>> = Vec::new();
    let mut i: usize = 0;
    while i < v.len()
        invariant
            i <= v@.len(),
            bytes_list(r@) == bytes_list(v@.subrange(0, i as int)),
        decreases v.len() - i,
    {
        r.push(copy_bytes(&v[i]));
        proof {
            assert(bytes_list(v@.subrange(0, i + 1)) =~= bytes_list(v@.subrange(0, i as int)).push(v@[i as int]@));
        }
        i = i + 1;
        assert(bytes_list(r@) =~= bytes_list(v@.subrange(0, i as int)));
    }
    assert(v@.subrange(0, v@.len() as int) =~= v@);
    r
}

impl RecordSerializable {
    /// The stored form of a record written at `now`.
    pub fn from_record(record: DhtRecord, now: u64) -> (r: RecordSerializable)
        ensures
            r@ == record_to_row(record@, now),
    {
        let expires = match record.expires {
            Some(d) => Some(seconds_until(d, now)),
            None => None,
        };
        RecordSerializable { id: record.key, value: record.value, publisher: record.publisher, expires }
    }

    /// The record read back at `now`.
    pub fn to_record(&self, now: u64) -> (r: DhtRecord)
        ensures
            r@ == row_to_record(self@, now),
    {
        let expires = match self.expires {
            Some(s) => Some(convert_sec_to_instant(now, s)),
            None => None,
        };
        DhtRecord {
            key: copy_bytes(&self.id),
            value: copy_bytes(&self.value),
            publisher: copy_opt_bytes(&self.publisher),
            expires,
        }
    }
}

/// A provider record: `provider` (peer id bytes) can supply the value of
/// `key`, until an optional deadline, at the given addresses (each the bytes
/// of a multi-address in text form).
#[derive(Debug)]
pub struct ProviderRecord {
    pub key: Vec<u8>,
    pub provider: Vec<u8>,
    pub expires: Option<u64>,
    pub addresses: Vec<Vec<u8>>,
}

impl View for ProviderRecord {
    type V = (Seq<u8>, Seq<u8>, Option<u64>, Seq<Seq<u8>>);

    open spec fn view(&self) -> Self::V {
        (self.key@, self.provider@, self.expires, bytes_list(self.addresses@))
    }
}

/// A provider record as stored.
#[derive(Debug)]
pub struct ProviderRecordSerializable {
    pub id: Vec<u8>,
    pub provider: Vec<u8>,
    pub expires: Option<i64>,
    pub addresses: Vec<Vec<u8>>,
}

impl View for ProviderRecordSerializable {
    type V = (Seq<u8>, Seq<u8>, Option<i64>, Seq<Seq<u8>>);

    open spec fn view(&self) -> Self::V {
        (self.id@, self.provider@, self.expires, bytes_list(self.addresses@))
    }
}

/// The stored form of a provider record written at `now`.
pub open spec fn provider_to_row(r: (Seq<u8>, Seq<u8>, Option<u64>, Seq<Seq<u8>>), now: u64)
    -> (Seq<u8>, Seq<u8>, Option<i64>, Seq<Seq<u8>>) {
    (r.0, r.1, match r.2 {
        Some(d) => Some(seconds_left(d, now)),
        None => None,
    }, r.3)
}

/// The provider record read back at `now` from its stored form.
pub open spec fn row_to_provider(row: (Seq<u8>, Seq<u8>, Option<i64>, Seq<Seq<u8>>), now: u64)
    -> (Seq<u8>, Seq<u8>, Option<u64>, Seq<Seq<u8>>) {
    (row.0, row.1, match row.2 {
        Some(s) => Some(deadline_from(now, s)),
        None => None,
    }, row.3)
}

impl ProviderRecordSerializable {
    /// The stored form of a provider record written at `now`.
    pub fn from_record(record: ProviderRecord, now: u64) -> (r: ProviderRecordSerializable)
        ensures
            r@ == provider_to_row(record@, now),
    {
        let expires = match record.expires {
            Some(d) => Some(seconds_until(d, now)),
            None => None,
        };
        ProviderRecordSerializable { id: record.key, provider: record.provider, expires, addresses: record.addresses }
    }

    /// The provider record read back at `now`.
    pub fn to_record(&self, now: u64) -> (r: ProviderRecord)
        ensures
            r@ == row_to_provider(self@, now),
    {
        let expires = match self.expires {
            Some(s) => Some(convert_sec_to_instant(now, s)),
            None => None,
        };
        ProviderRecord {
            key: copy_bytes(&self.id),
            provider: copy_bytes(&self.provider),
            expires,
            addresses: copy_bytes_list(&self.addresses),
        }
    }
}

/// The view of a stored record row.
pub type RecordRow = (Seq<u8>, Seq<u8>, Option<Seq<u8>>, Option<i64>);

/// The view of a stored provider row.
pub type ProviderRow = (Seq<u8>, Seq<u8>, Option<i64>, Seq<Seq<u8>>);

/// A record row's key: the record key.
pub open spec fn record_key() -> spec_fn(RecordRow) -> Seq<u8> {
    |row: RecordRow| row.0
}

/// A provider row's key: the (record key, provider) pair.
pub open spec fn provider_key() -> spec_fn(ProviderRow) -> (Seq<u8>, Seq<u8>) {
    |row: ProviderRow| (row.0, row.1)
}

/// Whether some row of `s` has key `k`.
pub open spec fn has_record(s: Seq<RecordRow>, k: Seq<u8>) -> bool {
    has_key(s, record_key(), k)
}

/// The row of `s` with key `k` (meaningful where `has_record`).
pub open spec fn record_of(s: Seq<RecordRow>, k: Seq<u8>) -> RecordRow {
    entry_of(s, record_key(), k)
}

/// No two rows share a key.
pub open spec fn records_unique(s: Seq<RecordRow>) -> bool {
    keys_unique(s, record_key())
}

/// Whether some row of `s` says that `p` provides `k`.
pub open spec fn has_provider(s: Seq<ProviderRow>, k: Seq<u8>, p: Seq<u8>) -> bool {
    has_key(s, provider_key(), (k, p))
}

/// The row of `s` for the pair (`k`, `p`) (meaningful where `has_provider`).
pub open spec fn provider_of(s: Seq<ProviderRow>, k: Seq<u8>, p: Seq<u8>) -> ProviderRow {
    entry_of(s, provider_key(), (k, p))
}

/// No two rows share a (key, provider) pair.
pub open spec fn providers_unique(s: Seq<ProviderRow>) -> bool {
    keys_unique(s, provider_key())
}

/// Whether a provider row is for key `k`.
pub open spec fn for_key(k: Seq<u8>) -> spec_fn(ProviderRow) -> bool {
    |row: ProviderRow| row.0 == k
}

/// The rows of `s` for key `k`, in table order.
pub open spec fn providers_for(s: Seq<ProviderRow>, k: Seq<u8>) -> Seq<ProviderRow> {
    s.filter(for_key(k))
}

/// The views of a list of records.
pub open spec fn record_views(v: Seq<DhtRecord>) -> Seq<(Seq<u8>, Seq<u8>, Option<Seq<u8>>, Option<u64>)> {
    v.map_values(|x: DhtRecord| x@)
}

/// The views of a list of provider records.
pub open spec fn provider_views(v: Seq<ProviderRecord>) -> Seq<(Seq<u8>, Seq<u8>, Option<u64>, Seq<Seq<u8>>)> {
    v.map_values(|x: ProviderRecord| x@)
}

/// Records read back at `now`.
pub open spec fn read_records(s: Seq<RecordRow>, now: u64) -> Seq<(Seq<u8>, Seq<u8>, Option<Seq<u8>>, Option<u64>)> {
    s.map_values(|row: RecordRow| row_to_record(row, now))
}

/// Provider records read back at `now`.
pub open spec fn read_providers(s: Seq<ProviderRow>, now: u64) -> Seq<(Seq<u8>, Seq<u8>, Option<u64>, Seq<Seq<u8>>)> {
    s.map_values(|row: ProviderRow| row_to_provider(row, now))
}



/// Within the rows for one key, a provider appears at most once, and every
/// provider of that key appears.
pub proof fn lemma_providers_for(s: Seq<ProviderRow>, k: Seq<u8>)
    requires
        providers_unique(s),
    ensures
        forall|i: int, j: int|
            0 <= i < providers_for(s, k).len() && 0 <= j < providers_for(s, k).len() && i != j
                ==> (#[trigger] providers_for(s, k)[i]).1 != (#[trigger] providers_for(s, k)[j]).1,
        forall|i: int| 0 <= i < providers_for(s, k).len() ==> (#[trigger] providers_for(s, k)[i]).0 == k,
        forall|p: Seq<u8>| has_provider(s, k, p) ==> exists|i: int|
            0 <= i < providers_for(s, k).len() && (#[trigger] providers_for(s, k)[i]).1 == p,
    decreases s.len(),
{
    broadcast use vstd::seq_lib::group_filter_ensures;

    let pred = for_key(k);
    let f = providers_for(s, k);
    assert forall|p: Seq<u8>| has_provider(s, k, p) implies exists|i: int|
        0 <= i < f.len() && (#[trigger] f[i]).1 == p by {
        let a = choose|a: int| 0 <= a < s.len() && (#[trigger] s[a]).0 == k && s[a].1 == p;
        assert(pred(s[a]));
        assert(f.contains(s[a]));
        let i = choose|i: int| 0 <= i < f.len() && f[i] == s[a];
        assert(f[i].1 == p);
    }
    if s.len() > 0 {
        let t = s.drop_last();
        let x = s.last();
        assert(t.push(x) =~= s);
        assert(providers_unique(t)) by {
            assert forall|i: int, j: int| 0 <= i < t.len() && 0 <= j < t.len() && i != j
                implies (#[trigger] t[i]).0 != (#[trigger] t[j]).0 || t[i].1 != t[j].1 by {
                assert(t[i] == s[i] && t[j] == s[j]);
            }
        }
        lemma_providers_for(t, k);
        t.lemma_filter_push(x, pred);
        let g = providers_for(t, k);
        if pred(x) {
            assert(f == g.push(x));
            assert forall|i: int| 0 <= i < g.len() implies (#[trigger] g[i]).1 != x.1 by {
                assert(g.contains(g[i]));
                t.lemma_filter_contains_rev(pred, g[i]);
                let a = choose|a: int| 0 <= a < t.len() && t[a] == g[i];
                assert(s[a] == t[a]);
                assert(s[s.len() - 1] == x);
                assert(g[i].0 == k);
            }
            assert forall|i: int, j: int| 0 <= i < f.len() && 0 <= j < f.len() && i != j
                implies (#[trigger] f[i]).1 != (#[trigger] f[j]).1 by {
                if i < g.len() && j < g.len() {
                    assert(f[i] == g[i] && f[j] == g[j]);
                } else if i == g.len() {
                    assert(f[j] == g[j]);
                    assert(f[i] == x);
                } else {
                    assert(f[i] == g[i]);
                    assert(f[j] == x);
                }
            }
        } else {
            assert(f == g);
        }
    }
}

/// The DHT record and provider store: a table of records keyed by record
/// key, and a table of provider records keyed by (key, provider).
pub struct RedisRecordStore {
    records: Vec<RecordSerializable>,
    providers: Vec<ProviderRecordSerializable>,
}

impl RedisRecordStore {
    /// The stored record rows.
    pub closed spec fn record_rows(&self) -> Seq<RecordRow> {
        self.records@.map_values(|r: RecordSerializable| r@)
    }

    /// The stored provider rows.
    pub closed spec fn provider_rows(&self) -> Seq<ProviderRow> {
        self.providers@.map_values(|r: ProviderRecordSerializable| r@)
    }

    pub open spec fn wf(&self) -> bool {
        records_unique(self.record_rows()) && providers_unique(self.provider_rows())
    }

    pub fn new() -> (r: RedisRecordStore)
        ensures
            r.wf(),
            r.record_rows() == Seq::<RecordRow>::empty(),
            r.provider_rows() == Seq::<ProviderRow>::empty(),
    {
        let r = RedisRecordStore { records: Vec::new(), providers: Vec::new() };
        assert(r.record_rows() =~= Seq::<RecordRow>::empty());
        assert(r.provider_rows() =~= Seq::<ProviderRow>::empty());
        r
    }

    fn record_position(&self, key: &Vec<u8>) -> (r: Option<usize>)
        ensures
            r.is_none() == !has_record(self.record_rows(), key@),
            r.is_some() ==> r.unwrap() < self.record_rows().len() && self.record_rows()[r.unwrap() as int].0 == key@,
    {
        let mut i: usize = 0;
        while i < self.records.len()
            invariant
                i <= self.records@.len(),
                forall|j: int| 0 <= j < i ==> (#[trigger] self.record_rows()[j]).0 != key@,
            decreases self.records.len() - i,
        {
            assert(self.record_rows()[i as int] == self.records@[i as int]@);
            if same_bytes(&self.records[i].id, key) {
                return Some(i);
            }
            i = i + 1;
        }
        None
    }

    fn provider_position(&self, key: &Vec<u8>, provider: &Vec<u8>) -> (r: Option<usize>)
        ensures
            r.is_none() == !has_provider(self.provider_rows(), key@, provider@),
            r.is_some() ==> r.unwrap() < self.provider_rows().len()
                && self.provider_rows()[r.unwrap() as int].0 == key@
                && self.provider_rows()[r.unwrap() as int].1 == provider@,
    {
        let mut i: usize = 0;
        while i < self.providers.len()
            invariant
                i <= self.providers@.len(),
                forall|j: int| 0 <= j < i ==> (#[trigger] self.provider_rows()[j]).0 != key@
                    || self.provider_rows()[j].1 != provider@,
            decreases self.providers.len() - i,
        {
            assert(self.provider_rows()[i as int] == self.providers@[i as int]@);
            if same_bytes(&self.providers[i].id, key) && same_bytes(&self.providers[i].provider, provider) {
                return Some(i);
            }
            i = i + 1;
        }
        None
    }

    /// What holds of `get` on `st`.
    pub open spec fn get_post(st: Self, key: Seq<u8>, now: u64, r: Option<DhtRecord>) -> bool {
        &&& r.is_some() == has_record(st.record_rows(), key)
        &&& r.is_some() ==> r.unwrap()@ == row_to_record(record_of(st.record_rows(), key), now)
    }

    /// The record stored under `key`, read at `now`.
    pub fn get(&self, key: &Vec<u8>, now: u64) -> (r: Option<DhtRecord>)
        requires
            self.wf(),
        ensures
            Self::get_post(*self, key@, now, r),
    {
        match self.record_position(key) {
            Some(i) => {
                proof {
                    lemma_entry_at(self.record_rows(), record_key(), i as int);
                }
                Some(self.records[i].to_record(now))
            },
            None => None,
        }
    }

    /// What holds after `put` of `record` at `now`.
    pub open spec fn put_post(old: Self, new: Self, record: (Seq<u8>, Seq<u8>, Option<Seq<u8>>, Option<u64>), now: u64, r: Result<()>) -> bool {
        &&& new.wf()
        &&& r.is_ok()
        &&& new.provider_rows() == old.provider_rows()
        &&& has_record(new.record_rows(), record.0)
        &&& record_of(new.record_rows(), record.0) == record_to_row(record, now)
        &&& forall|k: Seq<u8>| k != record.0 ==> #[trigger] has_record(new.record_rows(), k) == has_record(old.record_rows(), k)
        &&& forall|k: Seq<u8>| k != record.0 && has_record(old.record_rows(), k)
                ==> #[trigger] record_of(new.record_rows(), k) == record_of(old.record_rows(), k)
    }

    /// Stores a record written at `now`; a record under the same key is
    /// replaced (last writer wins).
    pub fn put(&mut self, record: DhtRecord, now: u64) -> (r: Result<()>)
        requires
            old(self).wf(),
        ensures
            Self::put_post(*old(self), *final(self), record@, now, r),
    {
        let ghost rv = record@;
        let row = RecordSerializable::from_record(record, now);
        let ghost s = self.record_rows();
        let ghost x = record_to_row(rv, now);
        match self.record_position(&row.id) {
            Some(i) => {
                self.records.set(i, row);
                proof {
                    assert(self.record_rows() =~= s.update(i as int, x));
                    lemma_update(s, record_key(), i as int, x);
                }
            },
            None => {
                self.records.push(row);
                proof {
                    assert(self.record_rows() =~= s.push(x));
                    lemma_push(s, record_key(), x);
                }
            },
        }
        Ok(())
    }

    /// Deletes the record under `key`; deleting an absent one is no error.
    pub fn remove(&mut self, key: &Vec<u8>)
        requires
            old(self).wf(),
        ensures
            final(self).wf(),
            final(self).provider_rows() == old(self).provider_rows(),
            !has_record(final(self).record_rows(), key@),
            forall|k: Seq<u8>| k != key@ ==> #[trigger] has_record(final(self).record_rows(), k) == has_record(old(self).record_rows(), k),
            forall|k: Seq<u8>| k != key@ && has_record(old(self).record_rows(), k)
                ==> #[trigger] record_of(final(self).record_rows(), k) == record_of(old(self).record_rows(), k),
    {
        let ghost s = self.record_rows();
        match self.record_position(key) {
            Some(i) => {
                self.records.remove(i);
                proof {
                    assert(self.record_rows() =~= s.remove(i as int));
                    lemma_remove(s, record_key(), i as int);
                }
            },
            None => {},
        }
    }

    /// Every stored record, read at `now`, in table order.
    pub fn records(&self, now: u64) -> (r: Vec<DhtRecord>)
        ensures
            record_views(r@) == read_records(self.record_rows(), now),
    {
        let mut out: Vec<DhtRecord> = Vec::new();
        let mut i: usize = 0;
        while i < self.records.len()
            invariant
                i <= self.records@.len(),
                record_views(out@) == read_records(self.record_rows().subrange(0, i as int), now),
            decreases self.records.len() - i,
        {
            assert(self.record_rows()[i as int] == self.records@[i as int]@);
            let ghost before = out@;
            out.push(self.records[i].to_record(now));
            proof {
                let rows = self.record_rows();
                assert(rows.subrange(0, i + 1) =~= rows.subrange(0, i as int).push(rows[i as int]));
                assert(record_views(out@) =~= record_views(before).push(out@[i as int]@));
                assert(read_records(rows.subrange(0, i + 1), now) =~= read_records(rows.subrange(0, i as int), now).push(row_to_record(rows[i as int], now)));
            }
            i = i + 1;
        }
        assert(self.record_rows().subrange(0, i as int) =~= self.record_rows());
        out
    }

    /// What holds after `add_provider` of `record` at `now`.
    pub open spec fn add_provider_post(old: Self, new: Self, record: (Seq<u8>, Seq<u8>, Option<u64>, Seq<Seq<u8>>), now: u64, r: Result<()>) -> bool {
        &&& new.wf()
        &&& r.is_ok()
        &&& new.record_rows() == old.record_rows()
        &&& has_provider(new.provider_rows(), record.0, record.1)
        &&& provider_of(new.provider_rows(), record.0, record.1) == provider_to_row(record, now)
        &&& forall|k: Seq<u8>, p: Seq<u8>| k != record.0 || p != record.1
                ==> #[trigger] has_provider(new.provider_rows(), k, p) == has_provider(old.provider_rows(), k, p)
        &&& forall|k: Seq<u8>, p: Seq<u8>| (k != record.0 || p != record.1) && has_provider(old.provider_rows(), k, p)
                ==> #[trigger] provider_of(new.provider_rows(), k, p) == provider_of(old.provider_rows(), k, p)
    }

    /// Stores a provider record written at `now`; the record of the same
    /// (key, provider) pair is replaced.
    pub fn add_provider(&mut self, record: ProviderRecord, now: u64) -> (r: Result<()>)
        requires
            old(self).wf(),
        ensures
            Self::add_provider_post(*old(self), *final(self), record@, now, r),
    {
        let ghost rv = record@;
        let row = ProviderRecordSerializable::from_record(record, now);
        let ghost s = self.provider_rows();
        let ghost x = provider_to_row(rv, now);
        match self.provider_position(&row.id, &row.provider) {
            Some(i) => {
                self.providers.set(i, row);
                proof {
                    assert(self.provider_rows() =~= s.update(i as int, x));
                    lemma_update(s, provider_key(), i as int, x);
                }
            },
            None => {
                self.providers.push(row);
                proof {
                    assert(self.provider_rows() =~= s.push(x));
                    lemma_push(s, provider_key(), x);
                }
            },
        }
        Ok(())
    }

    /// The provider records of `key`, read at `now`, in table order.
    pub fn providers(&self, key: &Vec<u8>, now: u64) -> (r: Vec<ProviderRecord>)
        ensures
            provider_views(r@) == read_providers(providers_for(self.provider_rows(), key@), now),
    {
        let ghost rows = self.provider_rows();
        let mut out: Vec<ProviderRecord> = Vec::new();
        let mut i: usize = 0;
        while i < self.providers.len()
            invariant
                rows == self.provider_rows(),
                i <= self.providers@.len(),
                provider_views(out@) == read_providers(providers_for(rows.subrange(0, i as int), key@), now),
            decreases self.providers.len() - i,
        {
            assert(rows[i as int] == self.providers@[i as int]@);
            proof {
                assert(rows.subrange(0, i + 1) =~= rows.subrange(0, i as int).push(rows[i as int]));
                rows.subrange(0, i as int).lemma_filter_push(rows[i as int], for_key(key@));
            }
            if same_bytes(&self.providers[i].id, key) {
                let ghost before = out@;
                out.push(self.providers[i].to_record(now));
                proof {
                    let f = providers_for(rows.subrange(0, i as int), key@);
                    assert(providers_for(rows.subrange(0, i + 1), key@) == f.push(rows[i as int]));
                    assert(provider_views(out@) =~= provider_views(before).push(out@[before.len() as int]@));
                    assert(read_providers(f.push(rows[i as int]), now) =~= read_providers(f, now).push(row_to_provider(rows[i as int], now)));
                }
            } else {
                assert(providers_for(rows.subrange(0, i + 1), key@) == providers_for(rows.subrange(0, i as int), key@));
            }
            i = i + 1;
        }
        assert(rows.subrange(0, i as int) =~= rows);
        out
    }

    /// Every stored provider record, read at `now`, in table order.
    pub fn provided(&self, now: u64) -> (r: Vec<ProviderRecord>)
        ensures
            provider_views(r@) == read_providers(self.provider_rows(), now),
    {
        let mut out: Vec<ProviderRecord> = Vec::new();
        let mut i: usize = 0;
        while i < self.providers.len()
            invariant
                i <= self.providers@.len(),
                provider_views(out@) == read_providers(self.provider_rows().subrange(0, i as int), now),
            decreases self.providers.len() - i,
        {
            assert(self.provider_rows()[i as int] == self.providers@[i as int]@);
            let ghost before = out@;
            out.push(self.providers[i].to_record(now));
            proof {
                let rows = self.provider_rows();
                assert(rows.subrange(0, i + 1) =~= rows.subrange(0, i as int).push(rows[i as int]));
                assert(provider_views(out@) =~= provider_views(before).push(out@[i as int]@));
                assert(read_providers(rows.subrange(0, i + 1), now) =~= read_providers(rows.subrange(0, i as int), now).push(row_to_provider(rows[i as int], now)));
            }
            i = i + 1;
        }
        assert(self.provider_rows().subrange(0, i as int) =~= self.provider_rows());
        out
    }

    /// Deletes the record saying that `provider` provides `key`; deleting an
    /// absent one is no error.
    pub fn remove_provider(&mut self, key: &Vec<u8>, provider: &Vec<u8>)
        requires
            old(self).wf(),
        ensures
            final(self).wf(),
            final(self).record_rows() == old(self).record_rows(),
            !has_provider(final(self).provider_rows(), key@, provider@),
            forall|k: Seq<u8>, p: Seq<u8>| k != key@ || p != provider@
                ==> #[trigger] has_provider(final(self).provider_rows(), k, p) == has_provider(old(self).provider_rows(), k, p),
            forall|k: Seq<u8>, p: Seq<u8>| (k != key@ || p != provider@) && has_provider(old(self).provider_rows(), k, p)
                ==> #[trigger] provider_of(final(self).provider_rows(), k, p) == provider_of(old(self).provider_rows(), k, p),
    {
        let ghost s = self.provider_rows();
        match self.provider_position(key, provider) {
            Some(i) => {
                self.providers.remove(i);
                proof {
                    assert(self.provider_rows() =~= s.remove(i as int));
                    lemma_remove(s, provider_key(), i as int);
                }
            },
            None => {},
        }
    }
}

/// A record written with `put` and read with `get` under the same key comes
/// back with the same key, value and publisher; without expiry it has none,
/// and one that had not expired when written has a deadline after the read
/// (on a clock that has not reached its largest value).
pub proof fn law_put_get_round_trip(
    st0: RedisRecordStore,
    st1: RedisRecordStore,
    record: (Seq<u8>, Seq<u8>, Option<Seq<u8>>, Option<u64>),
    written_at: u64,
    put: Result<()>,
    read_at: u64,
    got: Option<DhtRecord>,
)
    requires
        st0.wf(),
        RedisRecordStore::put_post(st0, st1, record, written_at, put),
        RedisRecordStore::get_post(st1, record.0, read_at, got),
    ensures
        got.is_some(),
        got.unwrap()@.0 == record.0,
        got.unwrap()@.1 == record.1,
        got.unwrap()@.2 == record.2,
        record.3 is None ==> got.unwrap()@.3 is None,
        record.3 is Some && record.3->0 > written_at && read_at < u64::MAX
            ==> got.unwrap()@.3 is Some && got.unwrap()@.3->0 > read_at,
{
}

/// Adding the same (key, provider) pair twice leaves that provider listed
/// exactly once among the providers of the key.
pub proof fn law_provider_listed_once(
    st0: RedisRecordStore,
    st1: RedisRecordStore,
    st2: RedisRecordStore,
    first: (Seq<u8>, Seq<u8>, Option<u64>, Seq<Seq<u8>>),
    first_at: u64,
    r1: Result<()>,
    second: (Seq<u8>, Seq<u8>, Option<u64>, Seq<Seq<u8>>),
    second_at: u64,
    r2: Result<()>,
    read_at: u64,
    listed: Seq<(Seq<u8>, Seq<u8>, Option<u64>, Seq<Seq<u8>>)>,
)
    requires
        st0.wf(),
        first.0 == second.0,
        first.1 == second.1,
        RedisRecordStore::add_provider_post(st0, st1, first, first_at, r1),
        RedisRecordStore::add_provider_post(st1, st2, second, second_at, r2),
        listed == read_providers(providers_for(st2.provider_rows(), first.0), read_at),
    ensures
        exists|i: int| 0 <= i < listed.len() && listed[i].1 == first.1
            && forall|j: int| 0 <= j < listed.len() && j != i ==> (#[trigger] listed[j]).1 != first.1,
{
    let f = providers_for(st2.provider_rows(), first.0);
    lemma_providers_for(st2.provider_rows(), first.0);
    let i = choose|i: int| 0 <= i < f.len() && (#[trigger] f[i]).1 == first.1;
    assert(listed[i].1 == f[i].1);
    assert forall|j: int| 0 <= j < listed.len() && j != i implies (#[trigger] listed[j]).1 != first.1 by {
        assert(listed[j].1 == f[j].1);
    }
}

} // verus!
