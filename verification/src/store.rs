//! An in-memory model of the time-indexed store.
//!
//! The store holds three tables (observations, forecasts, model
//! configurations) and one continuously-fed view over the observations.
//! Rows are append-only; row identifiers are assigned from a counter so
//! that identifiers are strictly monotonic in creation order, which is
//! what makes time-range reads sound without a secondary index.

use vstd::prelude::*;

use crate::{UnixSeconds, ValueBits};

verus! {

/// One stored observation: a past value of the target series.
pub struct ObservationRow {
    pub id: u64,
    pub model_id: u128,
    pub timestamp: UnixSeconds,
    pub target_column: String,
    pub value: ValueBits,
    pub additional_features: Vec<(String, String)>,
    pub created_at: UnixSeconds,
}

/// One stored forecast: a predicted value for a future instant.
pub struct ForecastRow {
    pub id: u64,
    pub model_id: u128,
    pub timestamp: UnixSeconds,
    pub target_column: String,
    pub predicted_value: ValueBits,
    pub confidence: ValueBits,
    pub created_at: UnixSeconds,
}

/// One stored model configuration. Re-registration appends a new row;
/// the current configuration is the most recently created row.
pub struct ConfigRow {
    pub id: u128,
    pub model_name: String,
    pub target_column: String,
    pub history_window: u32,
    pub forecast_horizon: u32,
    pub mindsdb_url: String,
    pub additional_params: Vec<(String, String)>,
    pub created_at: UnixSeconds,
    pub updated_at: UnixSeconds,
}

/// The state of the continuously-fed observations view.
pub enum ViewState {
    /// The view has not been created.
    Absent,
    /// The view consumes the full observation stream.
    Unfiltered,
    /// The view consumes only rows created at or after the instant.
    From(UnixSeconds),
}

/// What a time-windowed read returns for one row: the row's timestamp
/// and two further columns, all as plain numbers.
pub type RecentEntry = (UnixSeconds, ValueBits, ValueBits);

/// The in-memory time-indexed store.
pub struct TimeSeriesStore {
    pub data_table: bool,
    pub forecast_table: bool,
    pub config_table: bool,
    pub view: ViewState,
    pub observations: Vec<ObservationRow>,
    pub view_rows: Vec<u64>,
    pub forecasts: Vec<ForecastRow>,
    pub configs: Vec<ConfigRow>,
    pub next_row_id: u64,
}

impl TimeSeriesStore {
    /// All three tables of the schema exist.
    pub open spec fn all_tables_exist(self) -> bool {
        self.data_table && self.forecast_table && self.config_table
    }

    /// Whether the view, in its current state, consumes a row created
    /// at the given instant.
    pub open spec fn view_admits(self, created_at: UnixSeconds) -> bool {
        match self.view {
            ViewState::Absent => false,
            ViewState::Unfiltered => true,
            ViewState::From(cutover) => created_at >= cutover,
        }
    }

    /// Some stored observation carries this identifier and was created
    /// at an instant the view admits.
    pub open spec fn has_admitted_obs(self, id: u64) -> bool {
        exists|j: int|
            0 <= j < self.observations@.len() && (#[trigger] self.observations@[j]).id == id
                && self.view_admits(self.observations@[j].created_at)
    }

    /// Well-formedness: row identifiers are strictly increasing in
    /// creation order and below the counter, and every view row names
    /// an observation that the view's filter admits.
    pub open spec fn wf(self) -> bool {
        &&& forall|i: int, j: int|
            0 <= i < j < self.observations@.len() ==> #[trigger] self.observations@[i].id
                < #[trigger] self.observations@[j].id
        &&& forall|i: int|
            0 <= i < self.observations@.len() ==> #[trigger] self.observations@[i].id
                < self.next_row_id
        &&& forall|i: int, j: int|
            0 <= i < j < self.forecasts@.len() ==> #[trigger] self.forecasts@[i].id
                < #[trigger] self.forecasts@[j].id
        &&& forall|i: int|
            0 <= i < self.forecasts@.len() ==> #[trigger] self.forecasts@[i].id < self.next_row_id
        &&& forall|i: int|
            0 <= i < self.view_rows@.len() ==> self.has_admitted_obs(#[trigger] self.view_rows@[i])
    }

    /// An empty store: no tables, no view, no rows.
    pub fn new() -> (s: Self)
        ensures
            s.wf(),
            !s.data_table,
            !s.forecast_table,
            !s.config_table,
            s.view is Absent,
            s.observations@ == Seq::<ObservationRow>::empty(),
            s.view_rows@ == Seq::<u64>::empty(),
            s.forecasts@ == Seq::<ForecastRow>::empty(),
            s.configs@ == Seq::<ConfigRow>::empty(),
            s.next_row_id == 0,
    {
        TimeSeriesStore {
            data_table: false,
            forecast_table: false,
            config_table: false,
            view: ViewState::Absent,
            observations: Vec::new(),
            view_rows: Vec::new(),
            forecasts: Vec::new(),
            configs: Vec::new(),
            next_row_id: 0,
        }
    }

    /// Append one observation row. The row is assigned the next
    /// identifier, and its identifier is fed to the view exactly when
    /// the view's filter admits the row's creation instant.
    pub fn insert_observation(
        &mut self,
        model_id: u128,
        timestamp: UnixSeconds,
        target_column: String,
        value: ValueBits,
        additional_features: Vec<(String, String)>,
        created_at: UnixSeconds,
    ) -> (id: u64)
        requires
            old(self).wf(),
            old(self).next_row_id < u64::MAX,
        ensures
            final(self).wf(),
            id == old(self).next_row_id,
            final(self).next_row_id == old(self).next_row_id + 1,
            final(self).observations@ == old(self).observations@.push(
                (ObservationRow {
                    id: old(self).next_row_id,
                    model_id,
                    timestamp,
                    target_column,
                    value,
                    additional_features,
                    created_at,
                }),
            ),
            final(self).view_rows@ == if old(self).view_admits(created_at) {
                old(self).view_rows@.push(old(self).next_row_id)
            } else {
                old(self).view_rows@
            },
            final(self).forecasts@ == old(self).forecasts@,
            final(self).configs@ == old(self).configs@,
            final(self).data_table == old(self).data_table,
            final(self).forecast_table == old(self).forecast_table,
            final(self).config_table == old(self).config_table,
            final(self).view == old(self).view,
    {
        let id = self.next_row_id;
        let accepted = match &self.view {
            ViewState::Absent => false,
            ViewState::Unfiltered => true,
            ViewState::From(cutover) => created_at >= *cutover,
        };
        let row = ObservationRow {
            id,
            model_id,
            timestamp,
            target_column,
            value,
            additional_features,
            created_at,
        };
        self.observations.push(row);
        if accepted {
            self.view_rows.push(id);
        }
        self.next_row_id = id + 1;
        proof {
            assert forall|i: int, j: int|
                0 <= i < j < self.observations@.len() implies #[trigger] self.observations@[i].id
                < #[trigger] self.observations@[j].id by {
                if j < self.observations@.len() - 1 {
                    assert(old(self).observations@[i].id < old(self).observations@[j].id);
                }
            }
            assert forall|i: int|
                0 <= i < self.view_rows@.len() implies self.has_admitted_obs(
                #[trigger] self.view_rows@[i],
            ) by {
                if i < old(self).view_rows@.len() {
                    assert(old(self).has_admitted_obs(old(self).view_rows@[i]));
                    let j = choose|j: int|
                        0 <= j < old(self).observations@.len() && (#[trigger] old(
                            self,
                        ).observations@[j]).id == old(self).view_rows@[i] && old(self).view_admits(
                            old(self).observations@[j].created_at,
                        );
                    assert(self.observations@[j] == old(self).observations@[j]);
                } else {
                    let j = self.observations@.len() - 1;
                    assert((self.observations@[j]).id == self.view_rows@[i]);
                }
            }
        }
        id
    }

    /// Append one forecast row, assigned the next identifier.
    pub fn insert_forecast(
        &mut self,
        model_id: u128,
        timestamp: UnixSeconds,
        target_column: String,
        predicted_value: ValueBits,
        confidence: ValueBits,
        created_at: UnixSeconds,
    ) -> (id: u64)
        requires
            old(self).wf(),
            old(self).next_row_id < u64::MAX,
        ensures
            final(self).wf(),
            id == old(self).next_row_id,
            final(self).next_row_id == old(self).next_row_id + 1,
            final(self).forecasts@ == old(self).forecasts@.push(
                (ForecastRow {
                    id: old(self).next_row_id,
                    model_id,
                    timestamp,
                    target_column,
                    predicted_value,
                    confidence,
                    created_at,
                }),
            ),
            final(self).observations@ == old(self).observations@,
            final(self).view_rows@ == old(self).view_rows@,
            final(self).configs@ == old(self).configs@,
            final(self).data_table == old(self).data_table,
            final(self).forecast_table == old(self).forecast_table,
            final(self).config_table == old(self).config_table,
            final(self).view == old(self).view,
    {
        let id = self.next_row_id;
        let row = ForecastRow {
            id,
            model_id,
            timestamp,
            target_column,
            predicted_value,
            confidence,
            created_at,
        };
        self.forecasts.push(row);
        self.next_row_id = id + 1;
        proof {
            assert forall|i: int, j: int|
                0 <= i < j < self.forecasts@.len() implies #[trigger] self.forecasts@[i].id
                < #[trigger] self.forecasts@[j].id by {
                if j < self.forecasts@.len() - 1 {
                    assert(old(self).forecasts@[i].id < old(self).forecasts@[j].id);
                }
            }
            assert forall|i: int|
                0 <= i < self.view_rows@.len() implies self.has_admitted_obs(
                #[trigger] self.view_rows@[i],
            ) by {
                assert(old(self).has_admitted_obs(old(self).view_rows@[i]));
                let j = choose|j: int|
                    0 <= j < old(self).observations@.len() && (#[trigger] old(
                        self,
                    ).observations@[j]).id == old(self).view_rows@[i] && old(self).view_admits(
                        old(self).observations@[j].created_at,
                    );
                assert((self.observations@[j]).id == self.view_rows@[i]);
            }
        }
        id
    }

    /// Append one model-configuration row.
    pub fn insert_config(&mut self, row: ConfigRow)
        requires
            old(self).wf(),
        ensures
            final(self).wf(),
            final(self).configs@ == old(self).configs@.push(row),
            final(self).observations@ == old(self).observations@,
            final(self).view_rows@ == old(self).view_rows@,
            final(self).forecasts@ == old(self).forecasts@,
            final(self).next_row_id == old(self).next_row_id,
            final(self).data_table == old(self).data_table,
            final(self).forecast_table == old(self).forecast_table,
            final(self).config_table == old(self).config_table,
            final(self).view == old(self).view,
    {
        self.configs.push(row);
        proof {
            assert forall|i: int|
                0 <= i < self.view_rows@.len() implies self.has_admitted_obs(
                #[trigger] self.view_rows@[i],
            ) by {
                assert(old(self).has_admitted_obs(old(self).view_rows@[i]));
                let j = choose|j: int|
                    0 <= j < old(self).observations@.len() && (#[trigger] old(
                        self,
                    ).observations@[j]).id == old(self).view_rows@[i] && old(self).view_admits(
                        old(self).observations@[j].created_at,
                    );
                assert((self.observations@[j]).id == self.view_rows@[i]);
            }
        }
    }
}

/// The (timestamp, predicted value, confidence) triple of a forecast
/// row.
pub open spec fn forecast_entry(r: ForecastRow) -> RecentEntry {
    (r.timestamp, r.predicted_value, r.confidence)
}

/// The (timestamp, value, identifier) triple of an observation row.
pub open spec fn observation_entry(r: ObservationRow) -> RecentEntry {
    (r.timestamp, r.value, r.id)
}

/// Whether a forecast row belongs to the model and, when an oldest
/// admissible timestamp is given, is no older than it.
pub open spec fn forecast_matches(r: ForecastRow, model_id: u128, cutoff: Option<int>) -> bool {
    &&& r.model_id == model_id
    &&& match cutoff {
        None => true,
        Some(c) => r.timestamp >= c,
    }
}

/// The entries of the model's forecast rows that are no older than the
/// cutoff, in storage order.
pub open spec fn forecast_pool(s: Seq<ForecastRow>, model_id: u128, cutoff: Option<int>) -> Seq<
    RecentEntry,
>
    decreases s.len(),
{
    if s.len() == 0 {
        Seq::empty()
    } else {
        forecast_pool(s.drop_last(), model_id, cutoff) + if forecast_matches(
            s.last(),
            model_id,
            cutoff,
        ) {
            seq![forecast_entry(s.last())]
        } else {
            Seq::empty()
        }
    }
}

/// The entries of the model's observation rows, in storage order.
pub open spec fn observation_pool(s: Seq<ObservationRow>, model_id: u128) -> Seq<RecentEntry>
    decreases s.len(),
{
    if s.len() == 0 {
        Seq::empty()
    } else {
        observation_pool(s.drop_last(), model_id) + if s.last().model_id == model_id {
            seq![observation_entry(s.last())]
        } else {
            Seq::empty()
        }
    }
}

/// Entries ordered newest first.
pub open spec fn sorted_desc(s: Seq<RecentEntry>) -> bool {
    forall|i: int, j: int| 0 <= i <= j < s.len() ==> (#[trigger] s[i]).0 >= (#[trigger] s[j]).0
}

/// `r` holds `limit` of the pool's entries (or all of them, if fewer
/// exist), newest first: it is a sub-collection of the pool, ordered by
/// descending timestamp, and any pool entry left out is no newer than
/// any entry returned.
pub open spec fn is_top_of(r: Seq<RecentEntry>, pool: Seq<RecentEntry>, limit: int) -> bool {
    &&& r.len() == if pool.len() <= limit {
        pool.len() as int
    } else {
        limit
    }
    &&& sorted_desc(r)
    &&& forall|x: RecentEntry| #[trigger] r.to_multiset().count(x) <= pool.to_multiset().count(x)
    &&& forall|x: RecentEntry|
        pool.to_multiset().count(x) > #[trigger] r.to_multiset().count(x) ==> forall|i: int|
            0 <= i < r.len() ==> x.0 <= (#[trigger] r[i]).0
}

/// The oldest admissible timestamp, widened to mathematical integers.
pub open spec fn cutoff_spec(c: Option<i128>) -> Option<int> {
    match c {
        None => None,
        Some(x) => Some(x as int),
    }
}

impl TimeSeriesStore {
    /// Collect the entries of the model's forecast rows that are no
    /// older than the cutoff, in storage order.
    fn collect_forecasts(&self, model_id: u128, cutoff: Option<i128>) -> (r: Vec<RecentEntry>)
        ensures
            r@ == forecast_pool(self.forecasts@, model_id, cutoff_spec(cutoff)),
    {
        let mut r: Vec<RecentEntry> = Vec::new();
        let mut i: usize = 0;
        while i < self.forecasts.len()
            invariant
                i <= self.forecasts@.len(),
                r@ == forecast_pool(
                    self.forecasts@.subrange(0, i as int),
                    model_id,
                    cutoff_spec(cutoff),
                ),
            decreases self.forecasts@.len() - i,
        {
            let row = &self.forecasts[i];
            let keep = row.model_id == model_id && (match cutoff {
                None => true,
                Some(c) => (row.timestamp as i128) >= c,
            });
            proof {
                let pre = self.forecasts@.subrange(0, i + 1);
                assert(pre.drop_last() =~= self.forecasts@.subrange(0, i as int));
                assert(pre.last() == self.forecasts@[i as int]);
            }
            if keep {
                r.push((row.timestamp, row.predicted_value, row.confidence));
                proof {
                    assert(r@ =~= forecast_pool(
                        self.forecasts@.subrange(0, i + 1),
                        model_id,
                        cutoff_spec(cutoff),
                    ));
                }
            } else {
                proof {
                    assert(r@ =~= forecast_pool(
                        self.forecasts@.subrange(0, i + 1),
                        model_id,
                        cutoff_spec(cutoff),
                    ));
                }
            }
            i = i + 1;
        }
        proof {
            assert(self.forecasts@.subrange(0, self.forecasts@.len() as int) =~= self.forecasts@);
        }
        r
    }

    /// Collect the entries of the model's observation rows, in storage
    /// order.
    fn collect_observations(&self, model_id: u128) -> (r: Vec<RecentEntry>)
        ensures
            r@ == observation_pool(self.observations@, model_id),
    {
        let mut r: Vec<RecentEntry> = Vec::new();
        let mut i: usize = 0;
        while i < self.observations.len()
            invariant
                i <= self.observations@.len(),
                r@ == observation_pool(self.observations@.subrange(0, i as int), model_id),
            decreases self.observations@.len() - i,
        {
            let row = &self.observations[i];
            proof {
                let pre = self.observations@.subrange(0, i + 1);
                assert(pre.drop_last() =~= self.observations@.subrange(0, i as int));
                assert(pre.last() == self.observations@[i as int]);
            }
            if row.model_id == model_id {
                r.push((row.timestamp, row.value, row.id));
            }
            proof {
                assert(r@ =~= observation_pool(self.observations@.subrange(0, i + 1), model_id));
            }
            i = i + 1;
        }
        proof {
            assert(self.observations@.subrange(0, self.observations@.len() as int)
                =~= self.observations@);
        }
        r
    }

    /// Up to `limit` most recent forecast entries of the model, newest
    /// first.
    pub fn recent_forecasts(&self, model_id: u128, limit: usize) -> (r: Vec<RecentEntry>)
        ensures
            is_top_of(r@, forecast_pool(self.forecasts@, model_id, None), limit as int),
    {
        let pool = self.collect_forecasts(model_id, None);
        top_recent(pool, limit)
    }

    /// Up to `limit` most recent forecast entries of the model whose
    /// timestamp is at or after `cutoff`, newest first.
    pub fn recent_forecasts_no_older(&self, model_id: u128, limit: usize, cutoff: i128) -> (r: Vec<
        RecentEntry,
    >)
        ensures
            is_top_of(
                r@,
                forecast_pool(self.forecasts@, model_id, Some(cutoff as int)),
                limit as int,
            ),
    {
        let pool = self.collect_forecasts(model_id, Some(cutoff));
        top_recent(pool, limit)
    }

    /// Up to `limit` most recent observation entries of the model,
    /// newest first.
    pub fn recent_observations(&self, model_id: u128, limit: usize) -> (r: Vec<RecentEntry>)
        ensures
            is_top_of(r@, observation_pool(self.observations@, model_id), limit as int),
    {
        let pool = self.collect_observations(model_id);
        top_recent(pool, limit)
    }
}

/// The most recently created configuration row carrying the identifier;
/// on equal creation instants, the row appended later.
pub open spec fn latest_config_of(s: Seq<ConfigRow>, model_id: u128) -> Option<ConfigRow>
    decreases s.len(),
{
    if s.len() == 0 {
        None
    } else {
        let rest = latest_config_of(s.drop_last(), model_id);
        if s.last().id == model_id {
            match rest {
                None => Some(s.last()),
                Some(b) => if s.last().created_at >= b.created_at {
                    Some(s.last())
                } else {
                    Some(b)
                },
            }
        } else {
            rest
        }
    }
}

impl TimeSeriesStore {
    /// The current configuration row of the model: the most recently
    /// created row carrying its identifier, if any row does.
    pub fn latest_config(&self, model_id: u128) -> (r: Option<&ConfigRow>)
        ensures
            match r {
                None => latest_config_of(self.configs@, model_id) is None,
                Some(row) => latest_config_of(self.configs@, model_id) == Some(*row),
            },
    {
        let mut best: Option<usize> = None;
        let mut i: usize = 0;
        while i < self.configs.len()
            invariant
                i <= self.configs@.len(),
                match best {
                    None => latest_config_of(self.configs@.subrange(0, i as int), model_id)
                        is None,
                    Some(b) => b < i && latest_config_of(self.configs@.subrange(0, i as int), model_id)
                        == Some(self.configs@[b as int]),
                },
            decreases self.configs@.len() - i,
        {
            proof {
                let pre = self.configs@.subrange(0, i + 1);
                assert(pre.drop_last() =~= self.configs@.subrange(0, i as int));
                assert(pre.last() == self.configs@[i as int]);
            }
            if self.configs[i].id == model_id {
                let replace = match best {
                    None => true,
                    Some(b) => self.configs[i].created_at >= self.configs[b].created_at,
                };
                if replace {
                    best = Some(i);
                }
            }
            i = i + 1;
        }
        proof {
            assert(self.configs@.subrange(0, self.configs@.len() as int) =~= self.configs@);
        }
        match best {
            None => None,
            Some(b) => Some(&self.configs[b]),
        }
    }
}

/// Up to `limit` entries of the pool, newest first, chosen by repeated
/// extraction of a newest remaining entry.
fn top_recent(pool: Vec<RecentEntry>, limit: usize) -> (r: Vec<RecentEntry>)
    ensures
        is_top_of(r@, pool@, limit as int),
{
    let mut pool = pool;
    let ghost orig = pool@;
    let mut out: Vec<RecentEntry> = Vec::new();
    proof {
        broadcast use vstd::seq_lib::group_to_multiset_ensures;

        assert forall|y: RecentEntry| #[trigger] out@.to_multiset().count(y) == 0 by {
            assert(!out@.contains(y));
        }
        assert(out@.to_multiset().add(pool@.to_multiset()) =~= orig.to_multiset());
    }
    while out.len() < limit && pool.len() > 0
        invariant
            out@.len() + pool@.len() == orig.len(),
            out@.len() <= limit,
            out@.to_multiset().add(pool@.to_multiset()) =~= orig.to_multiset(),
            sorted_desc(out@),
            forall|x: RecentEntry|
                pool@.to_multiset().count(x) > 0 ==> forall|i: int|
                    0 <= i < out@.len() ==> x.0 <= (#[trigger] out@[i]).0,
        decreases pool@.len(),
    {
        let mut best: usize = 0;
        let mut k: usize = 1;
        while k < pool.len()
            invariant
                0 < pool@.len(),
                best < pool@.len(),
                k <= pool@.len(),
                forall|t: int| 0 <= t < k ==> (#[trigger] pool@[t]).0 <= pool@[best as int].0,
            decreases pool@.len() - k,
        {
            if pool[k].0 > pool[best].0 {
                best = k;
            }
            k = k + 1;
        }
        let ghost p0 = pool@;
        let ghost o0 = out@;
        let x = pool.remove(best);
        out.push(x);
        proof {
            broadcast use vstd::seq_lib::group_to_multiset_ensures;

            assert(p0.contains(x));
            assert(p0.to_multiset().count(x) > 0);
            assert(pool@.to_multiset() =~= p0.to_multiset().remove(x));
            assert(out@.to_multiset() =~= o0.to_multiset().insert(x));
            assert(out@.to_multiset().add(pool@.to_multiset()) =~= orig.to_multiset());
            assert forall|y: RecentEntry| pool@.to_multiset().count(y) > 0 implies forall|i: int|
                0 <= i < out@.len() ==> y.0 <= (#[trigger] out@[i]).0 by {
                assert(p0.to_multiset().count(y) > 0);
                assert(pool@.to_multiset().count(y) > 0 ==> pool@.contains(y));
                let t = choose|t: int| 0 <= t < pool@.len() && pool@[t] == y;
                assert(pool@ == p0.remove(best as int));
                assert(y.0 <= p0[best as int].0);
                assert forall|i: int| 0 <= i < out@.len() implies y.0 <= (#[trigger] out@[i]).0 by {
                    if i < o0.len() {
                        assert(y.0 <= o0[i].0);
                    } else {
                        assert(out@[i] == x);
                    }
                }
            }
            assert forall|i: int, j: int|
                0 <= i <= j < out@.len() implies (#[trigger] out@[i]).0 >= (#[trigger] out@[j]).0
            by {
                if j < o0.len() {
                    assert(o0[i].0 >= o0[j].0);
                } else if i < o0.len() {
                    assert(p0.to_multiset().count(x) > 0);
                    assert(x.0 <= o0[i].0);
                }
            }
        }
    }
    proof {
        broadcast use vstd::seq_lib::group_to_multiset_ensures;

        assert forall|x: RecentEntry| #[trigger] out@.to_multiset().count(x)
            <= orig.to_multiset().count(x) by {
            assert(out@.to_multiset().count(x) + pool@.to_multiset().count(x)
                == orig.to_multiset().count(x));
        }
        assert forall|x: RecentEntry|
            orig.to_multiset().count(x) > #[trigger] out@.to_multiset().count(x)
            implies forall|i: int| 0 <= i < out@.len() ==> x.0 <= (#[trigger] out@[i]).0 by {
            assert(pool@.to_multiset().count(x) > 0);
        }
    }
    out
}

/// An exact copy of a string.
pub fn clone_string(s: &String) -> (r: String)
    ensures
        r == s,
{
    s.clone()
}

/// Whether two string slices hold the same characters.
pub fn str_eq(a: &str, b: &str) -> (r: bool)
    ensures
        r == (a@ == b@),
{
    let x = a.to_owned();
    let y = b.to_owned();
    x == y
}

/// A copy of a list of string pairs, equal to its source pair for
/// pair.
pub fn clone_pairs(v: &Vec<(String, String)>) -> (r: Vec<(String, String)>)
    ensures
        r@ == v@,
{
    let mut r: Vec<(String, String)> = Vec::new();
    let mut i: usize = 0;
    while i < v.len()
        invariant
            i <= v.len(),
            r@ =~= v@.subrange(0, i as int),
        decreases v.len() - i,
    {
        let (k, val) = &v[i];
        r.push((k.clone(), val.clone()));
        proof {
            assert(r@.last() == v@[i as int]);
        }
        i = i + 1;
    }
    proof {
        assert(r@ =~= v@);
    }
    r
}

} // verus!
