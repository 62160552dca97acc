//! Idempotent provisioning of the time-series schema.
//!
//! The migration creates the observations, forecasts and
//! model-configuration tables and a continuously-fed view over the
//! observations. On a non-clean start the view is given a cut-over: it
//! consumes only rows created at or after the provisioning instant
//! plus a grace period, so that rows written in the window between
//! table creation and view creation are not skipped, while the
//! historical backlog is not re-derived through the new pipeline.

use vstd::prelude::*;

use crate::UnixSeconds;
use crate::clock::now_unix_seconds;
use crate::error::ForecastError;
use crate::store::{TimeSeriesStore, ViewState};

verus! {

/// The grace period, in seconds, added to the provisioning instant to
/// absorb write races between table creation and view creation.
pub const VIEW_GRACE_SECONDS: i64 = 15;

/// The migration that provisions the time-series schema.
pub struct Migration0012 {
    /// True when no pre-existing data needs special handling, so the
    /// view may consume the full observation stream.
    pub clean_start: bool,
}

/// How a provisioning run at instant `now` transforms the store: the
/// full schema exists afterwards, the view is created once — filtered
/// from `now` plus the grace period on a non-clean start, unfiltered on
/// a clean start — and whatever already existed, rows included, is left
/// exactly as it was.
pub open spec fn provision_transition(
    pre: TimeSeriesStore,
    post: TimeSeriesStore,
    clean_start: bool,
    now: UnixSeconds,
) -> bool {
    post == (TimeSeriesStore {
        data_table: true,
        forecast_table: true,
        config_table: true,
        view: if pre.view is Absent {
            if clean_start {
                ViewState::Unfiltered
            } else {
                ViewState::From((now + VIEW_GRACE_SECONDS) as i64)
            }
        } else {
            pre.view
        },
        observations: pre.observations,
        view_rows: pre.view_rows,
        forecasts: pre.forecasts,
        configs: pre.configs,
        next_row_id: pre.next_row_id,
    })
}

impl Migration0012 {
    /// Whether the migration may run: the store must be reachable. The
    /// in-memory store always is, so this never fails.
    pub fn can_apply(&self, store: &TimeSeriesStore) -> (r: Result<(), ForecastError>)
        ensures
            r is Ok,
    {
        let _ = store;
        Ok(())
    }

    /// Whether the migration still needs to run: true exactly when some
    /// required table is missing.
    pub fn should_apply(&self, store: &TimeSeriesStore) -> (r: bool)
        ensures
            r == !store.all_tables_exist(),
    {
        !(store.data_table && store.forecast_table && store.config_table)
    }

    /// Whether the migration has succeeded: true exactly when nothing
    /// remains to apply.
    pub fn has_succeeded(&self, store: &TimeSeriesStore) -> (r: bool)
        ensures
            r == store.all_tables_exist(),
    {
        !self.should_apply(store)
    }

    /// Run the migration against the store, taking `now` as the
    /// provisioning instant. Creation is if-not-exists throughout:
    /// whatever part of the schema already exists is left as it is, so
    /// a store that was fully provisioned comes back unchanged.
    pub fn apply_at(&self, store: &mut TimeSeriesStore, now: UnixSeconds) -> (r: Result<
        (),
        ForecastError,
    >)
        requires
            old(store).wf(),
            now <= i64::MAX - VIEW_GRACE_SECONDS,
        ensures
            r is Ok,
            final(store).wf(),
            provision_transition(*old(store), *final(store), self.clean_start, now),
            old(store).all_tables_exist() && !(old(store).view is Absent) ==> *final(store)
                == *old(store),
    {
        let cutover = now + VIEW_GRACE_SECONDS;
        self.create_tables(store);
        match &store.view {
            ViewState::Absent => {
                if self.clean_start {
                    store.view = ViewState::Unfiltered;
                } else {
                    store.view = ViewState::From(cutover);
                }
            },
            _ => {},
        }
        proof {
            assert forall|i: int|
                0 <= i < store.view_rows@.len() implies store.has_admitted_obs(
                #[trigger] store.view_rows@[i],
            ) by {
                assert(old(store).has_admitted_obs(old(store).view_rows@[i]));
                let j = choose|j: int|
                    0 <= j < old(store).observations@.len() && (#[trigger] old(
                        store,
                    ).observations@[j]).id == old(store).view_rows@[i] && old(store).view_admits(
                        old(store).observations@[j].created_at,
                    );
                assert((store.observations@[j]).id == store.view_rows@[i]);
            }
        }
        Ok(())
    }

    /// Run the migration against the store at the current wall-clock
    /// instant. Fails only if the clock reports an instant too large
    /// for the cut-over arithmetic; the store is then left untouched.
    pub fn apply(&self, store: &mut TimeSeriesStore) -> (r: Result<(), ForecastError>)
        requires
            old(store).wf(),
        ensures
            final(store).wf(),
            r is Ok ==> exists|now: UnixSeconds|
                provision_transition(*old(store), *final(store), self.clean_start, now),
            r is Err ==> *final(store) == *old(store),
            old(store).all_tables_exist() && !(old(store).view is Absent) ==> r is Ok
                && *final(store) == *old(store),
    {
        let now = now_unix_seconds();
        if now > i64::MAX - VIEW_GRACE_SECONDS {
            if store.data_table && store.forecast_table && store.config_table {
                match &store.view {
                    ViewState::Absent => {},
                    _ => {
                        proof {
                            assert(provision_transition(
                                *old(store),
                                *store,
                                self.clean_start,
                                0,
                            ));
                        }
                        return Ok(());
                    },
                }
            }
            return Err(
                ForecastError::ProvisionFailure {
                    detail: "provisioning instant out of range".to_owned(),
                },
            );
        }
        let r = self.apply_at(store, now);
        proof {
            assert(provision_transition(*old(store), *store, self.clean_start, now));
        }
        r
    }

    /// The schema-drop script that undoes the migration. It does not
    /// attempt to preserve data.
    pub fn rollback_instructions(&self) -> (r: String)
        ensures
            r@ == (
            "DROP TABLE IF EXISTS TimeSeriesData;\nDROP TABLE IF EXISTS TimeSeriesForecast;\nDROP TABLE IF EXISTS TimeSeriesModelConfig;\nDROP VIEW IF EXISTS TimeSeriesDataByModelView;\n")@,
    {
        "DROP TABLE IF EXISTS TimeSeriesData;\nDROP TABLE IF EXISTS TimeSeriesForecast;\nDROP TABLE IF EXISTS TimeSeriesModelConfig;\nDROP VIEW IF EXISTS TimeSeriesDataByModelView;\n".to_owned()
    }

    /// Mark all three tables as existing, leaving everything else as it
    /// is.
    fn create_tables(&self, store: &mut TimeSeriesStore)
        ensures
            *final(store) == (TimeSeriesStore {
                data_table: true,
                forecast_table: true,
                config_table: true,
                view: old(store).view,
                observations: old(store).observations,
                view_rows: old(store).view_rows,
                forecasts: old(store).forecasts,
                configs: old(store).configs,
                next_row_id: old(store).next_row_id,
            }),
    {
        store.data_table = true;
        store.forecast_table = true;
        store.config_table = true;
    }
}

/// Law: provisioning is idempotent. One run establishes the full
/// schema, so nothing remains to apply afterwards, and a second run —
/// at any later instant — leaves the store exactly as the first run
/// left it.
pub proof fn lemma_provision_idempotent(
    s0: TimeSeriesStore,
    s1: TimeSeriesStore,
    s2: TimeSeriesStore,
    clean_start: bool,
    first_now: UnixSeconds,
    second_now: UnixSeconds,
)
    requires
        provision_transition(s0, s1, clean_start, first_now),
        provision_transition(s1, s2, clean_start, second_now),
    ensures
        s1.all_tables_exist(),
        s2 == s1,
{
}

/// Law: the cut-over bounds what the view consumes. After non-clean
/// provisioning at instant `now`, the view admits a row exactly when
/// the row was created at or after `now` plus the grace period; after
/// clean provisioning the view admits every row.
pub proof fn lemma_view_cutover(
    pre: TimeSeriesStore,
    post: TimeSeriesStore,
    clean_start: bool,
    now: UnixSeconds,
    created_at: UnixSeconds,
)
    requires
        provision_transition(pre, post, clean_start, now),
        pre.view is Absent,
        now <= i64::MAX - VIEW_GRACE_SECONDS,
    ensures
        !clean_start ==> (post.view_admits(created_at) <==> created_at >= now
            + VIEW_GRACE_SECONDS),
        clean_start ==> post.view_admits(created_at),
{
}

} // verus!
