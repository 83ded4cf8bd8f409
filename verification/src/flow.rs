use vstd::prelude::*;

use crate::session::{idle_session, spec_stop_record, TimerSession, TimerState};
use crate::store::{row_of, RecordStore, StorageError};
use crate::time::Timestamp;

verus! {

/// Why a stop did not persist a record: the session was not active, or
/// the storage layer failed after the session was already reset — in the
/// latter case the finalized record is lost, a known risk that is not
/// retried.
#[derive(Debug)]
pub enum StopError {
    NotActive,
    Storage(StorageError),
}

/// Finalize the active session at `now` and persist the record.  The
/// session is reset to idle whether or not persistence succeeds; the
/// store gains exactly the finalized record, as the newest row, on
/// success and is unchanged on failure.
pub fn stop_and_persist(
    session: &mut TimerSession,
    store: &mut RecordStore,
    now: &Timestamp,
) -> (r: Result<i64, StopError>)
    requires
        old(session).wf(),
        old(store).wf(),
        now.wf(),
        old(session)@.state == TimerState::Running ==> now.seconds
            >= old(session).last_start.seconds,
    ensures
        final(session).wf(),
        final(store).wf(),
        old(session)@.state == TimerState::Idle ==> (r matches Err(e) && (e matches
            StopError::NotActive)) && final(session)@ == old(session)@ && final(store).rows()
            == old(store).rows(),
        old(session)@.state != TimerState::Idle ==> final(session)@ == idle_session(),
        r matches Ok(id) ==> old(session)@.state != TimerState::Idle && final(store).rows()
            == old(store).rows().push(
            row_of(
                id as int,
                spec_stop_record(old(session)@, now.seconds as int, now.rfc3339@),
            ),
        ) && (forall|i: int|
            0 <= i < old(store).rows().len() ==> #[trigger] old(store).rows()[i].0 < id),
        r matches Err(e) && (e matches StopError::Storage(_)) ==> final(store).rows() == old(
            store,
        ).rows(),
        (r matches Err(StopError::NotActive)) <==> old(session)@.state == TimerState::Idle,
{
    match session.stop(now) {
        Err(_) => Err(StopError::NotActive),
        Ok(rec) => match store.insert(&rec) {
            Ok(id) => Ok(id),
            Err(e) => Err(StopError::Storage(e)),
        },
    }
}

} // verus!
