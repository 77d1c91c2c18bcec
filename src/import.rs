use vstd::prelude::*;

use crate::descriptor::{ImportError, ImportRequest, MAX_PLANES};
use crate::feedback::Feedback;
use crate::handoff::{queued, DmabufImported};

verus! {

/// Why `req` is refused under `feedback`, or `None` when it is well formed.
pub open spec fn import_verdict(feedback: Feedback, req: ImportRequest) -> Option<ImportError> {
    if !req.planes_match() {
        Some(ImportError::PlaneCountMismatch)
    } else if req.n_planes > MAX_PLANES {
        Some(ImportError::TooManyPlanes)
    } else if !feedback.allows(req.fourcc, req.modifier) {
        Some(ImportError::UnsupportedFormat)
    } else {
        None
    }
}

/// The import feedback for one surface: the surface-specific feedback when
/// the caller supplies one, else the session-wide default.
pub fn surface_feedback<'a>(default: &'a Feedback, custom: Option<&'a Feedback>) -> (r: &'a Feedback)
    ensures
        custom is None ==> *r == *default,
        custom is Some ==> *r == *custom->Some_0,
{
    match custom {
        Some(f) => f,
        None => default,
    }
}

/// Checks an import request against the advertised feedback.
pub fn check_import(feedback: &Feedback, req: &ImportRequest) -> (r: Option<ImportError>)
    ensures
        r == import_verdict(*feedback, *req),
{
    if !(req.fds.len() == req.n_planes as usize && req.offsets.len() == req.n_planes as usize
        && req.strides.len() == req.n_planes as usize) {
        Some(ImportError::PlaneCountMismatch)
    } else if req.n_planes > MAX_PLANES {
        Some(ImportError::TooManyPlanes)
    } else if !feedback.supports(req.fourcc, req.modifier) {
        Some(ImportError::UnsupportedFormat)
    } else {
        None
    }
}

/// Handles one import request. A well-formed request becomes a descriptor on
/// the handoff channel, and only once it is queued is success returned; a
/// refused request queues nothing. The result is the acknowledgement owed to
/// the client.
pub fn import_buffer(chan: &mut DmabufImported, feedback: &Feedback, req: ImportRequest) -> (r: Result<(), ImportError>)
    ensures
        !req.planes_match() ==> r == Err::<(), ImportError>(ImportError::PlaneCountMismatch)
            && queued(*final(chan)) == queued(*old(chan)),
        import_verdict(*feedback, req) is Some ==> r == Err::<(), ImportError>(import_verdict(*feedback, req)->Some_0)
            && queued(*final(chan)) == queued(*old(chan)),
        import_verdict(*feedback, req) is None ==> r is Ok,
        r is Ok ==> queued(*final(chan)).len() == queued(*old(chan)).len() + 1
            && queued(*final(chan)).drop_last() == queued(*old(chan))
            && req.described_by(queued(*final(chan)).last()),
{
    match check_import(feedback, &req) {
        Some(e) => Err(e),
        None => {
            let ghost q0 = queued(*chan);
            let d = req.into_descriptor();
            let ghost dd = d;
            let _ = chan.send(d);
            assert(queued(*chan).drop_last() =~= q0);
            assert(queued(*chan).last() == dd);
            Ok(())
        },
    }
}

} // verus!
