use vstd::prelude::*;

use crate::clients::Clients;
use crate::notifier::NotifierRegistry;

verus! {

/// The service object behind the HTTP surface: the two registries that
/// are mutated from outside the dispatcher's lane — by the engine's
/// callback context and by the request-handling pool. The transport layer
/// wraps it in its own exclusion mechanism and hands every handler shared
/// ownership of it.
pub struct AppState {
    pub clients: Clients,
    pub notifier: NotifierRegistry,
}

impl AppState {
    pub open spec fn wf(self) -> bool {
        &&& self.clients.wf()
        &&& self.notifier.wf()
    }

    /// A fresh service object with empty registries.
    pub fn new() -> (s: AppState)
        ensures
            s.wf(),
            s.clients.entries@.len() == 0,
            s.notifier.subs@.len() == 0,
    {
        AppState { clients: Clients::create(), notifier: NotifierRegistry::new() }
    }
}

/// The surface's content-type rule: the header must be present, and its
/// value must be the supported type exactly, or the supported type
/// followed by a `;` and whatever parameters.
pub open spec fn content_type_matches(supported: Seq<u8>, header: Option<Seq<u8>>) -> bool {
    match header {
        Option::None => false,
        Option::Some(v) => v == supported || (v.len() > supported.len()
            && v.take(supported.len() as int) == supported
            && v[supported.len() as int] == 59u8),
    }
}

/// Decides whether a request's content-type header (its raw bytes, absent
/// when the request carried none) satisfies the surface's rule; a request
/// it refuses is answered with a not-acceptable status before any engine
/// call is made.
pub fn content_type_ok(supported: &Vec<u8>, header: Option<&Vec<u8>>) -> (r: bool)
    ensures
        r == content_type_matches(
            supported@,
            match header {
                Option::None => Option::<Seq<u8>>::None,
                Option::Some(h) => Option::Some(h@),
            },
        ),
{
    match header {
        Option::None => false,
        Option::Some(h) => {
            let ns = supported.len();
            if h.len() < ns {
                proof {
                    assert(h@ != supported@);
                    if h@.len() > ns && h@.take(ns as int) == supported@ {
                        assert(false);
                    }
                }
                return false;
            }
            let mut i: usize = 0;
            while i < ns
                invariant
                    header == Option::Some(h),
                    ns == supported@.len(),
                    ns <= h@.len(),
                    i <= ns,
                    forall|j: int| 0 <= j < i ==> h@[j] == supported@[j],
                decreases ns - i,
            {
                if h[i] != supported[i] {
                    proof {
                        assert(h@[i as int] != supported@[i as int]);
                        if h@ == supported@ {
                            assert(h@[i as int] == supported@[i as int]);
                        }
                        if h@.len() > ns && h@.take(ns as int) == supported@ {
                            assert(h@.take(ns as int)[i as int] == h@[i as int]);
                            assert(h@.take(ns as int)[i as int] == supported@[i as int]);
                        }
                    }
                    return false;
                }
                i = i + 1;
            }
            if h.len() == ns {
                proof {
                    assert(h@ =~= supported@);
                }
                true
            } else {
                proof {
                    assert(h@.take(ns as int) =~= supported@);
                    assert(h@ != supported@);
                }
                h[ns] == 59u8
            }
        }
    }
}

/// Maps one control request's outcome to the status code the surface
/// answers with: a refused content type is not acceptable, refused before
/// any engine call; an engine or dispatch failure is an internal server
/// error; success is the created or ok code the endpoint calls for.
pub fn control_status(ct_ok: bool, succeeded: bool, created: bool) -> (code: u16)
    ensures
        !ct_ok ==> code == 406,
        ct_ok && !succeeded ==> code == 500,
        ct_ok && succeeded && created ==> code == 201,
        ct_ok && succeeded && !created ==> code == 200,
{
    if !ct_ok {
        406
    } else if !succeeded {
        500
    } else if created {
        201
    } else {
        200
    }
}

/// The wire event type of one update: the first full snapshot delivered on
/// attach is an `init` event, every later incremental delta an `update`
/// event.
pub fn event_name(is_initial: bool) -> (r: &'static str)
    ensures
        is_initial ==> r@ == "init"@,
        !is_initial ==> r@ == "update"@,
{
    if is_initial {
        "init"
    } else {
        "update"
    }
}

/// The body of a successful create response: the new instance id, put
/// under the configured resource prefix — `prefix/id` — when one is set,
/// and bare otherwise.
pub fn instance_location(prefix: Option<&Vec<u8>>, id: &Vec<u8>) -> (r: Vec<u8>)
    ensures
        match prefix {
            Option::None => r@ == id@,
            Option::Some(p) => r@ == p@ + seq![47u8] + id@,
        },
{
    let mut out: Vec<u8> = Vec::new();
    match prefix {
        Option::None => {
            out.extend_from_slice(id.as_slice());
            proof {
                assert(out@ =~= id@);
            }
        }
        Option::Some(p) => {
            out.extend_from_slice(p.as_slice());
            out.push(47u8);
            out.extend_from_slice(id.as_slice());
            proof {
                assert(out@ =~= p@ + seq![47u8] + id@);
            }
        }
    }
    out
}

} // verus!
