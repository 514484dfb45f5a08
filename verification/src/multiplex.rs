//! Sharing one port between the static content and the remote procedure calls.

use vstd::prelude::*;
use vstd::string::*;
use vstd::utf8::*;

verus! {

/// The two services behind one port.
#[derive(Clone, Copy, Debug, PartialEq, Eq, Structural)]
pub enum Service {
    /// Static content.
    Rest,
    /// Remote procedure calls.
    Grpc,
}

/// Which of the two services have said that they can take a request.
#[derive(Clone, Copy, Debug, PartialEq, Eq, Structural)]
pub struct MultiplexService {
    /// Whether static content can be served.
    pub rest_ready: bool,
    /// Whether a remote procedure can be called.
    pub grpc_ready: bool,
}

impl MultiplexService {
    /// At first, as for every copy of the pair of services, neither has been asked.
    pub fn new() -> (readiness: Self)
        ensures
            readiness == (MultiplexService { rest_ready: false, grpc_ready: false }),
    {
        MultiplexService { rest_ready: false, grpc_ready: false }
    }

    /// Whether both services can take a request.
    pub open spec fn ready(self) -> bool {
        self.rest_ready && self.grpc_ready
    }

    /// Which service is to be asked next whether it can take a request, if any.
    pub fn next_to_poll(&self) -> (next: Option<Service>)
        ensures
            next == (if !self.rest_ready {
                Some(Service::Rest)
            } else if !self.grpc_ready {
                Some(Service::Grpc)
            } else {
                None
            }),
            next is None <==> self.ready(),
    {
        if !self.rest_ready {
            Some(Service::Rest)
        } else if !self.grpc_ready {
            Some(Service::Grpc)
        } else {
            None
        }
    }

    /// Takes note that a service can take a request.
    pub fn set_ready(&mut self, service: Service)
        ensures
            *final(self) == (match service {
                Service::Rest => MultiplexService { rest_ready: true, ..*old(self) },
                Service::Grpc => MultiplexService { grpc_ready: true, ..*old(self) },
            }),
    {
        match service {
            Service::Rest => {
                self.rest_ready = true;
            },
            Service::Grpc => {
                self.grpc_ready = true;
            },
        }
    }

    /// Hands a request to a service, which has to be asked again before the next. Both must have
    /// said that they can take one.
    pub fn dispatch(&mut self, is_grpc: bool) -> (service: Service)
        requires
            old(self).ready(),
        ensures
            service == (if is_grpc {
                Service::Grpc
            } else {
                Service::Rest
            }),
            *final(self) == (MultiplexService { rest_ready: is_grpc, grpc_ready: !is_grpc }),
    {
        if is_grpc {
            self.grpc_ready = false;
            Service::Grpc
        } else {
            self.rest_ready = false;
            Service::Rest
        }
    }
}

/// Whether a request is for a remote procedure call: its content type starts with the name of
/// that protocol.
pub fn is_grpc_request(content_type: Option<&[u8]>) -> (r: bool)
    ensures
        r == (match content_type {
            Some(bytes) => encode_utf8("application/grpc"@).is_prefix_of(bytes@),
            None => false,
        }),
{
    let bytes: &[u8] = match content_type {
        Some(bytes) => bytes,
        None => return false,
    };
    let want: &[u8] = "application/grpc".as_bytes();
    if want.len() > bytes.len() {
        return false;
    }
    let mut i: usize = 0;
    while i < want.len()
        invariant
            i <= want@.len() <= bytes@.len(),
            want@ == encode_utf8("application/grpc"@),
            content_type == Some(bytes),
            forall|j: int| 0 <= j < i ==> bytes@[j] == want@[j],
        decreases want@.len() - i,
    {
        if bytes[i] != want[i] {
            assert(bytes@.subrange(0, want@.len() as int)[i as int] != want@[i as int]);
            return false;
        }
        i = i + 1;
    }
    assert(bytes@.subrange(0, want@.len() as int) =~= want@);
    true
}

/// Asking the services as `next_to_poll` says makes both ready within two answers, and handing
/// out a request makes exactly one of them unready.
pub proof fn law_two_polls_make_ready(start: MultiplexService)
    ensures
        ({
            let first = if !start.rest_ready {
                MultiplexService { rest_ready: true, ..start }
            } else {
                MultiplexService { grpc_ready: true, ..start }
            };
            let second = if !first.rest_ready {
                MultiplexService { rest_ready: true, ..first }
            } else {
                MultiplexService { grpc_ready: true, ..first }
            };
            second.ready()
        }),
{
}

/// A request waits until both services can take one; then it goes to the one it is for, which has
/// to be asked again, while the other has not.
pub proof fn law_requests_go_to_their_service(
    fresh: MultiplexService,
    readiness: &mut MultiplexService,
    polled: Option<Service>,
    service: Service,
    dispatched: &mut MultiplexService,
    is_grpc: bool,
    chosen: Service,
    next: Option<Service>,
)
    requires
        call_ensures(MultiplexService::new, (), fresh),
        call_ensures(MultiplexService::next_to_poll, (&*old(readiness),), polled),
        call_ensures(MultiplexService::set_ready, (readiness, service), ()),
        old(dispatched).rest_ready && old(dispatched).grpc_ready,
        call_ensures(MultiplexService::dispatch, (dispatched, is_grpc), chosen),
        call_ensures(MultiplexService::next_to_poll, (&*final(dispatched),), next),
    ensures
        !fresh.rest_ready && !fresh.grpc_ready,
        polled is None <==> old(readiness).rest_ready && old(readiness).grpc_ready,
        polled == Some(Service::Rest) ==> !old(readiness).rest_ready,
        polled == Some(Service::Grpc) ==> !old(readiness).grpc_ready,
        service == Service::Rest ==> final(readiness).rest_ready && final(readiness).grpc_ready
            == old(readiness).grpc_ready,
        service == Service::Grpc ==> final(readiness).grpc_ready && final(readiness).rest_ready
            == old(readiness).rest_ready,
        chosen == Service::Grpc <==> is_grpc,
        next == Some(chosen),
{
}

/// A request is for a remote procedure exactly where its content type starts with the name of that
/// protocol, whatever follows.
pub proof fn law_content_type_decides(bytes: &[u8], rest: Seq<u8>, with: bool, without: bool)
    requires
        call_ensures(is_grpc_request, (Some(bytes),), with),
        call_ensures(is_grpc_request, (None::<&[u8]>,), without),
    ensures
        !without,
        bytes@ == encode_utf8("application/grpc"@) + rest ==> with,
        bytes@.len() < encode_utf8("application/grpc"@).len() ==> !with,
        with ==> forall|i: int|
            0 <= i < encode_utf8("application/grpc"@).len() ==> bytes@[i] == #[trigger] encode_utf8(
                "application/grpc"@,
            )[i],
{
    let want = encode_utf8("application/grpc"@);
    if bytes@ == want + rest {
        assert(want =~= bytes@.subrange(0, want.len() as int));
    }
}

} // verus!
