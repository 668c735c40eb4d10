//! The conversation with one client: what is answered at once, what is
//! passed on to the coordinator, and what waits until the client streams.

use crate::message::{Request, RequestModel, Response, ResponseModel};
use std::collections::VecDeque;
use vstd::prelude::*;

verus! {

/// The state of one connection, in mathematical form.
pub struct SessionModel {
    /// Whether the client wants to be told of devices and of the time left
    /// as they come.
    pub streaming: bool,
    /// The responses that wait for the client to stream, oldest first.
    pub waiting: Seq<ResponseModel>,
}

/// A connection that has just been accepted: not streaming, nothing waits.
pub open spec fn fresh() -> SessionModel {
    SessionModel { streaming: false, waiting: Seq::empty() }
}

/// Whether a response is held back while the client does not stream: the
/// arrival of a device and the time left are, everything else is not.
pub open spec fn deferrable(response: ResponseModel) -> bool {
    response is NewDevice || response is TimeLeft
}

/// The state after a request of the client.
pub open spec fn session_after_request(s: SessionModel, request: RequestModel) -> SessionModel {
    match request {
        RequestModel::StartStreaming => SessionModel { streaming: true, waiting: Seq::empty() },
        RequestModel::StopStreaming => SessionModel { streaming: false, ..s },
        _ => s,
    }
}

/// What is sent to the client on a request of its own: the answer to a
/// ping, or, when it starts to stream, all that has waited, oldest first.
pub open spec fn sent_on_request(s: SessionModel, request: RequestModel) -> Seq<ResponseModel> {
    match request {
        RequestModel::Ping => seq![ResponseModel::Pong],
        RequestModel::StartStreaming => s.waiting,
        _ => Seq::empty(),
    }
}

/// Whether a request is passed on to the coordinator: all but `Ping`,
/// `StartStreaming` and `StopStreaming` are.
pub open spec fn forwarded(request: RequestModel) -> bool {
    !(request is Ping || request is StartStreaming || request is StopStreaming)
}

/// The state after a response was broadcast.
pub open spec fn session_after_response(s: SessionModel, response: ResponseModel) -> SessionModel {
    if !s.streaming && deferrable(response) {
        SessionModel { waiting: s.waiting.push(response), ..s }
    } else {
        s
    }
}

/// What the connection does on a request of its client.
#[derive(Debug, PartialEq, Eq)]
pub struct Delivery {
    /// The responses to send to the client, in this order.
    pub send: Vec<Response>,
    /// The request to pass on to the coordinator, if any.
    pub forward: Option<Request>,
}

/// The state of one connection.
pub struct ClientSession {
    streaming: bool,
    unsent_events: VecDeque<Response>,
}

impl View for ClientSession {
    type V = SessionModel;

    closed spec fn view(&self) -> SessionModel {
        SessionModel {
            streaming: self.streaming,
            waiting: crate::message::responses_view(self.unsent_events@),
        }
    }
}

impl ClientSession {
    /// The state of a connection that has just been accepted.
    pub fn new() -> (r: Self)
        ensures
            r@ == fresh(),
    {
        let r = ClientSession { streaming: false, unsent_events: VecDeque::new() };
        assert(crate::message::responses_view(r.unsent_events@) =~= Seq::<ResponseModel>::empty());
        r
    }

    /// The client has sent a request.
    pub fn on_request(&mut self, request: Request) -> (r: Delivery)
        ensures
            final(self)@ == session_after_request(old(self)@, request@),
            crate::message::responses_view(r.send@) == sent_on_request(old(self)@, request@),
            match r.forward {
                Some(passed) => forwarded(request@) && passed@ == request@,
                None => !forwarded(request@),
            },
    {
        match request {
            Request::Ping => {
                let mut send: Vec<Response> = Vec::new();
                send.push(Response::Pong);
                proof {
                    assert(crate::message::responses_view(send@) =~= seq![ResponseModel::Pong]);
                }
                Delivery { send, forward: None }
            },
            Request::StartStreaming => {
                self.streaming = true;
                let mut send: Vec<Response> = Vec::new();
                let ghost waiting = crate::message::responses_view(self.unsent_events@);
                proof {
                    assert(crate::message::responses_view(send@) =~= waiting.take(0));
                    assert(self.unsent_events@.skip(0) =~= self.unsent_events@);
                }
                let ghost queued = self.unsent_events@;
                while self.unsent_events.len() > 0
                    invariant
                        self.streaming,
                        waiting == crate::message::responses_view(queued),
                        send@.len() <= queued.len(),
                        self.unsent_events@ == queued.skip(send@.len() as int),
                        crate::message::responses_view(send@) == waiting.take(send@.len() as int),
                    decreases self.unsent_events@.len(),
                {
                    let ghost sent = crate::message::responses_view(send@);
                    let ghost k = send@.len() as int;
                    match self.unsent_events.pop_front() {
                        Some(msg) => {
                            send.push(msg);
                            proof {
                                assert(msg == queued[k]);
                                assert(crate::message::responses_view(send@) =~= sent.push(msg@));
                                assert(waiting.take(k + 1) =~= waiting.take(k).push(waiting[k]));
                                assert(queued.skip(k).subrange(1, queued.skip(k).len() as int)
                                    =~= queued.skip(k + 1));
                            }
                        },
                        None => {},
                    }
                }
                proof {
                    assert(waiting.take(send@.len() as int) =~= waiting);
                    assert(crate::message::responses_view(self.unsent_events@) =~= Seq::<
                        ResponseModel,
                    >::empty());
                }
                Delivery { send, forward: None }
            },
            Request::StopStreaming => {
                self.streaming = false;
                let send: Vec<Response> = Vec::new();
                proof {
                    assert(crate::message::responses_view(send@) =~= Seq::<ResponseModel>::empty());
                }
                Delivery { send, forward: None }
            },
            other => {
                let send: Vec<Response> = Vec::new();
                proof {
                    assert(crate::message::responses_view(send@) =~= Seq::<ResponseModel>::empty());
                }
                Delivery { send, forward: Some(other) }
            },
        }
    }

    /// The coordinator has broadcast a response. It is returned if it is to
    /// be sent to the client now, and kept if it has to wait.
    pub fn on_response(&mut self, response: Response) -> (r: Option<Response>)
        ensures
            final(self)@ == session_after_response(old(self)@, response@),
            match r {
                Some(sent) => sent@ == response@ && (old(self)@.streaming || !deferrable(
                    response@,
                )),
                None => !old(self)@.streaming && deferrable(response@),
            },
    {
        let held = !self.streaming && match &response {
            Response::NewDevice(_) => true,
            Response::TimeLeft(_) => true,
            _ => false,
        };
        if held {
            let ghost before = crate::message::responses_view(self.unsent_events@);
            self.unsent_events.push_back(response);
            proof {
                assert(crate::message::responses_view(self.unsent_events@) =~= before.push(
                    response@,
                ));
            }
            None
        } else {
            Some(response)
        }
    }
}

} // verus!
