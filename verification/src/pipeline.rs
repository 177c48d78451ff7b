//! The interceptor pipeline.
//!
//! A pipeline is an ordered interceptor sequence.  Pre-send hooks run in
//! registration order before the transport is invoked, and post-receive
//! hooks run in the *same* registration order afterwards — deliberately not
//! reversed, unlike classic onion middleware.  Both passes abort on the
//! first failure, wrapping it with the failing interceptor's name.
#![allow(unused_imports)]
use crate::descriptor::ReqModel;
use crate::descriptor::RequestDescriptor;
use crate::descriptor::RespModel;
use crate::descriptor::ResponseDescriptor;
use crate::error::HttpError;
use crate::middleware::middleware_name;
use crate::middleware::request_effect;
use crate::middleware::response_effect;
use crate::middleware::Middleware;
use crate::middleware::ReqOutcome;
use crate::middleware::RespOutcome;
use vstd::prelude::*;
use vstd::string::StringExecFns;

verus! {

/// What a whole pre-send pass does: the fully-decorated request, or the
/// state reached when an interceptor stopped the pass, with its name and
/// reason.
#[verifier::ext_equal]
pub enum PipeOutcome {
    Done(ReqModel),
    Stopped { state: ReqModel, name: Seq<char>, msg: Seq<char> },
}

/// What a whole post-receive pass does.
#[verifier::ext_equal]
pub enum RespPipeOutcome {
    Done(RespModel),
    Stopped { state: RespModel, name: Seq<char>, msg: Seq<char> },
}

/// The pre-send pass folded over the interceptors in registration order,
/// aborting at the first failure.
pub open spec fn pre_send_outcome(ms: Seq<Middleware>, d: ReqModel) -> PipeOutcome
    decreases ms.len(),
{
    if ms.len() == 0 {
        PipeOutcome::Done(d)
    } else {
        match request_effect(ms[0], d) {
            ReqOutcome::Done(d2) => pre_send_outcome(ms.drop_first(), d2),
            ReqOutcome::Stopped { state, msg } => PipeOutcome::Stopped {
                state,
                name: middleware_name(ms[0]),
                msg,
            },
        }
    }
}

/// The post-receive pass folded over the interceptors in the same
/// registration order.
pub open spec fn post_receive_outcome(ms: Seq<Middleware>, d: RespModel) -> RespPipeOutcome
    decreases ms.len(),
{
    if ms.len() == 0 {
        RespPipeOutcome::Done(d)
    } else {
        match response_effect(ms[0], d) {
            RespOutcome::Done(d2) => post_receive_outcome(ms.drop_first(), d2),
            RespOutcome::Stopped { state, msg } => RespPipeOutcome::Stopped {
                state,
                name: middleware_name(ms[0]),
                msg,
            },
        }
    }
}

/// Runs every pre-send hook in registration order, mutating the request in
/// place; aborts on the first failure and returns it wrapped with the
/// failing interceptor's name.  The transport must not be invoked when this
/// fails.
pub fn run_pre_send(middlewares: &Vec<Middleware>, request: &mut RequestDescriptor) -> (r: Result<
    (),
    HttpError,
>)
    ensures
        ({
            match pre_send_outcome(middlewares@, old(request)@) {
                PipeOutcome::Done(m) => r is Ok && final(request)@ == m,
                PipeOutcome::Stopped { state, name, msg } => (r matches Err(
                    HttpError::MiddlewareError(t),
                ) && t@ == name + ": "@ + msg) && final(request)@ == state,
            }
        }),
{
    let ghost orig = request@;
    let ghost ms = middlewares@;
    proof {
        assert(ms.skip(0) =~= ms);
    }
    let n = middlewares.len();
    let mut i: usize = 0;
    while i < n
        invariant
            i <= n,
            n == ms.len(),
            ms == middlewares@,
            orig == old(request)@,
            pre_send_outcome(ms, orig) == pre_send_outcome(ms.skip(i as int), request@),
        decreases n - i,
    {
        let ghost before = request@;
        proof {
            assert(ms.skip(i as int)[0] == ms[i as int]);
            assert(ms.skip(i as int).drop_first() =~= ms.skip(i + 1));
        }
        match middlewares[i].process_request(request) {
            Ok(_) => {},
            Err(e) => {
                match e {
                    HttpError::MiddlewareError(t) => {
                        let mut wrapped = middlewares[i].name().to_owned();
                        wrapped.append(": ");
                        wrapped.append(t.as_str());
                        return Err(HttpError::MiddlewareError(wrapped));
                    },
                    _ => {
                        proof {
                            assert(false);
                        }
                        return Err(e);
                    },
                }
            },
        }
        i = i + 1;
    }
    proof {
        assert(ms.skip(n as int) =~= Seq::<Middleware>::empty());
    }
    Ok(())
}

/// Runs every post-receive hook in the same registration order, mutating
/// the response in place; aborts on the first failure and returns it
/// wrapped with the failing interceptor's name, so the caller still holds
/// the already-received response.
pub fn run_post_receive(middlewares: &Vec<Middleware>, response: &mut ResponseDescriptor) -> (r:
    Result<(), HttpError>)
    ensures
        ({
            match post_receive_outcome(middlewares@, old(response)@) {
                RespPipeOutcome::Done(m) => r is Ok && final(response)@ == m,
                RespPipeOutcome::Stopped { state, name, msg } => (r matches Err(
                    HttpError::MiddlewareError(t),
                ) && t@ == name + ": "@ + msg) && final(response)@ == state,
            }
        }),
{
    let ghost orig = response@;
    let ghost ms = middlewares@;
    proof {
        assert(ms.skip(0) =~= ms);
    }
    let n = middlewares.len();
    let mut i: usize = 0;
    while i < n
        invariant
            i <= n,
            n == ms.len(),
            ms == middlewares@,
            orig == old(response)@,
            post_receive_outcome(ms, orig) == post_receive_outcome(ms.skip(i as int), response@),
        decreases n - i,
    {
        proof {
            assert(ms.skip(i as int)[0] == ms[i as int]);
            assert(ms.skip(i as int).drop_first() =~= ms.skip(i + 1));
        }
        match middlewares[i].process_response(response) {
            Ok(_) => {},
            Err(e) => {
                match e {
                    HttpError::MiddlewareError(t) => {
                        let mut wrapped = middlewares[i].name().to_owned();
                        wrapped.append(": ");
                        wrapped.append(t.as_str());
                        return Err(HttpError::MiddlewareError(wrapped));
                    },
                    _ => {
                        proof {
                            assert(false);
                        }
                        return Err(e);
                    },
                }
            },
        }
        i = i + 1;
    }
    proof {
        assert(ms.skip(n as int) =~= Seq::<Middleware>::empty());
    }
    Ok(())
}

/// Pipeline composition law: a pre-send pass over `ms1 + ms2` is the pass
/// over `ms1` followed — only when that completed — by the pass over
/// `ms2`.  In particular, once an interceptor of `ms1` stops the pass,
/// the outcome does not depend on `ms2` at all: no later hook runs.
pub proof fn lemma_pre_send_concat(ms1: Seq<Middleware>, ms2: Seq<Middleware>, d: ReqModel)
    ensures
        pre_send_outcome(ms1, d) matches PipeOutcome::Done(d1) ==> pre_send_outcome(ms1 + ms2, d)
            == pre_send_outcome(ms2, d1),
        pre_send_outcome(ms1, d) matches PipeOutcome::Stopped { state, name, msg }
            ==> pre_send_outcome(ms1 + ms2, d) == (PipeOutcome::Stopped { state, name, msg }),
    decreases ms1.len(),
{
    if ms1.len() == 0 {
        assert(ms1 + ms2 =~= ms2);
    } else {
        assert((ms1 + ms2)[0] == ms1[0]);
        assert((ms1 + ms2).drop_first() =~= ms1.drop_first() + ms2);
        match request_effect(ms1[0], d) {
            ReqOutcome::Done(d2) => {
                lemma_pre_send_concat(ms1.drop_first(), ms2, d2);
            },
            ReqOutcome::Stopped { state, msg } => {},
        }
    }
}

/// The same composition law for the post-receive pass.
pub proof fn lemma_post_receive_concat(ms1: Seq<Middleware>, ms2: Seq<Middleware>, d: RespModel)
    ensures
        post_receive_outcome(ms1, d) matches RespPipeOutcome::Done(d1) ==> post_receive_outcome(
            ms1 + ms2,
            d,
        ) == post_receive_outcome(ms2, d1),
        post_receive_outcome(ms1, d) matches RespPipeOutcome::Stopped { state, name, msg }
            ==> post_receive_outcome(ms1 + ms2, d) == (RespPipeOutcome::Stopped {
            state,
            name,
            msg,
        }),
    decreases ms1.len(),
{
    if ms1.len() == 0 {
        assert(ms1 + ms2 =~= ms2);
    } else {
        assert((ms1 + ms2)[0] == ms1[0]);
        assert((ms1 + ms2).drop_first() =~= ms1.drop_first() + ms2);
        match response_effect(ms1[0], d) {
            RespOutcome::Done(d2) => {
                lemma_post_receive_concat(ms1.drop_first(), ms2, d2);
            },
            RespOutcome::Stopped { state, msg } => {},
        }
    }
}

/// Pipeline order law, pre-send half: over interceptors registered as
/// `[a, b, c]` whose hooks all succeed, the pass applies a's effect first,
/// then b's, then c's — exactly registration order.
pub proof fn lemma_pre_send_order(
    a: Middleware,
    b: Middleware,
    c: Middleware,
    d0: ReqModel,
    d1: ReqModel,
    d2: ReqModel,
    d3: ReqModel,
)
    requires
        request_effect(a, d0) == ReqOutcome::Done(d1),
        request_effect(b, d1) == ReqOutcome::Done(d2),
        request_effect(c, d2) == ReqOutcome::Done(d3),
    ensures
        pre_send_outcome(seq![a, b, c], d0) == PipeOutcome::Done(d3),
{
    assert(seq![a, b, c].drop_first() =~= seq![b, c]);
    assert(seq![b, c].drop_first() =~= seq![c]);
    assert(seq![c].drop_first() =~= Seq::<Middleware>::empty());
    assert(pre_send_outcome(Seq::<Middleware>::empty(), d3) == PipeOutcome::Done(d3));
    assert(pre_send_outcome(seq![c], d2) == PipeOutcome::Done(d3));
    assert(pre_send_outcome(seq![b, c], d1) == PipeOutcome::Done(d3));
}

/// Pipeline order law, post-receive half: the response pass runs in the
/// same registration order `[a, b, c]`, not reversed.
pub proof fn lemma_post_receive_order(
    a: Middleware,
    b: Middleware,
    c: Middleware,
    r0: RespModel,
    r1: RespModel,
    r2: RespModel,
    r3: RespModel,
)
    requires
        response_effect(a, r0) == RespOutcome::Done(r1),
        response_effect(b, r1) == RespOutcome::Done(r2),
        response_effect(c, r2) == RespOutcome::Done(r3),
    ensures
        post_receive_outcome(seq![a, b, c], r0) == RespPipeOutcome::Done(r3),
{
    assert(seq![a, b, c].drop_first() =~= seq![b, c]);
    assert(seq![b, c].drop_first() =~= seq![c]);
    assert(seq![c].drop_first() =~= Seq::<Middleware>::empty());
    assert(post_receive_outcome(Seq::<Middleware>::empty(), r3) == RespPipeOutcome::Done(r3));
    assert(post_receive_outcome(seq![c], r2) == RespPipeOutcome::Done(r3));
    assert(post_receive_outcome(seq![b, c], r1) == RespPipeOutcome::Done(r3));
}

/// Pre-send abort law: if b's pre-send hook fails after a's succeeded, the
/// pass stops with b's name and reason in the state a left behind — c's
/// hook never runs, whatever c is, and the caller must not invoke the
/// transport.
pub proof fn lemma_pre_send_abort(
    a: Middleware,
    b: Middleware,
    c: Middleware,
    d0: ReqModel,
    d1: ReqModel,
    s: ReqModel,
    m: Seq<char>,
)
    requires
        request_effect(a, d0) == ReqOutcome::Done(d1),
        request_effect(b, d1) == (ReqOutcome::Stopped { state: s, msg: m }),
    ensures
        pre_send_outcome(seq![a, b, c], d0) == (PipeOutcome::Stopped {
            state: s,
            name: middleware_name(b),
            msg: m,
        }),
{
    assert(seq![a, b, c].drop_first() =~= seq![b, c]);
    assert(pre_send_outcome(seq![b, c], d1) == (PipeOutcome::Stopped {
        state: s,
        name: middleware_name(b),
        msg: m,
    }));
}

} // verus!
