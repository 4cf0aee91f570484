use vstd::prelude::*;
use crate::http::{status_number, StatusCode};
use crate::path::params_view;
use crate::response::{headers_view, without_name, ResponseWriter};
use crate::router::{route_view, Router};
use crate::types::{method_name, Method};

verus! {

/// Where a request stands in the pipeline.
#[derive(Clone, Copy, Debug, PartialEq, Eq, Structural)]
pub enum Stage {
    /// Middleware is running; the handler has not been reached.
    Middleware,
    /// The handler has been started.
    Handler,
    /// The error handler has been started.
    ErrorHandler,
    /// Nothing is left to run.
    Done,
}

/// What the caller must do next for a request.
pub enum Action {
    /// Run the middleware with this identifier.
    RunMiddleware(usize),
    /// Set the route parameters and run the handler with this identifier.
    RunHandler(usize),
    /// Run the error handler with this message.
    RunErrorHandler(String),
    /// Produce the response.
    Finish,
}

/// The abstract step that an action stands for.
pub enum Act {
    /// The middleware at this position of the collected list.
    Middleware(nat),
    Handler,
    ErrorHandler,
    Finish,
}

/// The part of a pipeline's state that decides its next step.
pub struct PipelineState {
    pub mw_len: nat,
    pub has_route: bool,
    pub next: nat,
    pub stage: Stage,
}

/// One step of the pipeline, given whether the response carries the error
/// flag after the previous step.
pub open spec fn step_spec(s: PipelineState, has_error: bool) -> (PipelineState, Act) {
    match s.stage {
        Stage::Middleware => if has_error {
            (PipelineState { stage: Stage::ErrorHandler, ..s }, Act::ErrorHandler)
        } else if s.next < s.mw_len {
            (PipelineState { next: s.next + 1, ..s }, Act::Middleware(s.next))
        } else if s.has_route {
            (PipelineState { stage: Stage::Handler, ..s }, Act::Handler)
        } else {
            (PipelineState { stage: Stage::ErrorHandler, ..s }, Act::ErrorHandler)
        },
        Stage::Handler => if has_error {
            (PipelineState { stage: Stage::ErrorHandler, ..s }, Act::ErrorHandler)
        } else {
            (PipelineState { stage: Stage::Done, ..s }, Act::Finish)
        },
        _ => (PipelineState { stage: Stage::Done, ..s }, Act::Finish),
    }
}

/// The acts produced by a run of steps, one per error flag in `errs`.
pub open spec fn run_spec(s: PipelineState, errs: Seq<bool>) -> Seq<Act>
    decreases errs.len(),
{
    if errs.len() == 0 {
        Seq::empty()
    } else {
        let (s2, a) = step_spec(s, errs[0]);
        seq![a] + run_spec(s2, errs.drop_first())
    }
}

/// Message of the not-found condition for a request.
pub open spec fn not_found_message(m: Method, path: Seq<char>) -> Seq<char> {
    "Not Found "@ + method_name(m) + " "@ + path
}

/// The not-found message of a request names it: after `Not Found ` come the
/// method, a space and the path.
pub proof fn lemma_not_found_names_request(m: Method, path: Seq<char>)
    ensures
        not_found_message(m, path).subrange(10, not_found_message(m, path).len() as int)
            == method_name(m) + " "@ + path,
{
    reveal_strlit("Not Found ");
    assert(not_found_message(m, path).subrange(10, not_found_message(m, path).len() as int)
        =~= method_name(m) + " "@ + path);
}

/// A request that no route serves: when no middleware fails, each remaining
/// middleware runs in order and then the error handler, and no handler ever
/// runs (the step that asks for the error handler marks the response `404`
/// with the not-found message).
pub proof fn lemma_unrouted_request(s: PipelineState, errs: Seq<bool>)
    requires
        s.stage == Stage::Middleware,
        !s.has_route,
        s.next <= s.mw_len,
        errs.len() == s.mw_len - s.next + 1,
        forall|i: int| 0 <= i < errs.len() ==> !#[trigger] errs[i],
    ensures
        run_spec(s, errs).len() == errs.len(),
        forall|i: int| 0 <= i < errs.len() - 1 ==> #[trigger] run_spec(s, errs)[i] == Act::Middleware(s.next + i as nat),
        run_spec(s, errs)[errs.len() - 1] == Act::ErrorHandler,
    decreases errs.len(),
{
    let (s2, a) = step_spec(s, errs[0]);
    assert(!errs[0]);
    if s.next < s.mw_len {
        let rest = errs.drop_first();
        assert forall|i: int| 0 <= i < rest.len() implies !#[trigger] rest[i] by {
            assert(rest[i] == errs[i + 1]);
        }
        lemma_unrouted_request(s2, rest);
        assert forall|i: int| 0 <= i < errs.len() - 1 implies #[trigger] run_spec(s, errs)[i] == Act::Middleware(s.next + i as nat) by {
            if i > 0 {
                assert(run_spec(s, errs)[i] == run_spec(s2, rest)[i - 1]);
            }
        }
        assert(run_spec(s, errs)[errs.len() - 1] == run_spec(s2, rest)[rest.len() - 1]);
    } else {
        assert(errs.drop_first().len() == 0);
        assert(run_spec(s, errs) =~= seq![Act::ErrorHandler]);
    }
}

/// Once a step reports the error flag while middleware runs, the error
/// handler runs next and after it nothing else: no further middleware and no
/// handler.
pub proof fn lemma_error_stops_pipeline(s: PipelineState, errs: Seq<bool>)
    requires
        s.stage == Stage::Middleware,
        errs.len() > 0,
        errs[0],
    ensures
        run_spec(s, errs).len() == errs.len(),
        run_spec(s, errs)[0] == Act::ErrorHandler,
        forall|i: int| 1 <= i < errs.len() ==> #[trigger] run_spec(s, errs)[i] == Act::Finish,
{
    let (s2, a) = step_spec(s, errs[0]);
    assert(s2.stage == Stage::ErrorHandler);
    lemma_finished_only(s2, errs.drop_first());
    assert forall|i: int| 1 <= i < errs.len() implies #[trigger] run_spec(s, errs)[i] == Act::Finish by {
        assert(run_spec(s, errs)[i] == run_spec(s2, errs.drop_first())[i - 1]);
    }
}

/// When the middleware at position `k` of the remaining list is the first
/// to set the error flag, the middleware up to it runs once each in list
/// order, then the error handler, and after it nothing: no later middleware
/// and no handler.
pub proof fn lemma_failing_middleware(s: PipelineState, errs: Seq<bool>, k: nat)
    requires
        s.stage == Stage::Middleware,
        s.next + k < s.mw_len,
        k + 1 < errs.len(),
        forall|j: int| 0 <= j <= k ==> !#[trigger] errs[j],
        errs[k + 1 as int],
    ensures
        run_spec(s, errs).len() == errs.len(),
        forall|j: int| 0 <= j <= k ==> #[trigger] run_spec(s, errs)[j] == Act::Middleware(s.next + j as nat),
        run_spec(s, errs)[k + 1 as int] == Act::ErrorHandler,
        forall|t: int| k + 1 < t < errs.len() ==> #[trigger] run_spec(s, errs)[t] == Act::Finish,
    decreases k,
{
    let (s2, a) = step_spec(s, errs[0]);
    assert(!errs[0]);
    let rest = errs.drop_first();
    if k == 0 {
        assert(rest[0] == errs[1]);
        lemma_error_stops_pipeline(s2, rest);
    } else {
        assert forall|j: int| 0 <= j <= k - 1 implies !#[trigger] rest[j] by {
            assert(rest[j] == errs[j + 1]);
        }
        assert(rest[k as int] == errs[k + 1 as int]);
        lemma_failing_middleware(s2, rest, (k - 1) as nat);
    }
    assert forall|j: int| 0 <= j <= k implies #[trigger] run_spec(s, errs)[j] == Act::Middleware(s.next + j as nat) by {
        if j > 0 {
            assert(run_spec(s, errs)[j] == run_spec(s2, rest)[j - 1]);
        }
    }
    assert(run_spec(s, errs)[k + 1 as int] == run_spec(s2, rest)[k as int]);
    assert forall|t: int| k + 1 < t < errs.len() implies #[trigger] run_spec(s, errs)[t] == Act::Finish by {
        assert(run_spec(s, errs)[t] == run_spec(s2, rest)[t - 1]);
    }
}

/// After the error handler has started, every step finishes.
pub proof fn lemma_finished_only(s: PipelineState, errs: Seq<bool>)
    requires
        s.stage == Stage::ErrorHandler || s.stage == Stage::Done,
    ensures
        run_spec(s, errs).len() == errs.len(),
        forall|i: int| 0 <= i < errs.len() ==> #[trigger] run_spec(s, errs)[i] == Act::Finish,
    decreases errs.len(),
{
    if errs.len() > 0 {
        let (s2, a) = step_spec(s, errs[0]);
        lemma_finished_only(s2, errs.drop_first());
        assert forall|i: int| 0 <= i < errs.len() implies #[trigger] run_spec(s, errs)[i] == Act::Finish by {
            if i > 0 {
                assert(run_spec(s, errs)[i] == run_spec(s2, errs.drop_first())[i - 1]);
            }
        }
    }
}

/// The decisions of the pipeline for one request: which middleware, handler
/// and error handler run, and in what order.
pub struct Pipeline {
    pub middleware: Vec<usize>,
    pub route: Option<(usize, Vec<(String, String)>)>,
    pub next: usize,
    pub stage: Stage,
    pub not_found: String,
}

impl Pipeline {
    /// The deciding part of the state.
    pub open spec fn state(&self) -> PipelineState {
        PipelineState {
            mw_len: self.middleware@.len(),
            has_route: self.route is Some,
            next: self.next as nat,
            stage: self.stage,
        }
    }

    /// The step counter stays within the middleware list.
    pub open spec fn wf(&self) -> bool {
        self.next <= self.middleware@.len()
    }

    /// Starts the pipeline for a request. `method` is the transport method
    /// normalized into the closed set, `None` when it was not recognized: the
    /// response is then `405` and nothing runs. Otherwise the applicable
    /// middleware and the best route are looked up.
    pub fn start(router: &Router, method: Option<Method>, path: &str, res: &mut ResponseWriter) -> (r: Pipeline)
        requires
            router.wf(),
        ensures
            r.wf(),
            r.next == 0,
            method is None ==> {
                &&& r.stage == Stage::Done
                &&& r.middleware@.len() == 0
                &&& r.route is None
                &&& final(res).status == StatusCode::MethodNotAllowed
                &&& final(res).body@ == "Method Not Allowed"@
                &&& final(res).has_error == old(res).has_error
                &&& final(res).headers == old(res).headers
            },
            method matches Some(m) ==> {
                &&& r.stage == Stage::Middleware
                &&& *final(res) == *old(res)
                &&& r.middleware@ == router.applicable_middleware(path@, m)
                &&& r.not_found@ == not_found_message(m, path@)
                &&& router.find_post(path@, m, route_view(r.route))
            },
    {
        match method {
            None => {
                res.status(StatusCode::MethodNotAllowed).send("Method Not Allowed");
                Pipeline {
                    middleware: Vec::new(),
                    route: None,
                    next: 0,
                    stage: Stage::Done,
                    not_found: String::new(),
                }
            },
            Some(m) => {
                let middleware = router.collect_middleware(path, m);
                let route = router.find(path, m);
                let mut not_found = String::from_str("Not Found ");
                not_found.append(m.as_str());
                not_found.append(" ");
                not_found.append(path);
                Pipeline { middleware, route, next: 0, stage: Stage::Middleware, not_found }
            },
        }
    }

    /// Decides the next step, given the response after the previous one.
    /// When no route matched, the response is marked as failed with `404`
    /// and the not-found message before the error handler is asked for.
    pub fn step(&mut self, res: &mut ResponseWriter) -> (r: Action)
        requires
            old(self).wf(),
        ensures
            final(self).wf(),
            final(self).state() == step_spec(old(self).state(), old(res).has_error).0,
            act_matches(r, step_spec(old(self).state(), old(res).has_error).1),
            final(self).middleware == old(self).middleware,
            final(self).route == old(self).route,
            final(self).not_found == old(self).not_found,
            r matches Action::RunMiddleware(id) ==> id == old(self).middleware@[old(self).next as int],
            r matches Action::RunHandler(id) ==> old(self).route matches Some(rt) && id == rt.0,
            r matches Action::RunErrorHandler(msg) ==> msg@ == final(res).body@,
            old(self).stage == Stage::Middleware && !old(res).has_error && old(self).next
                == old(self).middleware@.len() && old(self).route is None ==> {
                &&& final(res).status == StatusCode::NotFound
                &&& final(res).body@ == old(self).not_found@
                &&& final(res).has_error
                &&& final(res).headers == old(res).headers
            },
            !(old(self).stage == Stage::Middleware && !old(res).has_error && old(self).next
                == old(self).middleware@.len() && old(self).route is None) ==> *final(res)
                == *old(res),
    {
        match self.stage {
            Stage::Middleware => {
                if res.has_error() {
                    self.stage = Stage::ErrorHandler;
                    Action::RunErrorHandler(res.body.clone())
                } else if self.next < self.middleware.len() {
                    let id = self.middleware[self.next];
                    self.next = self.next + 1;
                    Action::RunMiddleware(id)
                } else {
                    match &self.route {
                        Some(rt) => {
                            let id = rt.0;
                            self.stage = Stage::Handler;
                            Action::RunHandler(id)
                        },
                        None => {
                            res.error(StatusCode::NotFound, self.not_found.as_str());
                            self.stage = Stage::ErrorHandler;
                            Action::RunErrorHandler(res.body.clone())
                        },
                    }
                }
            },
            Stage::Handler => {
                if res.has_error() {
                    self.stage = Stage::ErrorHandler;
                    Action::RunErrorHandler(res.body.clone())
                } else {
                    self.stage = Stage::Done;
                    Action::Finish
                }
            },
            _ => {
                self.stage = Stage::Done;
                Action::Finish
            },
        }
    }

    /// The parameters captured by the chosen route; empty when none matched.
    pub fn params(&self) -> (r: Vec<(String, String)>)
        ensures
            self.route matches Some(rt) ==> params_view(r@) == params_view(rt.1@),
            self.route is None ==> r@.len() == 0,
    {
        match &self.route {
            Some(rt) => copy_params(&rt.1),
            None => Vec::new(),
        }
    }
}

/// Whether an action is of the kind of an abstract step.
pub open spec fn act_matches(a: Action, b: Act) -> bool {
    match a {
        Action::RunMiddleware(_) => b is Middleware,
        Action::RunHandler(_) => b is Handler,
        Action::RunErrorHandler(_) => b is ErrorHandler,
        Action::Finish => b is Finish,
    }
}

/// A copy of a parameter list.
pub fn copy_params(v: &Vec<(String, String)>) -> (r: Vec<(String, String)>)
    ensures
        params_view(r@) == params_view(v@),
{
    let mut out: Vec<(String, String)> = Vec::new();
    let mut i: usize = 0;
    while i < v.len()
        invariant
            i <= v@.len(),
            params_view(out@) == params_view(v@.take(i as int)),
        decreases v.len() - i,
    {
        let ghost before = out@;
        out.push((v[i].0.clone(), v[i].1.clone()));
        assert(params_view(out@) =~= params_view(before).push((v@[i as int].0@, v@[i as int].1@)));
        assert(v@.take(i + 1) =~= v@.take(i as int).push(v@[i as int]));
        assert(params_view(v@.take(i + 1)) =~= params_view(v@.take(i as int)).push((v@[i as int].0@, v@[i as int].1@)));
        i = i + 1;
    }
    assert(v@.take(v@.len() as int) =~= v@);
    out
}

} // verus!
