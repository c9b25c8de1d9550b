//! The middleware chain of one request, walked by index over the route's
//! combined middleware: which stage runs next when the current one
//! proceeds, and who receives a response when a stage comes back.
use vstd::prelude::*;

verus! {

/// What runs when a stage proceeds.
#[derive(Clone, Copy, PartialEq, Eq, Structural, Debug)]
pub enum Stage {
    /// The middleware at this position of the combined list.
    Middleware(usize),
    /// The route's handler.
    Handler,
}

/// Who receives a response that a stage returned.
#[derive(Clone, Copy, PartialEq, Eq, Structural, Debug)]
pub enum Receiver {
    /// The middleware at this position, which may transform it.
    Middleware(usize),
    /// The dispatcher: the response leaves the chain.
    Dispatcher,
}

/// The state of one request's chain.
pub struct Pipeline {
    len: usize,
    entered: usize,
    active: usize,
    handler_ran: bool,
    unwinding: bool,
}

/// The value of a chain's state.
pub ghost struct PipelineView {
    /// How many middleware the chain holds.
    pub len: nat,
    /// How many middleware have been entered.
    pub entered: nat,
    /// How many entered middleware have not returned yet.
    pub active: nat,
    /// Whether the handler has been called.
    pub handler_ran: bool,
    /// Whether responses are on their way out.
    pub unwinding: bool,
}

impl View for Pipeline {
    type V = PipelineView;

    closed spec fn view(&self) -> PipelineView {
        PipelineView {
            len: self.len as nat,
            entered: self.entered as nat,
            active: self.active as nat,
            handler_ran: self.handler_ran,
            unwinding: self.unwinding,
        }
    }
}

/// The states that a chain passes through: middleware entered in order,
/// all of them still running while control goes inward, the handler called
/// only once every middleware has been entered.
pub open spec fn pipeline_wf(s: PipelineView) -> bool {
    &&& s.entered <= s.len
    &&& s.active <= s.entered
    &&& !s.unwinding ==> s.active == s.entered && !s.handler_ran
    &&& s.handler_ran ==> s.entered == s.len
}

/// The stage that runs when the innermost running stage of `s` proceeds.
pub open spec fn next_stage(s: PipelineView) -> Stage {
    if s.entered < s.len {
        Stage::Middleware(s.entered as usize)
    } else {
        Stage::Handler
    }
}

/// The state after the innermost running stage of `s` proceeds.
pub open spec fn proceed_spec(s: PipelineView) -> PipelineView {
    if s.entered < s.len {
        PipelineView { entered: s.entered + 1, active: s.active + 1, ..s }
    } else {
        PipelineView { handler_ran: true, unwinding: true, ..s }
    }
}

/// The state after the innermost running middleware of `s` comes back.
pub open spec fn return_spec(s: PipelineView) -> PipelineView {
    PipelineView { active: (s.active - 1) as nat, unwinding: true, ..s }
}

/// The state after `k` stages proceeded in a row from the start of a chain
/// of `len` middleware.
pub open spec fn after_proceeds(len: nat, k: nat) -> PipelineView
    decreases k,
{
    if k == 0 {
        PipelineView { len, entered: 0, active: 0, handler_ran: false, unwinding: false }
    } else {
        proceed_spec(after_proceeds(len, (k - 1) as nat))
    }
}

impl Pipeline {
    /// The chain of a route with `len` middleware, before anything ran.
    pub fn new(len: usize) -> (r: Pipeline)
        ensures
            r@ == after_proceeds(len as nat, 0),
            pipeline_wf(r@),
    {
        Pipeline { len, entered: 0, active: 0, handler_ran: false, unwinding: false }
    }

    /// Whether the innermost running stage may still proceed: nothing has
    /// returned yet and the handler has not been called.
    pub fn can_proceed(&self) -> (r: bool)
        ensures
            r == (!self@.unwinding && !self@.handler_ran),
    {
        !self.unwinding && !self.handler_ran
    }

    /// The innermost running stage proceeds: the next middleware in order
    /// runs, or the handler once every middleware has been entered.
    pub fn proceed(&mut self) -> (r: Stage)
        requires
            pipeline_wf(old(self)@),
            !old(self)@.unwinding,
        ensures
            r == next_stage(old(self)@),
            final(self)@ == proceed_spec(old(self)@),
            pipeline_wf(final(self)@),
    {
        if self.entered < self.len {
            let i = self.entered;
            self.entered = self.entered + 1;
            self.active = self.active + 1;
            Stage::Middleware(i)
        } else {
            self.handler_ran = true;
            self.unwinding = true;
            Stage::Handler
        }
    }

    /// The innermost running middleware returned its response, whether or
    /// not it proceeded: the middleware outside it receives the response,
    /// or the dispatcher where there is none.
    pub fn finish(&mut self) -> (r: Receiver)
        requires
            pipeline_wf(old(self)@),
            old(self)@.active > 0,
        ensures
            final(self)@ == return_spec(old(self)@),
            pipeline_wf(final(self)@),
            old(self)@.active >= 2 ==> r == Receiver::Middleware((old(self)@.active - 2) as usize),
            old(self)@.active == 1 ==> r == Receiver::Dispatcher,
    {
        self.active = self.active - 1;
        self.unwinding = true;
        if self.active > 0 {
            Receiver::Middleware(self.active - 1)
        } else {
            Receiver::Dispatcher
        }
    }

    /// Whether the handler has been called.
    pub fn handler_ran(&self) -> (r: bool)
        ensures
            r == self@.handler_ran,
    {
        self.handler_ran
    }
}

/// Middleware run in the order of the combined list, then the handler:
/// from the start of a chain of `len` middleware, the stage that the
/// `k`-th proceeding runs is the middleware at position `k` while `k` is
/// below `len`, and the handler at `k == len`.
pub proof fn lemma_stage_order(len: nat, k: nat)
    requires
        k <= len,
    ensures
        after_proceeds(len, k) == (PipelineView { len, entered: k, active: k, handler_ran: false, unwinding: false }),
        pipeline_wf(after_proceeds(len, k)),
        k < len ==> next_stage(after_proceeds(len, k)) == Stage::Middleware(k as usize),
        k == len ==> next_stage(after_proceeds(len, k)) == Stage::Handler,
    decreases k,
{
    if k > 0 {
        lemma_stage_order(len, (k - 1) as nat);
    }
}

/// A middleware that comes back without proceeding ends the chain: from then
/// on the state is unwinding, so no stage may proceed, and the handler has
/// not been called, however many further middleware return.
pub proof fn lemma_short_circuit(s: PipelineView, n_back: nat)
    requires
        pipeline_wf(s),
        !s.unwinding,
        s.active > 0,
        n_back < s.active,
    ensures
        ({
            let t = return_spec(s);
            &&& t.unwinding
            &&& !t.handler_ran
            &&& pipeline_wf(t)
        }),
        !repeat_return(return_spec(s), n_back).handler_ran,
        repeat_return(return_spec(s), n_back).unwinding,
    decreases n_back,
{
    if n_back > 0 {
        lemma_short_circuit(s, (n_back - 1) as nat);
    }
}

/// The state after `n` further middleware of `s` return.
pub open spec fn repeat_return(s: PipelineView, n: nat) -> PipelineView
    decreases n,
{
    if n == 0 {
        s
    } else {
        return_spec(repeat_return(s, (n - 1) as nat))
    }
}

} // verus!
