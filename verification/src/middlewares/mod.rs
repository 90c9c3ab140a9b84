//! The stages every action passes before it reaches the reducers.
pub mod api;
pub mod command;
pub mod debug;
pub mod keyboard;
pub mod websocket;

use vstd::prelude::*;
use crate::actions::{Action, ActionView};
use crate::structs::{AppState, StateView};
use crate::structs::command_handler::{command_word, is_quit, command_state, command_actions, execute};
use crate::reducers::{reduce, reduce_ok, spec_reduce};
use crate::text::copy_str;
use crate::util::seq_view;
use self::api::{ApiMiddleware, ChatRequest, ChatRequestView, spec_api_action, spec_api_request};
use self::command::CommandMiddleware;
use self::debug::DebugMiddleware;
use self::keyboard::{KeyboardMiddleware, spec_keyboard, opt_action_view};

verus! {

/// One stage of the dispatch chain.
pub enum Middleware {
    Debug(DebugMiddleware),
    Keyboard(KeyboardMiddleware),
    Api(ApiMiddleware),
    Command(CommandMiddleware),
}

/// Outside work that dispatching asks for.
pub enum Effect {
    /// Dispatch this action later.
    Send(Action),
    /// Deliver a chat message to a workflow.
    SendChat(ChatRequest),
}

pub enum EffectView {
    Send(ActionView),
    SendChat(ChatRequestView),
}

impl View for Effect {
    type V = EffectView;

    open spec fn view(&self) -> EffectView {
        match self {
            Effect::Send(a) => EffectView::Send(a@),
            Effect::SendChat(r) => EffectView::SendChat(r@),
        }
    }
}

pub enum DispatchResult {
    Continue(Option<Action>),
    Quit,
}

pub enum DispatchView {
    Continue(Option<ActionView>),
    Quit,
}

impl View for DispatchResult {
    type V = DispatchView;

    open spec fn view(&self) -> DispatchView {
        match self {
            DispatchResult::Continue(a) => DispatchView::Continue(opt_action_view(*a)),
            DispatchResult::Quit => DispatchView::Quit,
        }
    }
}

/// What one stage makes of an action: the action passed on and the
/// outside work asked for. `id` is the identifier a fresh command gets.
pub open spec fn spec_process(m: Middleware, s: StateView, a: ActionView, id: Seq<char>) -> (Option<ActionView>, Seq<EffectView>) {
    match m {
        Middleware::Debug(_) => (Some(a), Seq::empty()),
        Middleware::Command(_) => (Some(a), Seq::empty()),
        Middleware::Keyboard(_) => (spec_keyboard(s, a, id), Seq::empty()),
        Middleware::Api(api) => (
            spec_api_action(s, a),
            match spec_api_request(s, a, api.has_client) {
                Some(r) => seq![EffectView::SendChat(r)],
                None => Seq::empty(),
            },
        ),
    }
}

/// The first `n` stages applied in order; a stage that drops the action
/// ends the chain.
pub open spec fn spec_chain(s: StateView, a: ActionView, mws: Seq<Middleware>, ids: Seq<Seq<char>>, n: nat) -> (Option<ActionView>, Seq<EffectView>)
    decreases n,
{
    if n == 0 {
        (Some(a), Seq::empty())
    } else {
        let (cur, eff) = spec_chain(s, a, mws, ids, (n - 1) as nat);
        match cur {
            None => (None, eff),
            Some(x) => {
                let (next, more) = spec_process(mws[n - 1], s, x, ids[n - 1]);
                (next, eff + more)
            },
        }
    }
}

/// Identifiers for the stages, as fresh ones look.
pub open spec fn ids_ok(ids: Seq<Seq<char>>, n: nat) -> bool {
    ids.len() == n && forall|i: int| 0 <= i < n ==> (#[trigger] ids[i]).len() == 36
}

/// What the reducers need of the action that comes out of the chain.
pub open spec fn dispatch_ok(s: StateView, a: ActionView, mws: Seq<Middleware>) -> bool {
    forall|ids: Seq<Seq<char>>| #[trigger] ids_ok(ids, mws.len()) ==> match spec_chain(s, a, mws, ids, mws.len()).0 {
        Some(x) => reduce_ok(s, x),
        None => true,
    }
}

/// The state, the result and the outside work after dispatching `a`.
pub open spec fn spec_dispatch(s: StateView, a: ActionView, mws: Seq<Middleware>, ids: Seq<Seq<char>>) -> (StateView, DispatchView, Seq<EffectView>) {
    let (cur, eff) = spec_chain(s, a, mws, ids, mws.len());
    match cur {
        None => (s, DispatchView::Continue(None), eff),
        Some(x) => match x {
            ActionView::Quit => (s, DispatchView::Quit, eff),
            _ => {
                let s1 = spec_reduce(s, x);
                match x {
                    ActionView::CommandBarEnqueueCmd(uuid) => if s1.cmd_str_queue.dom().contains(uuid) {
                        let w = command_word(s1.cmd_str_queue[uuid]);
                        if is_quit(w) {
                            (s1, DispatchView::Quit, eff)
                        } else {
                            (
                                command_state(s1, w),
                                DispatchView::Continue(Some(x)),
                                eff + command_actions(w).map_values(|v: ActionView| EffectView::Send(v)),
                            )
                        }
                    } else {
                        (s1, DispatchView::Continue(Some(x)), eff)
                    },
                    _ => (s1, DispatchView::Continue(Some(x)), eff),
                }
            },
        },
    }
}

impl Middleware {
    pub fn process(&self, state: &AppState, action: Action, effects: &mut Vec<Effect>) -> (r: Option<Action>)
        ensures
            exists|id: Seq<char>| #![trigger spec_process(*self, state@, action@, id)] id.len() == 36 && opt_action_view(r) == spec_process(*self, state@, action@, id).0
                && seq_view(final(effects)@) == seq_view(old(effects)@) + spec_process(*self, state@, action@, id).1,
    {
        let ghost av = action@;
        let ghost before = seq_view(effects@);
        let ghost dummy = Seq::new(36, |i: int| '0');
        assert(dummy.len() == 36);
        match self {
            Middleware::Debug(m) => {
                let r = m.process(state, action);
                assert(seq_view(effects@) =~= before + spec_process(*self, state@, av, dummy).1);
                r
            },
            Middleware::Command(m) => {
                let r = m.process(state, action);
                assert(seq_view(effects@) =~= before + spec_process(*self, state@, av, dummy).1);
                r
            },
            Middleware::Keyboard(m) => {
                let r = m.process(state, action);
                let ghost id = choose|id: Seq<char>| #![trigger spec_keyboard(state@, av, id)] id.len() == 36 && opt_action_view(r) == spec_keyboard(state@, av, id);
                assert(seq_view(effects@) =~= before + spec_process(*self, state@, av, id).1);
                r
            },
            Middleware::Api(m) => {
                let (r, req) = m.process(state, action);
                match req {
                    Some(req) => {
                        let e = Effect::SendChat(req);
                        let ghost ev = e@;
                        effects.push(e);
                        assert(seq_view(effects@) =~= before.push(ev));
                    },
                    None => {},
                }
                assert(seq_view(effects@) =~= before + spec_process(*self, state@, av, dummy).1);
                r
            },
        }
    }
}

/// The stages in the order actions pass them.
pub fn init_middlewares(has_client: bool) -> (v: Vec<Middleware>)
    ensures
        v@.len() == 4,
        v@[0] is Debug,
        v@[1] is Keyboard,
        v@[2] == Middleware::Api(ApiMiddleware { has_client }),
        v@[3] is Command,
{
    let mut v: Vec<Middleware> = Vec::new();
    v.push(Middleware::Debug(DebugMiddleware));
    v.push(Middleware::Keyboard(KeyboardMiddleware));
    v.push(Middleware::Api(ApiMiddleware::new(has_client)));
    v.push(Middleware::Command(CommandMiddleware));
    v
}

/// Passes `action` through the stages, reduces what comes out and runs a
/// queued command line. Outside work is appended to `effects`.
pub fn dispatch(
    state: &mut AppState,
    action: Action,
    middlewares: &Vec<Middleware>,
    effects: &mut Vec<Effect>,
) -> (r: DispatchResult)
    requires
        dispatch_ok(old(state)@, action@, middlewares@),
    ensures
        exists|ids: Seq<Seq<char>>| #![trigger spec_dispatch(old(state)@, action@, middlewares@, ids)] ids_ok(ids, middlewares@.len()) && {
            let (s, d, e) = spec_dispatch(old(state)@, action@, middlewares@, ids);
            &&& final(state)@ == s
            &&& r@ == d
            &&& seq_view(final(effects)@) == seq_view(old(effects)@) + e
        },
{
    let ghost s0 = state@;
    let ghost a0 = action@;
    let ghost e0 = seq_view(effects@);
    let ghost mut ids: Seq<Seq<char>> = Seq::empty();
    let mut current: Option<Action> = Some(action);
    let n = middlewares.len();
    let mut i: usize = 0;
    while i < n
        invariant
            n == middlewares@.len(),
            i <= n,
            state@ == s0,
            ids_ok(ids, i as nat),
            opt_action_view(current) == spec_chain(s0, a0, middlewares@, ids, i as nat).0,
            seq_view(effects@) == e0 + spec_chain(s0, a0, middlewares@, ids, i as nat).1,
        decreases n - i,
    {
        let ghost prev_ids = ids;
        let ghost before = seq_view(effects@);
        match current {
            Some(act) => {
                let ghost x = act@;
                let next = middlewares[i].process(state, act, effects);
                let ghost id = choose|id: Seq<char>| #![trigger spec_process(middlewares@[i as int], s0, x, id)] id.len() == 36 && opt_action_view(next) == spec_process(middlewares@[i as int], s0, x, id).0
                    && seq_view(effects@) == before + spec_process(middlewares@[i as int], s0, x, id).1;
                proof {
                    ids = prev_ids.push(id);
                    assert(ids_ok(ids, (i + 1) as nat));
                    assert(ids.take(i as int) =~= prev_ids);
                    lemma_chain_ids(s0, a0, middlewares@, prev_ids, ids, i as nat);
                    assert(ids[i as int] == id);
                }
                current = next;
            },
            None => {
                let ghost id = Seq::new(36, |k: int| '0');
                proof {
                    ids = prev_ids.push(id);
                    assert(ids_ok(ids, (i + 1) as nat));
                    assert(ids.take(i as int) =~= prev_ids);
                    lemma_chain_ids(s0, a0, middlewares@, prev_ids, ids, i as nat);
                }
                current = None;
            },
        }
        i = i + 1;
    }
    assert(ids_ok(ids, middlewares@.len()));
    let act = match current {
        None => {
            let r = DispatchResult::Continue(None);
            assert(seq_view(effects@) =~= e0 + spec_dispatch(s0, a0, middlewares@, ids).2);
            assert(state@ == spec_dispatch(s0, a0, middlewares@, ids).0);
            assert(r@ == spec_dispatch(s0, a0, middlewares@, ids).1);
            return r;
        },
        Some(a) => a,
    };
    if let Action::Quit = act {
        let r = DispatchResult::Quit;
        assert(seq_view(effects@) =~= e0 + spec_dispatch(s0, a0, middlewares@, ids).2);
        assert(state@ == spec_dispatch(s0, a0, middlewares@, ids).0);
        assert(r@ == spec_dispatch(s0, a0, middlewares@, ids).1);
        return r;
    }
    reduce(state, &act);
    if let Action::CommandBarEnqueueCmd(uuid) = &act {
        let cmd = match state.cmd_str_queue.get(uuid.as_str()) {
            Some(c) => copy_str(c.as_str()),
            None => {
                return DispatchResult::Continue(Some(act));
            },
        };
        let mut out: Vec<Action> = Vec::new();
        let quit = execute(state, cmd.as_str(), &mut out);
        if quit {
            return DispatchResult::Quit;
        }
        let ghost outs = seq_view(out@);
        let ghost mid = seq_view(effects@);
        let mut out = out;
        let ghost mut k: int = 0;
        while out.len() > 0
            invariant
                0 <= k <= outs.len(),
                seq_view(out@) == outs.skip(k),
                seq_view(effects@) == mid + outs.take(k).map_values(|v: ActionView| EffectView::Send(v)),
            decreases out@.len(),
        {
            let ghost ob = out@;
            let a = out.remove(0);
            let ghost av = a@;
            assert(out@ =~= ob.remove(0));
            let ghost eb = seq_view(effects@);
            proof {
                assert(outs.skip(k)[0] == av);
                assert(outs.skip(k).len() > 0);
            }
            effects.push(Effect::Send(a));
            assert(seq_view(effects@) =~= eb.push(EffectView::Send(av)));
            proof {
                assert(outs.take(k + 1) =~= outs.take(k).push(av));
                assert(outs.take(k + 1).map_values(|v: ActionView| EffectView::Send(v)) =~= outs.take(k).map_values(|v: ActionView| EffectView::Send(v)).push(EffectView::Send(av)));
                assert(seq_view(out@) =~= seq_view(ob).drop_first());
                assert(outs.skip(k).drop_first() =~= outs.skip(k + 1));
                k = k + 1;
                assert(seq_view(out@) =~= outs.skip(k));
            }
        }
        proof {
            assert(outs.skip(k).len() == 0);
            assert(outs.take(k) =~= outs);
        }
        return DispatchResult::Continue(Some(act));
    }
    DispatchResult::Continue(Some(act))
}

/// A state in which every action can be reduced: no counter is at its
/// limit, the tab list is not empty and the command line can be queued.
pub open spec fn state_ok(s: StateView) -> bool {
    &&& s.input.cursor < usize::MAX
    &&& crate::reducers::command_bar::enqueue_ok(s)
    &&& s.json_store.tabs_titles.len() > 0
    &&& s.json_store.tabs_selection < usize::MAX
    &&& s.selected_agent < usize::MAX
    &&& s.unread_count < usize::MAX
    &&& s.json_store.spinner_frame < u64::MAX
}

/// In a state without a counter at its limit every action can be
/// dispatched.
pub proof fn lemma_state_ok_dispatch(s: StateView, a: ActionView, mws: Seq<Middleware>)
    requires
        state_ok(s),
    ensures
        dispatch_ok(s, a, mws),
{
    assert forall|x: ActionView| reduce_ok(s, x) by {}
}

/// Tests `state_ok`.
pub fn check_state(state: &AppState) -> (b: bool)
    ensures
        b == state_ok(state@),
{
    let ok_enqueue = if crate::text::byte_len_exceeds_one(state.json_store.command.as_str()) {
        let c = crate::text::chars_of(state.json_store.command.as_str());
        proof {
            crate::text::lemma_byte_len_ge_len(c@);
            if c@.len() == 0 {
                assert(crate::text::byte_len(c@) == 0);
            }
        }
        (c[0] as u32) <= 0x7F
    } else {
        true
    };
    state.input.cursor < usize::MAX && ok_enqueue && state.json_store.tabs_titles.len() > 0
        && state.json_store.tabs_selection < usize::MAX && state.selected_agent < usize::MAX
        && state.unread_count < usize::MAX && state.json_store.spinner_frame < u64::MAX
}

/// Extending the stage identifiers leaves the chain over earlier stages
/// as it was.
proof fn lemma_chain_ids(s: StateView, a: ActionView, mws: Seq<Middleware>, ids: Seq<Seq<char>>, longer: Seq<Seq<char>>, n: nat)
    requires
        ids.len() == n,
        longer.len() > n,
        longer.take(n as int) == ids,
    ensures
        spec_chain(s, a, mws, longer, n) == spec_chain(s, a, mws, ids, n),
    decreases n,
{
    if n > 0 {
        assert(longer.take(n - 1) =~= ids.take(n - 1));
        lemma_chain_ids(s, a, mws, ids.take(n - 1), longer, (n - 1) as nat);
        lemma_chain_ids(s, a, mws, ids.take(n - 1), ids, (n - 1) as nat);
    }
}

} // verus!

verus! {

/// Dispatching keeps the invariant that every state keeps, whatever the
/// stages make of the action and whatever identifiers fresh commands get.
pub proof fn lemma_dispatch_keeps_inv(s: StateView, a: ActionView, mws: Seq<Middleware>, ids: Seq<Seq<char>>)
    requires
        crate::reducers::state_inv(s),
        dispatch_ok(s, a, mws),
        ids_ok(ids, mws.len()),
    ensures
        crate::reducers::state_inv(spec_dispatch(s, a, mws, ids).0),
{
    let (cur, eff) = spec_chain(s, a, mws, ids, mws.len());
    if let Some(x) = cur {
        assert(reduce_ok(s, x));
        crate::reducers::lemma_reduce_keeps_inv(s, x);
    }
}

} // verus!
