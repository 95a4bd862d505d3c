//! The driver's decision core: the startup poke plan, the key-setup retry
//! rule, the round-robin dispatch of candidates to workers, the relay of
//! worker results, and the per-worker lease discipline.
//!
//! The shell runs the event loop: it awaits node effects and worker results,
//! feeds them to these functions, and performs the returned actions.

use vstd::prelude::*;
use vstd::arithmetic::div_mod::{
    lemma_fundamental_div_mod, lemma_fundamental_div_mod_converse, lemma_mod_self_0,
    lemma_small_mod,
};

use crate::config::MiningKeyConfig;
use crate::pool::KernelLease;
use crate::wire::{
    enable_mining_poke, first_command, mine_candidate, mine_payload, set_mining_key_advanced_poke,
    set_mining_key_poke, config_views, configs_list_view, poke_view, MiningWire, Noun, NounView,
};

verus! {

/// The most workers the driver will spawn.
pub const WORKER_MAX: usize = 8;

/// One outbound poke: the wire it goes out on and its payload.
pub struct Poke {
    pub wire: MiningWire,
    pub payload: Noun,
}

/// Wraps a worker result for the node: relayed unchanged under the `mined`
/// wire.  Every worker result yields exactly one such poke, and nothing else
/// does.
pub fn mined_poke(result: Noun) -> (r: Poke)
    ensures
        r.wire == MiningWire::Mined,
        r.payload@ == result@,
{
    Poke { wire: MiningWire::Mined, payload: result }
}

/// Whether a configuration set is the simple shape: exactly one entry with
/// `share = 1`, `m = 1` and a single key.
pub open spec fn simple_config(cfgs: Seq<MiningKeyConfig>) -> bool {
    &&& cfgs.len() == 1
    &&& cfgs[0].share == 1
    &&& cfgs[0].m == 1
    &&& cfgs[0].keys@.len() == 1
}

/// What the driver does at startup: the pokes to send in order, how many
/// workers to spawn, and whether to enter the main loop.
pub struct StartupPlan {
    pub pokes: Vec<Poke>,
    pub workers: usize,
    pub enter_loop: bool,
}

/// Lays out the startup sequence.
///
/// Without a configuration the driver only disables mining and exits; with
/// one it sets the key (the simple poke for the simple shape, the advanced
/// poke otherwise), then enables or disables mining as asked.  Workers are
/// spawned, `min(cores, 8)` of them, only when mining is on: with `mine`
/// false no worker is ever spawned and no candidate is ever dispatched.
pub fn startup_plan(config: &Option<Vec<MiningKeyConfig>>, mine: bool, cores: usize) -> (r:
    StartupPlan)
    requires
        cores >= 1,
    ensures
        config is None ==> {
            &&& r.pokes@.len() == 1
            &&& r.pokes@[0].wire == MiningWire::Enable
            &&& r.pokes@[0].payload@ == poke_view("enable-mining"@, NounView::Num(1))
            &&& r.workers == 0
            &&& !r.enter_loop
        },
        config matches Some(cfgs) ==> {
            &&& r.pokes@.len() == 2
            &&& r.pokes@[0].wire == MiningWire::SetPubKey
            &&& (simple_config(cfgs@) ==> r.pokes@[0].payload@ == poke_view(
                "set-mining-key"@,
                NounView::Text(cfgs@[0].keys@[0]@),
            ))
            &&& (!simple_config(cfgs@) ==> r.pokes@[0].payload@ == poke_view(
                "set-mining-key-advanced"@,
                configs_list_view(config_views(cfgs@)),
            ))
            &&& r.pokes@[1].wire == MiningWire::Enable
            &&& r.pokes@[1].payload@ == poke_view(
                "enable-mining"@,
                NounView::Num(
                    if mine {
                        0
                    } else {
                        1
                    },
                ),
            )
            &&& r.workers == if mine {
                if cores < WORKER_MAX {
                    cores as int
                } else {
                    WORKER_MAX as int
                }
            } else {
                0
            }
            &&& r.enter_loop == mine
        },
{
    match config {
        None => {
            let mut pokes: Vec<Poke> = Vec::new();
            pokes.push(Poke { wire: MiningWire::Enable, payload: enable_mining_poke(false) });
            StartupPlan { pokes, workers: 0, enter_loop: false }
        },
        Some(cfgs) => {
            let simple = cfgs.len() == 1 && cfgs[0].share == 1 && cfgs[0].m == 1
                && cfgs[0].keys.len() == 1;
            let key_poke = if simple {
                set_mining_key_poke(cfgs[0].keys[0].as_str())
            } else {
                set_mining_key_advanced_poke(cfgs)
            };
            let mut pokes: Vec<Poke> = Vec::new();
            pokes.push(Poke { wire: MiningWire::SetPubKey, payload: key_poke });
            pokes.push(Poke { wire: MiningWire::Enable, payload: enable_mining_poke(mine) });
            let workers = if !mine {
                0
            } else if cores < WORKER_MAX {
                cores
            } else {
                WORKER_MAX
            };
            StartupPlan { pokes, workers, enter_loop: mine }
        },
    }
}

/// What to do after one key-setup attempt.
#[derive(Debug, PartialEq, Eq, Structural)]
pub enum RetryAction {
    /// The setup went through; carry on with the startup sequence.
    Proceed,
    /// The attempt failed; wait this many seconds and try again.
    Backoff(u64),
    /// The attempt failed and the attempts are spent; carry on without a
    /// working key setup.
    Abandon,
}

/// The key-setup retry rule: up to three attempts, five seconds apart.
#[derive(Debug)]
pub struct KeySetupState {
    pub attempts: u64,
    pub done: bool,
}

impl KeySetupState {
    pub fn new() -> (r: KeySetupState)
        ensures
            r.attempts == 0,
            !r.done,
    {
        KeySetupState { attempts: 0, done: false }
    }

    /// Accounts one attempt and decides what follows: success proceeds, a
    /// failure backs off five seconds while attempts remain, and the third
    /// failure abandons the setup.
    pub fn on_attempt(&mut self, ok: bool) -> (r: RetryAction)
        requires
            !old(self).done,
            old(self).attempts < 3,
        ensures
            final(self).attempts == old(self).attempts + 1,
            final(self).done == ok,
            ok ==> r == RetryAction::Proceed,
            !ok && old(self).attempts + 1 < 3 ==> r == RetryAction::Backoff(5),
            !ok && old(self).attempts + 1 == 3 ==> r == RetryAction::Abandon,
    {
        self.attempts = self.attempts + 1;
        if ok {
            self.done = true;
            RetryAction::Proceed
        } else if self.attempts < 3 {
            RetryAction::Backoff(5)
        } else {
            RetryAction::Abandon
        }
    }
}

/// How often a worker appears in a dispatch history.
pub open spec fn count_dispatches(s: Seq<usize>, w: usize) -> nat
    decreases s.len(),
{
    if s.len() == 0 {
        0
    } else {
        count_dispatches(s.drop_last(), w) + if s.last() == w {
            1nat
        } else {
            0nat
        }
    }
}

/// The dispatcher's candidate-routing state: the worker count, the
/// round-robin cursor, and, as ghost state, the history of dispatch targets.
pub struct DispatcherState {
    pub num_workers: usize,
    pub cursor: usize,
    pub history: Ghost<Seq<usize>>,
}

impl DispatcherState {
    /// The routing invariant: the cursor walks the workers round-robin, so
    /// the `j`-th dispatched candidate went to worker `j mod num_workers`.
    pub open spec fn wf(&self) -> bool {
        &&& self.num_workers > 0
        &&& self.cursor == self.history@.len() as int % (self.num_workers as int)
        &&& forall|j: int|
            0 <= j < self.history@.len() ==> self.history@[j] == j % (self.num_workers as int)
    }

    pub fn new(num_workers: usize) -> (r: DispatcherState)
        requires
            num_workers > 0,
        ensures
            r.wf(),
            r.num_workers == num_workers,
            r.cursor == 0,
            r.history@.len() == 0,
    {
        let r = DispatcherState { num_workers, cursor: 0, history: Ghost(Seq::empty()) };
        proof {
            lemma_small_mod(0, num_workers as nat);
        }
        r
    }

    /// Routes one node effect.
    ///
    /// A `mine` effect has its candidate copied out and dispatched to the
    /// worker under the cursor, and the cursor advances once; every other
    /// effect leaves the state unchanged and nothing is dispatched.
    pub fn on_effect(&mut self, effect: &Noun) -> (r: Option<(usize, Noun)>)
        requires
            old(self).wf(),
        ensures
            final(self).wf(),
            final(self).num_workers == old(self).num_workers,
            mine_payload(effect@) is None ==> r is None && *final(self) == *old(self),
            mine_payload(effect@) matches Some(c) ==> {
                &&& r matches Some(p) && p.1@ == c && p.0 == old(self).cursor
                &&& final(self).cursor == (old(self).cursor + 1) % (old(self).num_workers as int)
                &&& final(self).history@ == old(self).history@.push(old(self).cursor)
            },
    {
        match mine_candidate(effect) {
            None => None,
            Some(candidate) => {
                let worker = self.cursor;
                self.cursor = (self.cursor + 1) % self.num_workers;
                proof {
                    let n = self.num_workers as int;
                    let len = old(self).history@.len() as int;
                    self.history@ = old(self).history@.push(worker);
                    lemma_fundamental_div_mod(len, n);
                    assert((len / n) * n == n * (len / n)) by (nonlinear_arith);
                    if (len % n) + 1 < n {
                        lemma_fundamental_div_mod_converse(len + 1, n, len / n, len % n + 1);
                        lemma_small_mod((len % n + 1) as nat, n as nat);
                    } else {
                        assert((len / n + 1) * n == (len / n) * n + n) by (nonlinear_arith);
                        lemma_fundamental_div_mod_converse(len + 1, n, len / n + 1, 0);
                        lemma_mod_self_0(n);
                    }
                }
                Some((worker, candidate))
            },
        }
    }
}

/// Round-robin is fair: after any number of dispatches, each worker has
/// received either `floor(k / n)` or `ceil(k / n)` of the `k` candidates.
pub proof fn lemma_round_robin_fair(state: DispatcherState, w: usize)
    requires
        state.wf(),
        w < state.num_workers,
    ensures
        count_dispatches(state.history@, w) == state.history@.len() as int / (state.num_workers as int)
            + if (w as int) < state.history@.len() as int % (state.num_workers as int) {
            1int
        } else {
            0int
        },
{
    lemma_rr_count(state.history@, state.num_workers, w);
}

/// The counting argument behind round-robin fairness, by induction on the
/// history.
proof fn lemma_rr_count(s: Seq<usize>, n: usize, w: usize)
    requires
        n > 0,
        w < n,
        forall|j: int| 0 <= j < s.len() ==> s[j] == j % (n as int),
    ensures
        count_dispatches(s, w) == s.len() as int / (n as int) + if (w as int) < s.len() as int % (n as int) {
            1int
        } else {
            0int
        },
    decreases s.len(),
{
    let ni = n as int;
    if s.len() == 0 {
        lemma_small_mod(0, n as nat);
    } else {
        let k = s.len() - 1;
        let prefix = s.drop_last();
        assert(forall|j: int| 0 <= j < prefix.len() ==> prefix[j] == j % ni);
        lemma_rr_count(prefix, n, w);
        lemma_fundamental_div_mod(k, ni);
        assert((k / ni) * ni == ni * (k / ni)) by (nonlinear_arith);
        if (k % ni) + 1 < ni {
            lemma_fundamental_div_mod_converse(k + 1, ni, k / ni, k % ni + 1);
        } else {
            assert((k / ni + 1) * ni == (k / ni) * ni + ni) by (nonlinear_arith);
            lemma_fundamental_div_mod_converse(k + 1, ni, k / ni + 1, 0);
        }
        assert(s.last() == k % ni);
    }
}

/// The result of one mining attempt: the first `command` effect of the
/// kernel's effect stream, or nothing when the lease or the submission
/// failed and no stream was produced.
pub fn attempt_result(effects: Option<&Vec<Noun>>) -> (r: Option<Noun>)
    ensures
        effects is None ==> r is None,
        effects matches Some(e) ==> {
            &&& (r is Some) == (first_command(e@) is Some)
            &&& (r matches Some(found) ==> first_command(e@) == Some(found@))
        },
{
    match effects {
        None => None,
        Some(e) => crate::wire::find_command_effect(e),
    }
}

/// One mining worker's lease holding.
///
/// The only way to acquire a lease is `take_lease`, which demands empty
/// hands: a worker never holds more than one lease at a time.
pub struct Worker {
    id: usize,
    holding: Option<KernelLease>,
}

impl Worker {
    /// The worker's number.
    pub closed spec fn id_view(&self) -> usize {
        self.id
    }

    /// The lease the worker holds, if any.
    pub closed spec fn holding_view(&self) -> Option<KernelLease> {
        self.holding
    }

    pub fn new(id: usize) -> (r: Worker)
        ensures
            r.id_view() == id,
            r.holding_view() is None,
    {
        Worker { id, holding: None }
    }

    /// The worker's number.
    pub fn id(&self) -> (r: usize)
        ensures
            r == self.id_view(),
    {
        self.id
    }

    /// Takes a lease for one attempt.
    pub fn take_lease(&mut self, lease: KernelLease)
        requires
            old(self).holding_view() is None,
        ensures
            final(self).id_view() == old(self).id_view(),
            final(self).holding_view() == Some(lease),
    {
        self.holding = Some(lease);
    }

    /// Hands the held lease back, to be released to the pool.
    pub fn give_back(&mut self) -> (r: Option<KernelLease>)
        ensures
            final(self).id_view() == old(self).id_view(),
            final(self).holding_view() is None,
            r == old(self).holding_view(),
    {
        self.holding.take()
    }
}

} // verus!
