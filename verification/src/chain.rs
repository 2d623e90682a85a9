//! The middleware chain runtime: an ordered sequence of stages run around
//! the handler. Start hooks run in registration order; completion hooks run
//! in strict reverse order over the stages that started, so each stage's
//! cleanup sees a response that later stages have already handled.
//!
//! The whole effect of a run on one request context is captured by
//! [`chain_fold`]: a fold of [`stage_step`] over the registered stages,
//! fed with the identifiers the run drew.

use crate::logger::RecordView;
use crate::logger::Sink;
use crate::request_id::generated_message;
use crate::request_id::is_correlation_id;
use crate::request_id::is_lower_hex_digit;
use crate::request_id::request_id_key;
use crate::state::State;
use crate::store::Extensions;
use vstd::prelude::*;

verus! {

/// The closed set of stages this core registers.
#[derive(Clone, Copy, PartialEq, Eq, Structural, Debug)]
pub enum StageKind {
    LogInitializer,
    RequestId,
}

/// A response as this core sees it: only its status is of interest here.
#[derive(Clone, Copy, PartialEq, Eq, Structural, Debug)]
pub struct Response {
    pub status: u16,
}

/// What a stage's start hook signals: proceed down the chain, or answer at
/// once and skip the remaining start hooks and the handler.
#[derive(Clone, Copy, PartialEq, Eq, Structural, Debug)]
pub enum StageSignal {
    Continue,
    RespondNow(Response),
}

/// The one fatal per-request failure: the logging handle the ordering
/// contract owes to the request-identifier stage is missing.
#[derive(Clone, Copy, PartialEq, Eq, Structural, Debug)]
pub enum ChainError {
    MissingLogger,
}

/// The mathematical value of one request's mutable surroundings: the two
/// store entries and the sink contents.
#[verifier::ext_equal]
pub ghost struct CtxView {
    pub logger: Option<Seq<(Seq<char>, Seq<char>)>>,
    pub request_id: Option<Seq<char>>,
    pub sink: Seq<RecordView>,
}

/// The context value a store and a sink hold together.
pub open spec fn ctx_of(ext: Extensions, sink: Sink) -> CtxView {
    CtxView { logger: ext.logger_view(), request_id: ext.request_id_view(), sink: sink@ }
}

/// What one stage's start hook does to the context. `root` is the shared
/// state's root field set; `id` is the identifier drawn if the stage is the
/// request-identifier stage, and is ignored otherwise.
pub open spec fn stage_step(
    stage: StageKind,
    root: Seq<(Seq<char>, Seq<char>)>,
    s: CtxView,
    id: Seq<char>,
) -> (CtxView, Result<(), ChainError>) {
    match stage {
        StageKind::LogInitializer => (
            CtxView { logger: Some(root), request_id: s.request_id, sink: s.sink },
            Ok(()),
        ),
        StageKind::RequestId => match s.logger {
            None => (
                CtxView { logger: None, request_id: Some(id), sink: s.sink },
                Err(ChainError::MissingLogger),
            ),
            Some(l) => (
                CtxView {
                    logger: Some(l.push((request_id_key(), id))),
                    request_id: Some(id),
                    sink: s.sink.push(
                        RecordView {
                            message: generated_message(),
                            fields: l.push((request_id_key(), id)),
                        },
                    ),
                },
                Ok(()),
            ),
        },
    }
}

/// How many identifiers a run of `stages` draws: one per
/// request-identifier stage.
pub open spec fn request_id_count(stages: Seq<StageKind>) -> nat
    decreases stages.len(),
{
    if stages.len() == 0 {
        0
    } else {
        (if stages[0] is RequestId {
            1nat
        } else {
            0nat
        }) + request_id_count(stages.drop_first())
    }
}

/// Every drawn identifier has the correlation-identifier shape.
pub open spec fn all_correlation_ids(ids: Seq<Seq<char>>) -> bool {
    forall|i: int| 0 <= i < ids.len() ==> is_correlation_id(#[trigger] ids[i])
}

/// The whole effect of running `stages` in order from context `s`, where
/// `ids` are the identifiers drawn by the request-identifier stages in
/// order. The fold stops at the first failing stage and returns the
/// context as that stage left it.
pub open spec fn chain_fold(
    stages: Seq<StageKind>,
    root: Seq<(Seq<char>, Seq<char>)>,
    s: CtxView,
    ids: Seq<Seq<char>>,
) -> (CtxView, Result<(), ChainError>)
    decreases stages.len(),
{
    if stages.len() == 0 {
        (s, Ok(()))
    } else {
        let id = if stages[0] is RequestId {
            ids.first()
        } else {
            Seq::<char>::empty()
        };
        let stepped = stage_step(stages[0], root, s, id);
        if stepped.1 is Err {
            stepped
        } else {
            let rest_ids = if stages[0] is RequestId {
                ids.drop_first()
            } else {
                ids
            };
            chain_fold(stages.drop_first(), root, stepped.0, rest_ids)
        }
    }
}

/// One start hook agrees with its step: the context moved as `stage_step`
/// says, and the hook's result mirrors the step's status, continuing on
/// success.
pub open spec fn step_agrees(
    stage: StageKind,
    root: Seq<(Seq<char>, Seq<char>)>,
    s0: CtxView,
    id: Seq<char>,
    s1: CtxView,
    r: Result<StageSignal, ChainError>,
) -> bool {
    let stepped = stage_step(stage, root, s0, id);
    &&& s1 == stepped.0
    &&& (match stepped.1 {
        Ok(_) => r == Ok::<StageSignal, ChainError>(StageSignal::Continue),
        Err(e) => r == Err::<StageSignal, ChainError>(e),
    })
}

/// A whole run agrees with the fold: for the identifiers `ids` the run
/// drew — all well shaped, one per request-identifier stage — the context
/// moved from `s0` to `s1` as `chain_fold` says, and the run's result is
/// the handler's response exactly when no stage failed.
pub open spec fn run_matches(
    stages: Seq<StageKind>,
    root: Seq<(Seq<char>, Seq<char>)>,
    s0: CtxView,
    ids: Seq<Seq<char>>,
    s1: CtxView,
    r: Result<Response, ChainError>,
    handler_resp: Response,
) -> bool {
    &&& all_correlation_ids(ids)
    &&& ids.len() == request_id_count(stages)
    &&& ({
        let folded = chain_fold(stages, root, s0, ids);
        &&& s1 == folded.0
        &&& (match folded.1 {
            Ok(_) => r == Ok::<Response, ChainError>(handler_resp),
            Err(e) => r == Err::<Response, ChainError>(e),
        })
    })
}

/// The ordered sequence of registered stages wrapping each request.
pub struct Chain {
    stages: Vec<StageKind>,
}

/// Dispatch of one stage's start hook.
fn stage_start<S: State>(
    stage: StageKind,
    state: &S,
    ext: &mut Extensions,
    sink: &mut Sink,
) -> (r: Result<StageSignal, ChainError>)
    ensures
        stage is LogInitializer ==> step_agrees(
            stage,
            state.root_view(),
            ctx_of(*old(ext), *old(sink)),
            Seq::<char>::empty(),
            ctx_of(*final(ext), *final(sink)),
            r,
        ),
        stage is RequestId ==> (exists|id: Seq<char>|
            is_correlation_id(id) && step_agrees(
                stage,
                state.root_view(),
                ctx_of(*old(ext), *old(sink)),
                id,
                ctx_of(*final(ext), *final(sink)),
                r,
            )),
{
    match stage {
        StageKind::LogInitializer => {
            let m = crate::log_initializer::Middleware;
            let signal = m.start(state, ext);
            proof {
                let s1 = ctx_of(*ext, *sink);
                let stepped = stage_step(
                    stage,
                    state.root_view(),
                    ctx_of(*old(ext), *old(sink)),
                    Seq::<char>::empty(),
                );
                assert(s1 =~~= stepped.0);
            }
            Ok(signal)
        },
        StageKind::RequestId => {
            let m = crate::request_id::Middleware;
            let r = m.start(ext, sink);
            proof {
                let s0 = ctx_of(*old(ext), *old(sink));
                let s1 = ctx_of(*ext, *sink);
                if old(ext).logger_view() is None {
                    let id = choose|id: Seq<char>|
                        is_correlation_id(id) && ext.request_id_view() == Some(id);
                    assert(s1 =~~= stage_step(stage, state.root_view(), s0, id).0);
                    assert(step_agrees(stage, state.root_view(), s0, id, s1, r));
                } else {
                    let l = old(ext).logger_view().unwrap();
                    let id = choose|id: Seq<char>|
                        {
                            &&& is_correlation_id(id)
                            &&& r == Ok::<StageSignal, ChainError>(StageSignal::Continue)
                            &&& ext.request_id_view() == Some(id)
                            &&& ext.logger_view() == Some(l.push((request_id_key(), id)))
                            &&& sink@ == old(sink)@.push(
                                RecordView {
                                    message: generated_message(),
                                    fields: l.push((request_id_key(), id)),
                                },
                            )
                        };
                    assert(s1 =~~= stage_step(stage, state.root_view(), s0, id).0);
                    assert(step_agrees(stage, state.root_view(), s0, id, s1, r));
                }
            }
            r
        },
    }
}

/// Dispatch of one stage's completion hook: both stages pass the response
/// through unchanged.
fn stage_response(stage: StageKind, resp: Response) -> (r: Response)
    ensures
        r == resp,
{
    match stage {
        StageKind::LogInitializer => {
            let m = crate::log_initializer::Middleware;
            m.response(resp)
        },
        StageKind::RequestId => {
            let m = crate::request_id::Middleware;
            m.response(resp)
        },
    }
}

impl Chain {
    /// The registered stages, in registration order.
    pub closed spec fn stages_view(&self) -> Seq<StageKind> {
        self.stages@
    }

    /// A chain with no stages registered yet.
    pub fn new() -> (r: Chain)
        ensures
            r.stages_view() == Seq::<StageKind>::empty(),
    {
        Chain { stages: Vec::new() }
    }

    /// Register one more stage, after all those already registered.
    pub fn register(&mut self, stage: StageKind)
        ensures
            final(self).stages_view() == old(self).stages_view().push(stage),
    {
        self.stages.push(stage);
    }

    /// The run from stage `i` on: the remaining start hooks in order, the
    /// handler's response on full descent, and the completion hooks of
    /// those same stages in reverse order on the way back out.
    fn run_from<S: State>(
        &self,
        i: usize,
        state: &S,
        ext: &mut Extensions,
        sink: &mut Sink,
        handler_resp: Response,
    ) -> (r: Result<Response, ChainError>)
        requires
            i as int <= self.stages_view().len(),
        ensures
            exists|ids: Seq<Seq<char>>|
                run_matches(
                    self.stages_view().skip(i as int),
                    state.root_view(),
                    ctx_of(*old(ext), *old(sink)),
                    ids,
                    ctx_of(*final(ext), *final(sink)),
                    r,
                    handler_resp,
                ),
        decreases self.stages_view().len() - i as int,
    {
        let ghost root = state.root_view();
        let ghost s0 = ctx_of(*ext, *sink);
        if i == self.stages.len() {
            proof {
                assert(self.stages_view().skip(i as int) =~= Seq::<StageKind>::empty());
                assert(run_matches(
                    self.stages_view().skip(i as int),
                    root,
                    s0,
                    Seq::<Seq<char>>::empty(),
                    s0,
                    Ok::<Response, ChainError>(handler_resp),
                    handler_resp,
                ));
            }
            Ok(handler_resp)
        } else {
            let ghost rest = self.stages_view().skip(i as int);
            let stage = self.stages[i];
            proof {
                assert(rest[0] == stage);
                assert(rest.drop_first() =~= self.stages_view().skip(i as int + 1));
                lemma_count_unfold(self.stages_view(), i as int);
            }
            let started = stage_start(stage, state, ext, sink);
            let ghost smid = ctx_of(*ext, *sink);
            match started {
                Err(e) => {
                    proof {
                        if stage is LogInitializer {
                            assert(false);
                        }
                        let id = choose|id: Seq<char>|
                            is_correlation_id(id) && step_agrees(
                                stage,
                                root,
                                s0,
                                id,
                                smid,
                                Err::<StageSignal, ChainError>(e),
                            );
                        let tail = request_id_count(self.stages_view().skip(i as int + 1));
                        lemma_placeholder_ids_valid(tail);
                        let ids = seq![id] + placeholder_ids(tail);
                        assert(ids.first() == id);
                        assert(all_correlation_ids(ids)) by {
                            assert forall|k: int| 0 <= k < ids.len() implies is_correlation_id(
                                #[trigger] ids[k],
                            ) by {
                                if k > 0 {
                                    assert(ids[k] == placeholder_ids(tail)[k - 1]);
                                }
                            }
                        }
                        assert(run_matches(
                            rest,
                            root,
                            s0,
                            ids,
                            smid,
                            Err::<Response, ChainError>(e),
                            handler_resp,
                        ));
                    }
                    Err(e)
                },
                Ok(StageSignal::Continue) => {
                    let rr = self.run_from(i + 1, state, ext, sink, handler_resp);
                    let ghost sfin = ctx_of(*ext, *sink);
                    let ghost ids_rest = choose|ids2: Seq<Seq<char>>|
                        #[trigger] run_matches(
                            self.stages_view().skip(i as int + 1),
                            root,
                            smid,
                            ids2,
                            sfin,
                            rr,
                            handler_resp,
                        );
                    proof {
                        if stage is LogInitializer {
                            assert(step_agrees(
                                stage,
                                root,
                                s0,
                                Seq::<char>::empty(),
                                smid,
                                Ok::<StageSignal, ChainError>(StageSignal::Continue),
                            ));
                            assert(run_matches(rest, root, s0, ids_rest, sfin, rr, handler_resp));
                        } else {
                            let id = choose|id: Seq<char>|
                                is_correlation_id(id) && step_agrees(
                                    stage,
                                    root,
                                    s0,
                                    id,
                                    smid,
                                    Ok::<StageSignal, ChainError>(StageSignal::Continue),
                                );
                            let ids = seq![id] + ids_rest;
                            assert(ids.first() == id);
                            assert(ids.drop_first() =~= ids_rest);
                            assert(all_correlation_ids(ids)) by {
                                assert forall|k: int| 0 <= k < ids.len() implies is_correlation_id(
                                    #[trigger] ids[k],
                                ) by {
                                    if k > 0 {
                                        assert(ids[k] == ids_rest[k - 1]);
                                    }
                                }
                            }
                            assert(run_matches(rest, root, s0, ids, sfin, rr, handler_resp));
                        }
                    }
                    match rr {
                        Ok(resp) => {
                            let resp2 = stage_response(stage, resp);
                            Ok(resp2)
                        },
                        Err(e2) => Err(e2),
                    }
                },
                Ok(StageSignal::RespondNow(resp)) => {
                    // Neither registered stage ever short-circuits, so this
                    // path is unreachable; the runtime still honours the
                    // signal by unwinding from this stage.
                    proof {
                        if stage is RequestId {
                            let id = choose|id: Seq<char>|
                                is_correlation_id(id) && step_agrees(
                                    stage,
                                    root,
                                    s0,
                                    id,
                                    smid,
                                    Ok::<StageSignal, ChainError>(StageSignal::RespondNow(resp)),
                                );
                            assert(false);
                        }
                    }
                    let resp2 = stage_response(stage, resp);
                    Ok(resp2)
                },
            }
        }
    }

    /// Run the whole chain around one request: every registered stage's
    /// start hook in registration order, then the handler's response, then
    /// the completion hooks in reverse. The run's entire effect on the
    /// request context and the sink is `chain_fold` over the registered
    /// stages for the identifiers the run drew.
    pub fn run<S: State>(
        &self,
        state: &S,
        ext: &mut Extensions,
        sink: &mut Sink,
        handler_resp: Response,
    ) -> (r: Result<Response, ChainError>)
        ensures
            exists|ids: Seq<Seq<char>>|
                run_matches(
                    self.stages_view(),
                    state.root_view(),
                    ctx_of(*old(ext), *old(sink)),
                    ids,
                    ctx_of(*final(ext), *final(sink)),
                    r,
                    handler_resp,
                ),
    {
        let r = self.run_from(0, state, ext, sink, handler_resp);
        proof {
            assert(self.stages_view().skip(0) =~= self.stages_view());
        }
        r
    }

    /// The deployment order this core is made for: the log-initializer
    /// stage strictly before the request-identifier stage.
    pub fn standard() -> (r: Chain)
        ensures
            r.stages_view() == standard_stages(),
    {
        let mut c = Chain::new();
        c.register(StageKind::LogInitializer);
        c.register(StageKind::RequestId);
        proof {
            assert(c.stages_view() =~= standard_stages());
        }
        c
    }
}

/// The stage order the deployment configuration prescribes.
pub open spec fn standard_stages() -> Seq<StageKind> {
    seq![StageKind::LogInitializer, StageKind::RequestId]
}

/// The law of the prescribed order. On a fresh request context — no logger,
/// no identifier stored — the standard chain draws exactly one identifier
/// and succeeds, and afterwards: the store holds exactly one logger entry
/// and one identifier entry; the logger entry's fields are the root's
/// fields plus one `request_id` field equal to the stored identifier — one
/// derivation hop, never zero and never more; the stored identifier has the
/// correlation-identifier shape; and exactly one diagnostic record was
/// appended to the sink, carrying that same field set.
pub proof fn lemma_standard_chain_outcome(
    root: Seq<(Seq<char>, Seq<char>)>,
    s0: CtxView,
    ids: Seq<Seq<char>>,
)
    requires
        s0.logger is None,
        s0.request_id is None,
        all_correlation_ids(ids),
        ids.len() == request_id_count(standard_stages()),
    ensures
        request_id_count(standard_stages()) == 1,
        ({
            let folded = chain_fold(standard_stages(), root, s0, ids);
            &&& folded.1 == Ok::<(), ChainError>(())
            &&& folded.0.logger == Some(root.push((request_id_key(), ids.first())))
            &&& folded.0.logger.unwrap().len() == root.len() + 1
            &&& folded.0.request_id == Some(ids.first())
            &&& is_correlation_id(ids.first())
            &&& folded.0.sink == s0.sink.push(
                RecordView {
                    message: generated_message(),
                    fields: root.push((request_id_key(), ids.first())),
                },
            )
        }),
{
    let ss = standard_stages();
    assert(ss.drop_first() =~= seq![StageKind::RequestId]);
    assert(seq![StageKind::RequestId].drop_first() =~= Seq::<StageKind>::empty());
    assert(request_id_count(Seq::<StageKind>::empty()) == 0);
    assert(request_id_count(seq![StageKind::RequestId]) == 1);
    assert(request_id_count(ss) == 1);
    let after_init = stage_step(StageKind::LogInitializer, root, s0, Seq::<char>::empty()).0;
    assert(after_init.logger == Some(root));
    let stepped = stage_step(StageKind::RequestId, root, after_init, ids.first());
    assert(chain_fold(Seq::<StageKind>::empty(), root, stepped.0, ids.drop_first()) == (
        stepped.0,
        Ok::<(), ChainError>(()),
    ));
    assert(chain_fold(seq![StageKind::RequestId], root, after_init, ids) == (
        stepped.0,
        Ok::<(), ChainError>(()),
    ));
    assert(chain_fold(ss, root, s0, ids) == (stepped.0, Ok::<(), ChainError>(())));
    assert(is_correlation_id(ids[0]));
}

/// The law of the broken order. If the request-identifier stage runs first
/// — the stored logger is absent — the chain fails fast with the
/// invariant-violation error: no logger is fabricated, nothing is emitted
/// to the sink, and the stages after it never run.
pub proof fn lemma_reversed_chain_fails(
    root: Seq<(Seq<char>, Seq<char>)>,
    s0: CtxView,
    ids: Seq<Seq<char>>,
)
    requires
        s0.logger is None,
    ensures
        ({
            let folded = chain_fold(
                seq![StageKind::RequestId, StageKind::LogInitializer],
                root,
                s0,
                ids,
            );
            &&& folded.1 == Err::<(), ChainError>(ChainError::MissingLogger)
            &&& folded.0.logger is None
            &&& folded.0.sink == s0.sink
        }),
{
}

/// A well-shaped identifier value used only to pad witness sequences for
/// stages an erring run never reached.
spec fn placeholder_id() -> Seq<char> {
    Seq::new(32, |i: int| '0')
}

/// `n` copies of the placeholder identifier.
spec fn placeholder_ids(n: nat) -> Seq<Seq<char>> {
    Seq::new(n, |i: int| placeholder_id())
}

proof fn lemma_placeholder_ids_valid(n: nat)
    ensures
        placeholder_ids(n).len() == n,
        all_correlation_ids(placeholder_ids(n)),
{
    assert forall|i: int| 0 <= i < placeholder_ids(n).len() implies is_correlation_id(
        #[trigger] placeholder_ids(n)[i],
    ) by {
        assert(placeholder_ids(n)[i] == placeholder_id());
        assert forall|j: int| 0 <= j < placeholder_id().len() implies is_lower_hex_digit(
            #[trigger] placeholder_id()[j],
        ) by {
            assert(placeholder_id()[j] == '0');
        }
    }
}

proof fn lemma_count_unfold(stages: Seq<StageKind>, i: int)
    requires
        0 <= i < stages.len(),
    ensures
        request_id_count(stages.skip(i)) == (if stages[i] is RequestId {
            1nat
        } else {
            0nat
        }) + request_id_count(stages.skip(i + 1)),
{
    assert(stages.skip(i).drop_first() =~= stages.skip(i + 1));
    assert(stages.skip(i)[0] == stages[i]);
}

} // verus!
