//! Requests that concern pipelines, on a node without a cluster.
use vstd::prelude::*;

use crate::definition::{
    CanaryState, CanaryThresholds, PipelineDefinition, ProcessorRef, RegistryResponse, SinkConfig,
    SourceConfig,
};
use crate::error::AeonError;
use crate::pipeline_manager::{
    blue_green_effect, canary_effect, canary_of, create_effect, cutover_effect, delete_effect,
    in_canary, promote_effect, reconfigure_sink_effect, reconfigure_source_effect,
    rollback_effect, start_effect, stop_effect, upgrade_effect, Definitions, PipelineManager,
};
use crate::rest_api::access::{name_objection, validate_resource_name};
use crate::rest_api::reply::{is_done, is_error, Reply};
use crate::text::{join2, join3};

verus! {

/// Who is recorded as having asked.
pub open spec fn api() -> Seq<char> {
    "api"@
}

/// By which method a running pipeline was changed.
pub open spec fn method_text(managed: bool) -> Option<Seq<char>> {
    if managed {
        Some("managed"@)
    } else {
        Some("metadata"@)
    }
}

fn method(managed: bool) -> (r: &'static str)
    ensures
        Some(r@) == method_text(managed),
{
    if managed {
        "managed"
    } else {
        "metadata"
    }
}

/// Creates a pipeline. Its name must be able to stand in a path.
pub fn create_pipeline(
    manager: &mut PipelineManager,
    definition: PipelineDefinition,
    now: i64,
) -> (r: Reply)
    requires
        old(manager).wf(),
        definition.wf(),
    ensures
        final(manager).wf(),
        match name_objection(definition.name@, "pipeline"@) {
            Some(text) => is_error(r, 400, text) && *final(manager) == *old(manager),
            None => exists|o: Result<RegistryResponse, AeonError>| #[trigger]
                create_effect(old(manager), final(manager), definition, now, o) && match o {
                    Ok(_) => is_done(r, 201, "created"@, None, false),
                    Err(e) => is_error(r, 400, e.text()),
                },
        },
{
    if let Err(reply) = validate_resource_name(definition.name.as_str(), "pipeline") {
        return reply;
    }
    let outcome = manager.create(definition, now);
    assert(create_effect(old(manager), manager, definition, now, outcome));
    match outcome {
        Ok(_) => Reply::done(201, "created", None, false),
        Err(e) => Reply::refused(&e),
    }
}

/// The refusal of a pipeline that is not declared.
pub open spec fn no_pipeline(name: Seq<char>) -> Seq<char> {
    "pipeline '"@ + name + "' not found"@
}

/// Looks a pipeline up.
pub fn get_pipeline<'a>(manager: &'a PipelineManager, name: &str) -> (r: Result<
    &'a PipelineDefinition,
    Reply,
>)
    requires
        manager.wf(),
    ensures
        match r {
            Ok(d) => manager.definitions().contains_key(name@) && *d
                == manager.definitions()[name@],
            Err(reply) => !manager.definitions().contains_key(name@) && is_error(
                reply,
                404,
                no_pipeline(name@),
            ),
        },
{
    match manager.get(name) {
        Some(d) => Ok(d),
        None => Err(Reply::error(404, join3("pipeline '", name, "' not found"))),
    }
}

/// Declares that a pipeline runs, or refuses to. The supervisor is asked next.
pub fn start_pipeline(manager: &mut PipelineManager, name: &str, now: i64) -> (r: Result<
    (),
    Reply,
>)
    requires
        old(manager).wf(),
    ensures
        final(manager).wf(),
        r is Ok ==> final(manager).definitions().contains_key(name@),
        exists|o: Result<(), AeonError>| #[trigger]
            start_effect(old(manager), final(manager), name@, api(), now, o) && match o {
                Ok(_) => r is Ok,
                Err(e) => r is Err && is_error(r->Err_0, 400, e.text()),
            },
{
    let outcome = manager.start(name, "api", now);
    assert(start_effect(old(manager), manager, name@, api(), now, outcome));
    match outcome {
        Ok(_) => Ok(()),
        Err(e) => Err(Reply::refused(&e)),
    }
}

/// Answers a request to start a pipeline, from what the supervisor says.
pub fn pipeline_started(outcome: Result<(), AeonError>) -> (r: Reply)
    ensures
        match outcome {
            Ok(_) => is_done(r, 200, "started"@, None, false),
            Err(e) => is_error(r, 400, e.text()),
        },
{
    match outcome {
        Ok(_) => Reply::done(200, "started", None, false),
        Err(e) => Reply::refused(&e),
    }
}

/// Declares that a pipeline does not run, and answers. The supervisor stops what runs under the
/// name after a reply that is no refusal.
pub fn stop_pipeline(manager: &mut PipelineManager, name: &str, now: i64) -> (r: Reply)
    requires
        old(manager).wf(),
    ensures
        final(manager).wf(),
        exists|o: Result<(), AeonError>| #[trigger]
            stop_effect(old(manager), final(manager), name@, api(), now, o) && match o {
                Ok(_) => is_done(r, 200, "stopped"@, None, false),
                Err(e) => is_error(r, 400, e.text()),
            },
{
    let outcome = manager.stop(name, "api", now);
    assert(stop_effect(old(manager), manager, name@, api(), now, outcome));
    match outcome {
        Ok(_) => Reply::done(200, "stopped", None, false),
        Err(e) => Reply::refused(&e),
    }
}

/// Moves a pipeline that this node does not run to another processor.
pub fn upgrade_pipeline(
    manager: &mut PipelineManager,
    name: &str,
    processor: ProcessorRef,
    now: i64,
) -> (r: Reply)
    requires
        old(manager).wf(),
    ensures
        final(manager).wf(),
        exists|o: Result<(), AeonError>| #[trigger]
            upgrade_effect(old(manager), final(manager), name@, processor, api(), now, o)
                && match o {
                Ok(_) => is_done(r, 200, "upgraded"@, Some("metadata"@), false),
                Err(e) => is_error(r, 400, e.text()),
            },
{
    let outcome = manager.upgrade(name, processor, "api", now);
    assert(upgrade_effect(old(manager), manager, name@, processor, api(), now, outcome));
    match outcome {
        Ok(_) => Reply::done(200, "upgraded", Some("metadata"), false),
        Err(e) => Reply::refused(&e),
    }
}

/// Moves a pipeline that this node runs to another processor, once its processor was swapped, or
/// could not be. A declaration that cannot follow the swap does not undo it.
pub fn pipeline_swapped(
    manager: &mut PipelineManager,
    name: &str,
    processor: ProcessorRef,
    swap: Result<(), String>,
    now: i64,
) -> (r: Reply)
    requires
        old(manager).wf(),
    ensures
        final(manager).wf(),
        match swap {
            Err(why) => is_error(r, 500, "drain-and-swap failed: "@ + why@) && *final(manager)
                == *old(manager),
            Ok(_) => is_done(r, 200, "upgraded"@, Some("hot-swap"@), false) && exists|
                o: Result<(), AeonError>,
            | #[trigger]
                upgrade_effect(old(manager), final(manager), name@, processor, api(), now, o),
        },
{
    if let Err(why) = swap {
        return Reply::error(500, join2("drain-and-swap failed: ", why.as_str()));
    }
    let outcome = manager.upgrade(name, processor, "api", now);
    assert(upgrade_effect(old(manager), manager, name@, processor, api(), now, outcome));
    Reply::done(200, "upgraded", Some("hot-swap"), false)
}

/// Declares a blue-green upgrade, or refuses to. A pipeline that this node runs is given the green
/// processor next.
pub fn upgrade_blue_green(
    manager: &mut PipelineManager,
    name: &str,
    processor: ProcessorRef,
    now: i64,
) -> (r: Result<(), Reply>)
    requires
        old(manager).wf(),
    ensures
        final(manager).wf(),
        exists|o: Result<(), AeonError>| #[trigger]
            blue_green_effect(old(manager), final(manager), name@, processor, api(), now, o)
                && match o {
                Ok(_) => r is Ok,
                Err(e) => r is Err && is_error(r->Err_0, 400, e.text()),
            },
{
    let outcome = manager.upgrade_blue_green(name, processor, "api", now);
    assert(blue_green_effect(old(manager), manager, name@, processor, api(), now, outcome));
    match outcome {
        Ok(_) => Ok(()),
        Err(e) => Err(Reply::refused(&e)),
    }
}

/// Answers a request for a blue-green upgrade, from what the pipeline that this node runs says,
/// where it runs it.
pub fn blue_green_started(outcome: Option<Result<(), String>>) -> (r: Reply)
    ensures
        match outcome {
            Some(Err(why)) => is_error(r, 500, "failed to start blue-green: "@ + why@),
            _ => is_done(r, 200, "blue-green-started"@, method_text(outcome is Some), false),
        },
{
    match outcome {
        Some(Err(why)) => Reply::error(500, join2("failed to start blue-green: ", why.as_str())),
        Some(Ok(_)) => Reply::done(200, "blue-green-started", Some(method(true)), false),
        None => Reply::done(200, "blue-green-started", Some(method(false)), false),
    }
}

/// The usual steps of a canary.
pub fn default_canary_steps() -> (r: Vec<u8>)
    ensures
        r@ == seq![10u8, 50u8, 100u8],
{
    let r: Vec<u8> = vec![10, 50, 100];
    assert(r@ =~= seq![10u8, 50u8, 100u8]);
    r
}

/// The share of the traffic that a canary starts with.
pub open spec fn initial_share(steps: Seq<u8>) -> u8 {
    if steps.len() > 0 {
        steps[0]
    } else {
        10
    }
}

/// Declares a canary upgrade, or refuses to. A pipeline that this node runs is given the canary
/// next, with the share of the traffic that is returned.
pub fn upgrade_canary(
    manager: &mut PipelineManager,
    name: &str,
    processor: ProcessorRef,
    steps: Vec<u8>,
    thresholds: CanaryThresholds,
    now: i64,
) -> (r: Result<u8, Reply>)
    requires
        old(manager).wf(),
    ensures
        final(manager).wf(),
        exists|o: Result<(), AeonError>| #[trigger]
            canary_effect(
                old(manager),
                final(manager),
                name@,
                processor,
                steps,
                thresholds,
                api(),
                now,
                o,
            ) && match o {
                Ok(_) => r == Ok::<u8, Reply>(initial_share(steps@)),
                Err(e) => r is Err && is_error(r->Err_0, 400, e.text()),
            },
{
    let share: u8 = if steps.len() > 0 {
        steps[0]
    } else {
        10
    };
    let outcome = manager.upgrade_canary(name, processor, steps, thresholds, "api", now);
    assert(canary_effect(
        old(manager),
        manager,
        name@,
        processor,
        steps,
        thresholds,
        api(),
        now,
        outcome,
    ));
    match outcome {
        Ok(_) => Ok(share),
        Err(e) => Err(Reply::refused(&e)),
    }
}

/// Answers a request for a canary upgrade, from what the pipeline that this node runs says, where
/// it runs it.
pub fn canary_started(outcome: Option<Result<(), String>>) -> (r: Reply)
    ensures
        match outcome {
            Some(Err(why)) => is_error(r, 500, "failed to start canary: "@ + why@),
            _ => is_done(r, 200, "canary-started"@, method_text(outcome is Some), false),
        },
{
    match outcome {
        Some(Err(why)) => Reply::error(500, join2("failed to start canary: ", why.as_str())),
        Some(Ok(_)) => Reply::done(200, "canary-started", Some(method(true)), false),
        None => Reply::done(200, "canary-started", Some(method(false)), false),
    }
}

/// What a pipeline that this node runs is told next.
#[derive(Debug, Clone, Copy, PartialEq, Eq, Structural)]
pub enum ControlAction {
    Nothing,
    CutOver,
    RollBack,
    CompleteCanary,
    SetCanaryPct(u8),
}

/// Cuts over to green. `managed` says whether this node runs the pipeline.
pub fn cutover_pipeline(manager: &mut PipelineManager, name: &str, managed: bool, now: i64) -> (r: (
    Reply,
    ControlAction,
))
    requires
        old(manager).wf(),
    ensures
        final(manager).wf(),
        exists|o: Result<(), AeonError>| #[trigger]
            cutover_effect(old(manager), final(manager), name@, api(), now, o) && match o {
                Ok(_) => is_done(r.0, 200, "cutover-complete"@, method_text(managed), false)
                    && r.1 == if managed {
                    ControlAction::CutOver
                } else {
                    ControlAction::Nothing
                },
                Err(e) => is_error(r.0, 400, e.text()) && r.1 == ControlAction::Nothing,
            },
{
    let outcome = manager.cutover(name, "api", now);
    assert(cutover_effect(old(manager), manager, name@, api(), now, outcome));
    match outcome {
        Ok(_) => (
            Reply::done(200, "cutover-complete", Some(method(managed)), false),
            if managed {
                ControlAction::CutOver
            } else {
                ControlAction::Nothing
            },
        ),
        Err(e) => (Reply::refused(&e), ControlAction::Nothing),
    }
}

/// Rolls an upgrade back. `managed` says whether this node runs the pipeline.
pub fn rollback_pipeline(manager: &mut PipelineManager, name: &str, managed: bool, now: i64) -> (r:
    (Reply, ControlAction))
    requires
        old(manager).wf(),
    ensures
        final(manager).wf(),
        exists|o: Result<(), AeonError>| #[trigger]
            rollback_effect(old(manager), final(manager), name@, api(), now, o) && match o {
                Ok(_) => is_done(r.0, 200, "rolled-back"@, method_text(managed), false) && r.1
                    == if managed {
                    ControlAction::RollBack
                } else {
                    ControlAction::Nothing
                },
                Err(e) => is_error(r.0, 400, e.text()) && r.1 == ControlAction::Nothing,
            },
{
    let outcome = manager.rollback_upgrade(name, "api", now);
    assert(rollback_effect(old(manager), manager, name@, api(), now, outcome));
    match outcome {
        Ok(_) => (
            Reply::done(200, "rolled-back", Some(method(managed)), false),
            if managed {
                ControlAction::RollBack
            } else {
                ControlAction::Nothing
            },
        ),
        Err(e) => (Reply::refused(&e), ControlAction::Nothing),
    }
}

/// What a pipeline that this node runs is told after its canary was moved on: nothing where the
/// canary is over, to take the canary for good where it has all of the traffic, else the new share.
pub open spec fn after_promotion(definitions: Definitions, name: Seq<char>, managed: bool)
    -> ControlAction {
    if !managed || !definitions.contains_key(name) || !in_canary(definitions[name]) {
        ControlAction::Nothing
    } else {
        let pct = canary_of(definitions[name]).traffic_pct;
        if pct >= 100 {
            ControlAction::CompleteCanary
        } else {
            ControlAction::SetCanaryPct(pct)
        }
    }
}

/// Moves a canary on. `managed` says whether this node runs the pipeline.
pub fn promote_canary(manager: &mut PipelineManager, name: &str, managed: bool, now: i64) -> (r: (
    Reply,
    ControlAction,
))
    requires
        old(manager).wf(),
    ensures
        final(manager).wf(),
        exists|o: Result<(), AeonError>| #[trigger]
            promote_effect(old(manager), final(manager), name@, api(), now, o) && match o {
                Ok(_) => is_done(r.0, 200, "promoted"@, method_text(managed), false) && r.1
                    == after_promotion(final(manager).definitions(), name@, managed),
                Err(e) => is_error(r.0, 400, e.text()) && r.1 == ControlAction::Nothing,
            },
{
    let outcome = manager.promote_canary(name, "api", now);
    assert(promote_effect(old(manager), manager, name@, api(), now, outcome));
    match outcome {
        Ok(_) => {
            let mut action = ControlAction::Nothing;
            if managed {
                if let Some(cs) = manager.canary_status(name) {
                    action =
                    if cs.traffic_pct >= 100 {
                        ControlAction::CompleteCanary
                    } else {
                        ControlAction::SetCanaryPct(cs.traffic_pct)
                    };
                }
            }
            (Reply::done(200, "promoted", Some(method(managed)), false), action)
        },
        Err(e) => (Reply::refused(&e), ControlAction::Nothing),
    }
}

/// Looks the canary of a pipeline up.
pub fn canary_status<'a>(manager: &'a PipelineManager, name: &str) -> (r: Result<
    &'a CanaryState,
    Reply,
>)
    requires
        manager.wf(),
    ensures
        ({
            let all = manager.definitions();
            let there = all.contains_key(name@) && in_canary(all[name@]);
            match r {
                Ok(cs) => there && *cs == canary_of(all[name@]),
                Err(reply) => !there && is_error(
                    reply,
                    404,
                    "no canary upgrade in progress for '"@ + name@ + "'"@,
                ),
            }
        }),
{
    match manager.canary_status(name) {
        Some(cs) => Ok(cs),
        None => Err(
            Reply::error(404, join3("no canary upgrade in progress for '", name, "'")),
        ),
    }
}

/// Changes the source of a pipeline to another of the same type.
pub fn reconfigure_source(
    manager: &mut PipelineManager,
    name: &str,
    source: SourceConfig,
    now: i64,
) -> (r: Reply)
    requires
        old(manager).wf(),
    ensures
        final(manager).wf(),
        exists|o: Result<(), AeonError>| #[trigger]
            reconfigure_source_effect(old(manager), final(manager), name@, source, now, o)
                && match o {
                Ok(_) => is_done(r, 200, "source-reconfigured"@, None, false),
                Err(e) => is_error(r, 400, e.text()),
            },
{
    let outcome = manager.reconfigure_source(name, source, now);
    assert(reconfigure_source_effect(old(manager), manager, name@, source, now, outcome));
    match outcome {
        Ok(_) => Reply::done(200, "source-reconfigured", None, false),
        Err(e) => Reply::refused(&e),
    }
}

/// Changes the sink of a pipeline to another of the same type.
pub fn reconfigure_sink(
    manager: &mut PipelineManager,
    name: &str,
    sink: SinkConfig,
    now: i64,
) -> (r: Reply)
    requires
        old(manager).wf(),
    ensures
        final(manager).wf(),
        exists|o: Result<(), AeonError>| #[trigger]
            reconfigure_sink_effect(old(manager), final(manager), name@, sink, now, o) && match o {
                Ok(_) => is_done(r, 200, "sink-reconfigured"@, None, false),
                Err(e) => is_error(r, 400, e.text()),
            },
{
    let outcome = manager.reconfigure_sink(name, sink, now);
    assert(reconfigure_sink_effect(old(manager), manager, name@, sink, now, outcome));
    match outcome {
        Ok(_) => Reply::done(200, "sink-reconfigured", None, false),
        Err(e) => Reply::refused(&e),
    }
}

/// Deletes a pipeline.
pub fn delete_pipeline(manager: &mut PipelineManager, name: &str) -> (r: Reply)
    requires
        old(manager).wf(),
    ensures
        final(manager).wf(),
        exists|o: Result<(), AeonError>| #[trigger]
            delete_effect(old(manager), final(manager), name@, o) && match o {
                Ok(_) => is_done(r, 200, "deleted"@, None, false),
                Err(e) => is_error(r, 400, e.text()),
            },
{
    let outcome = manager.delete(name);
    assert(delete_effect(old(manager), manager, name@, outcome));
    match outcome {
        Ok(_) => Reply::done(200, "deleted", None, false),
        Err(e) => Reply::refused(&e),
    }
}

/// A pipeline that this node runs is told of its canary as long as there is one: to take it for
/// good where it has all of the traffic, else its share. No other pipeline is told anything.
pub proof fn law_what_a_pipeline_is_told_of_its_canary(
    definitions: Definitions,
    name: Seq<char>,
    managed: bool,
)
    ensures
        ({
            let told = after_promotion(definitions, name, managed);
            let due = managed && definitions.contains_key(name) && definitions[name].upgrade_state
                is Some && definitions[name].upgrade_state->0 is Canary;
            &&& told == ControlAction::Nothing <==> !due
            &&& due ==> {
                let pct = definitions[name].upgrade_state->0->Canary_0.traffic_pct;
                &&& told == ControlAction::CompleteCanary <==> pct >= 100
                &&& told matches ControlAction::SetCanaryPct(share) ==> share == pct
                &&& pct < 100 ==> told is SetCanaryPct
            }
        }),
{
}

/// A canary begins with the share of its first step.
pub proof fn law_a_canary_begins_with_its_first_step(steps: Seq<u8>, first: u8)
    ensures
        initial_share(seq![first] + steps) == first,
        initial_share(Seq::empty()) == 10,
{
    assert((seq![first] + steps)[0] == first);
}

/// What is done to a pipeline that this node runs is told apart from what is only written down.
pub proof fn law_methods_are_told_apart(managed: bool)
    ensures
        method_text(managed) == Some("managed"@) <==> managed,
        method_text(managed) == Some("metadata"@) <==> !managed,
        api() == "api"@,
{
    reveal_strlit("managed");
    reveal_strlit("metadata");
    assert("managed"@.len() == 7 && "metadata"@.len() == 8);
}

/// The refusal names the pipeline that is not declared.
pub proof fn law_a_missing_pipeline_is_named(name: Seq<char>)
    ensures
        no_pipeline(name).len() == name.len() + 21,
        no_pipeline(name).subrange(10, 10 + name.len() as int) == name,
{
    reveal_strlit("pipeline '");
    reveal_strlit("' not found");
    assert(no_pipeline(name).subrange(10, 10 + name.len() as int) =~= name);
}

} // verus!
