//! To which task an event of the journal belongs.
use vstd::prelude::*;
use crate::session::SessionEvent;

verus! {

/// Every event belongs to the task that it names; a prelude is everybody's.
pub proof fn law_an_event_belongs_to_the_task_it_names(event: SessionEvent)
    ensures
        event matches SessionEvent::UserMessage { task_id, .. } ==> event.owner() == Some(task_id),
        event matches SessionEvent::AssistantMessage { task_id, .. } ==> event.owner() == Some(task_id),
        event matches SessionEvent::SteeringQueued { task_id, .. } ==> event.owner() == Some(task_id),
        event matches SessionEvent::SteeringApplied { task_id, .. } ==> event.owner() == Some(task_id),
        event matches SessionEvent::ModelStarted { task_id, .. } ==> event.owner() == Some(task_id),
        event matches SessionEvent::ModelSuperseded { task_id, .. } ==> event.owner() == Some(task_id),
        event matches SessionEvent::ModelCompleted { task_id, .. } ==> event.owner() == Some(task_id),
        event matches SessionEvent::PtcStarted { task_id, .. } ==> event.owner() == Some(task_id),
        event matches SessionEvent::PtcCompleted { task_id, .. } ==> event.owner() == Some(task_id),
        event matches SessionEvent::PtcFailed { task_id, .. } ==> event.owner() == Some(task_id),
        event matches SessionEvent::RepeatedActionDetected { task_id, .. } ==> event.owner() == Some(task_id),
        event matches SessionEvent::GoalUpdated { task_id, .. } ==> event.owner() == Some(task_id),
        event matches SessionEvent::FinishProposed { task_id, .. } ==> event.owner() == Some(task_id),
        event matches SessionEvent::TaskCompleted { task_id, .. } ==> event.owner() == Some(task_id),
        event matches SessionEvent::TaskCancelRequested { task_id, .. } ==> event.owner() == Some(task_id),
        event matches SessionEvent::StatusChanged { task_id, .. } ==> event.owner() == Some(task_id),
        event matches SessionEvent::ContextWindowStarted { task_id, .. } ==> event.owner() == Some(task_id),
        event matches SessionEvent::Compacted { task_id, .. } ==> event.owner() == Some(task_id),
        event matches SessionEvent::EvidenceRecorded { evidence } ==> event.owner() == Some(evidence.task_id),
        event is PreludeLoaded ==> event.owner() is None,
        event matches SessionEvent::AgentSpawned { task_id, .. } ==> event.owner() == Some(task_id),
        event matches SessionEvent::AgentStateChanged { task_id, .. } ==> event.owner() == Some(task_id),
        event matches SessionEvent::AgentMessage { task_id, .. } ==> event.owner() == Some(task_id),
        event matches SessionEvent::AgentMessageApplied { task_id, .. } ==> event.owner() == Some(task_id),
        event matches SessionEvent::AgentCompleted { task_id, .. } ==> event.owner() == Some(task_id),
        event matches SessionEvent::ProcessSpawned { task_id, .. } ==> event.owner() == Some(task_id),
        event matches SessionEvent::ProcessStateChanged { task_id, .. } ==> event.owner() == Some(task_id),
        event matches SessionEvent::WorkspaceRevisionChanged { task_id, .. } ==> event.owner() == Some(task_id),
        event matches SessionEvent::IntegrationStarted { task_id, .. } ==> event.owner() == Some(task_id),
        event matches SessionEvent::IntegrationCompleted { task_id, .. } ==> event.owner() == Some(task_id),
        event matches SessionEvent::IntegrationConflict { task_id, .. } ==> event.owner() == Some(task_id),
        event matches SessionEvent::IntegrationDiscarded { task_id, .. } ==> event.owner() == Some(task_id),
{
}

} // verus!
