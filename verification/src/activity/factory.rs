//! The default activity factory: which activity executes each kind of
//! process element.

use vstd::prelude::*;
use crate::activity::traits::ActivityError;
use crate::elements::event::{EndEventActivity, IntermediateCatchEventActivity, IntermediateThrowEventActivity, StartEventActivity};
use crate::elements::gateway::{ExclusiveGatewayActivity, InclusiveGatewayActivity, ParallelGatewayActivity};
use crate::elements::task::{CallActivityTask, ManualTaskActivity, ScriptTaskActivity, ServiceTaskActivity, UserTaskActivity};
use crate::model::elements::{ProcessElement, ProcessElementView};

verus! {

/// An activity made by the default factory.
#[derive(Debug)]
pub enum ElementActivity {
    StartEvent(StartEventActivity),
    EndEvent(EndEventActivity),
    IntermediateCatchEvent(IntermediateCatchEventActivity),
    IntermediateThrowEvent(IntermediateThrowEventActivity),
    ServiceTask(ServiceTaskActivity),
    UserTask(UserTaskActivity),
    ScriptTask(ScriptTaskActivity),
    ManualTask(ManualTaskActivity),
    ExclusiveGateway(ExclusiveGatewayActivity),
    ParallelGateway(ParallelGatewayActivity),
    InclusiveGateway(InclusiveGatewayActivity),
    CallActivity(CallActivityTask),
}

impl ElementActivity {
    /// The element the activity executes.
    pub open spec fn element(self) -> ProcessElementView {
        match self {
            ElementActivity::StartEvent(a) => ProcessElementView::StartEvent(a.event()),
            ElementActivity::EndEvent(a) => ProcessElementView::EndEvent(a.event()),
            ElementActivity::IntermediateCatchEvent(a) => ProcessElementView::IntermediateCatchEvent(a.event()),
            ElementActivity::IntermediateThrowEvent(a) => ProcessElementView::IntermediateThrowEvent(a.event()),
            ElementActivity::ServiceTask(a) => ProcessElementView::ServiceTask(a.task()@),
            ElementActivity::UserTask(a) => ProcessElementView::UserTask(a.task()),
            ElementActivity::ScriptTask(a) => ProcessElementView::ScriptTask(a.task()),
            ElementActivity::ManualTask(a) => ProcessElementView::ManualTask(a.task()),
            ElementActivity::ExclusiveGateway(a) => ProcessElementView::ExclusiveGateway(a.gateway()),
            ElementActivity::ParallelGateway(a) => ProcessElementView::ParallelGateway(a.gateway()),
            ElementActivity::InclusiveGateway(a) => ProcessElementView::InclusiveGateway(a.gateway()),
            ElementActivity::CallActivity(a) => ProcessElementView::CallActivity(a.task()@),
        }
    }

    /// The ID of the element the activity executes.
    pub fn id(&self) -> (r: &str)
        ensures
            r@ == self.element().id()@,
    {
        match self {
            ElementActivity::StartEvent(a) => a.id(),
            ElementActivity::EndEvent(a) => a.id(),
            ElementActivity::IntermediateCatchEvent(a) => a.id(),
            ElementActivity::IntermediateThrowEvent(a) => a.id(),
            ElementActivity::ServiceTask(a) => a.id(),
            ElementActivity::UserTask(a) => a.id(),
            ElementActivity::ScriptTask(a) => a.id(),
            ElementActivity::ManualTask(a) => a.id(),
            ElementActivity::ExclusiveGateway(a) => a.id(),
            ElementActivity::ParallelGateway(a) => a.id(),
            ElementActivity::InclusiveGateway(a) => a.id(),
            ElementActivity::CallActivity(a) => a.id(),
        }
    }
}

impl ElementActivity {
    /// The name of the element the activity executes, if any.
    pub fn name(&self) -> (r: Option<&str>)
        ensures
            r matches Some(n) ==> self.element().base().name matches Some(m) && m@ == n@,
            r is None ==> self.element().base().name is None,
    {
        match self {
            ElementActivity::StartEvent(a) => a.name(),
            ElementActivity::EndEvent(a) => a.name(),
            ElementActivity::IntermediateCatchEvent(a) => a.name(),
            ElementActivity::IntermediateThrowEvent(a) => a.name(),
            ElementActivity::ServiceTask(a) => a.name(),
            ElementActivity::UserTask(a) => a.name(),
            ElementActivity::ScriptTask(a) => a.name(),
            ElementActivity::ManualTask(a) => a.name(),
            ElementActivity::ExclusiveGateway(a) => a.name(),
            ElementActivity::ParallelGateway(a) => a.name(),
            ElementActivity::InclusiveGateway(a) => a.name(),
            ElementActivity::CallActivity(a) => a.name(),
        }
    }
}

/// Default Activity Factory: makes the activity for each kind of process
/// element; data elements are referenced, not executed.
#[derive(Debug)]
pub struct DefaultActivityFactory;

impl DefaultActivityFactory {
    pub fn new() -> (r: Self) {
        Self
    }

    /// The activity that executes `element`: an error for a data object,
    /// data input, data output or data object reference.
    pub fn create_activity(&self, element: &ProcessElement) -> (r: Result<ElementActivity, ActivityError>)
        ensures
            match element@ {
                ProcessElementView::DataObject(_) => r matches Err(ActivityError::InvalidElement(m)) && m@
                    == "DataObject is not executable"@,
                ProcessElementView::DataInput(_) => r matches Err(ActivityError::InvalidElement(m)) && m@
                    == "DataInput is not executable"@,
                ProcessElementView::DataOutput(_) => r matches Err(ActivityError::InvalidElement(m)) && m@
                    == "DataOutput is not executable"@,
                ProcessElementView::DataObjectReference(_) => r matches Err(ActivityError::InvalidElement(m))
                    && m@ == "DataObjectReference is not executable"@,
                _ => r matches Ok(a) && a.element() == element@,
            },
    {
        match element {
            ProcessElement::StartEvent(e) => Ok(ElementActivity::StartEvent(StartEventActivity::new(e.clone()))),
            ProcessElement::EndEvent(e) => Ok(ElementActivity::EndEvent(EndEventActivity::new(e.clone()))),
            ProcessElement::IntermediateCatchEvent(e) => Ok(
                ElementActivity::IntermediateCatchEvent(IntermediateCatchEventActivity::new(e.clone())),
            ),
            ProcessElement::IntermediateThrowEvent(e) => Ok(
                ElementActivity::IntermediateThrowEvent(IntermediateThrowEventActivity::new(e.clone())),
            ),
            ProcessElement::ServiceTask(e) => Ok(ElementActivity::ServiceTask(ServiceTaskActivity::new(e.clone()))),
            ProcessElement::UserTask(e) => Ok(ElementActivity::UserTask(UserTaskActivity::new(e.clone()))),
            ProcessElement::ScriptTask(e) => Ok(ElementActivity::ScriptTask(ScriptTaskActivity::new(e.clone()))),
            ProcessElement::ManualTask(e) => Ok(ElementActivity::ManualTask(ManualTaskActivity::new(e.clone()))),
            ProcessElement::ExclusiveGateway(e) => Ok(
                ElementActivity::ExclusiveGateway(ExclusiveGatewayActivity::new(e.clone())),
            ),
            ProcessElement::ParallelGateway(e) => Ok(
                ElementActivity::ParallelGateway(ParallelGatewayActivity::new(e.clone())),
            ),
            ProcessElement::InclusiveGateway(e) => Ok(
                ElementActivity::InclusiveGateway(InclusiveGatewayActivity::new(e.clone())),
            ),
            ProcessElement::DataObject(_) => Err(ActivityError::InvalidElement("DataObject is not executable".to_owned())),
            ProcessElement::DataInput(_) => Err(ActivityError::InvalidElement("DataInput is not executable".to_owned())),
            ProcessElement::DataOutput(_) => Err(ActivityError::InvalidElement("DataOutput is not executable".to_owned())),
            ProcessElement::DataObjectReference(_) => Err(
                ActivityError::InvalidElement("DataObjectReference is not executable".to_owned()),
            ),
            ProcessElement::CallActivity(e) => Ok(ElementActivity::CallActivity(CallActivityTask::new(e.clone()))),
        }
    }
}

impl Default for DefaultActivityFactory {
    fn default() -> (r: Self) {
        Self::new()
    }
}

} // verus!
