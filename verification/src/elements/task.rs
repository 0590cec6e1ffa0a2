//! Task activities: service, user, script and manual tasks, and call
//! activities.

use vstd::prelude::*;
use crate::activity::traits::{ActivityError, ActivityResult};
use crate::engine::context::{ExecutionContext, ExecutionContextView};
use crate::json_value::{JsonData, JsonValue};
use crate::model::elements::{CallActivity, ManualTask, MultiInstanceLoopCharacteristics, ScriptTask, ServiceTask, UserTask};
use crate::text::{decimal_text, int_text};

verus! {

/// The number of instances a multi-instance activity runs: its loop
/// cardinality, or 1.
pub open spec fn instance_count(mi: MultiInstanceLoopCharacteristics) -> int {
    match mi.loop_cardinality {
        Some(c) => c as int,
        None => 1,
    }
}

/// The context after a task with ID `id` and loop characteristics `lc`
/// starts: a multi-instance task records its instance count, and that no
/// instance has completed nor is active, in variables named after its ID.
pub open spec fn with_instance_counters(
    c: ExecutionContextView,
    id: Seq<char>,
    lc: Option<MultiInstanceLoopCharacteristics>,
) -> ExecutionContextView {
    match lc {
        Some(mi) => c.with_variable("_mi_count_"@ + id, JsonData::Number(int_text(instance_count(mi))))
            .with_variable("_mi_completed_"@ + id, JsonData::Number("0"@))
            .with_variable("_mi_active_"@ + id, JsonData::Number("0"@)),
        None => c,
    }
}

/// Records the instance counters of a multi-instance task.
fn set_instance_counters(context: &mut ExecutionContext, id: &str, lc: &Option<MultiInstanceLoopCharacteristics>)
    ensures
        final(context)@ == with_instance_counters(old(context)@, id@, *lc),
{
    match lc {
        Some(mi) => {
            let count: i64 = match mi.loop_cardinality {
                Some(c) => c as i64,
                None => 1,
            };
            context.set_variable("_mi_count_".to_owned().concat(id), JsonValue::Number(decimal_text(count)));
            context.set_variable("_mi_completed_".to_owned().concat(id), JsonValue::Number("0".to_owned()));
            context.set_variable("_mi_active_".to_owned().concat(id), JsonValue::Number("0".to_owned()));
        },
        None => {},
    }
}

/// Service Task Activity: completes at once, after recording the instance
/// counters of a multi-instance task.
#[derive(Debug)]
pub struct ServiceTaskActivity {
    task: ServiceTask,
}

impl ServiceTaskActivity {
    /// The element this activity executes.
    pub closed spec fn task(self) -> ServiceTask {
        self.task
    }

    pub fn new(task: ServiceTask) -> (r: Self)
        ensures
            r.task() == task,
    {
        Self { task }
    }

    /// The element's ID.
    pub fn id(&self) -> (r: &str)
        ensures
            r@ == self.task().base.id@,
    {
        self.task.base.id.as_str()
    }

    /// The element's name, if any.
    pub fn name(&self) -> (r: Option<&str>)
        ensures
            r matches Some(n) ==> self.task().base.name matches Some(m) && m@ == n@,
            r is None ==> self.task().base.name is None,
    {
        match &self.task.base.name {
            Some(n) => Some(n.as_str()),
            None => None,
        }
    }

    /// Records the instance counters, if any, and completes.
    pub fn execute(&self, context: &mut ExecutionContext) -> (r: Result<ActivityResult, ActivityError>)
        ensures
            final(context)@ == with_instance_counters(old(context)@, self.task().base.id@, self.task().loop_characteristics),
            r matches Ok(ActivityResult::Completed { output_variables: None }),
    {
        set_instance_counters(context, self.task.base.id.as_str(), &self.task.loop_characteristics);
        Ok(ActivityResult::Completed { output_variables: None })
    }
}

/// User Task Activity: records the instance counters of a multi-instance
/// task, then waits for user input.
#[derive(Debug)]
pub struct UserTaskActivity {
    task: UserTask,
}

impl UserTaskActivity {
    /// The element this activity executes.
    pub closed spec fn task(self) -> UserTask {
        self.task
    }

    pub fn new(task: UserTask) -> (r: Self)
        ensures
            r.task() == task,
    {
        Self { task }
    }

    /// The element's ID.
    pub fn id(&self) -> (r: &str)
        ensures
            r@ == self.task().base.id@,
    {
        self.task.base.id.as_str()
    }

    /// The element's name, if any.
    pub fn name(&self) -> (r: Option<&str>)
        ensures
            r matches Some(n) ==> self.task().base.name matches Some(m) && m@ == n@,
            r is None ==> self.task().base.name is None,
    {
        match &self.task.base.name {
            Some(n) => Some(n.as_str()),
            None => None,
        }
    }

    /// Records the instance counters, if any, and waits for the user.
    pub fn execute(&self, context: &mut ExecutionContext) -> (r: Result<ActivityResult, ActivityError>)
        ensures
            final(context)@ == with_instance_counters(old(context)@, self.task().base.id@, self.task().loop_characteristics),
            r matches Ok(ActivityResult::Waiting { reason }) && reason@ == "User task '"@ + self.task().base.id@
                + "' waiting for user input"@,
    {
        set_instance_counters(context, self.task.base.id.as_str(), &self.task.loop_characteristics);
        let reason = "User task '".to_owned().concat(self.task.base.id.as_str()).concat("' waiting for user input");
        Ok(ActivityResult::Waiting { reason })
    }
}

/// Script Task Activity: completes at once, after recording the instance
/// counters of a multi-instance task.
#[derive(Debug)]
pub struct ScriptTaskActivity {
    task: ScriptTask,
}

impl ScriptTaskActivity {
    /// The element this activity executes.
    pub closed spec fn task(self) -> ScriptTask {
        self.task
    }

    pub fn new(task: ScriptTask) -> (r: Self)
        ensures
            r.task() == task,
    {
        Self { task }
    }

    /// The element's ID.
    pub fn id(&self) -> (r: &str)
        ensures
            r@ == self.task().base.id@,
    {
        self.task.base.id.as_str()
    }

    /// The element's name, if any.
    pub fn name(&self) -> (r: Option<&str>)
        ensures
            r matches Some(n) ==> self.task().base.name matches Some(m) && m@ == n@,
            r is None ==> self.task().base.name is None,
    {
        match &self.task.base.name {
            Some(n) => Some(n.as_str()),
            None => None,
        }
    }

    /// Records the instance counters, if any, and completes.
    pub fn execute(&self, context: &mut ExecutionContext) -> (r: Result<ActivityResult, ActivityError>)
        ensures
            final(context)@ == with_instance_counters(old(context)@, self.task().base.id@, self.task().loop_characteristics),
            r matches Ok(ActivityResult::Completed { output_variables: None }),
    {
        set_instance_counters(context, self.task.base.id.as_str(), &self.task.loop_characteristics);
        Ok(ActivityResult::Completed { output_variables: None })
    }
}

/// Manual Task Activity: manual work happens outside the system, so the
/// task completes at once.
#[derive(Debug)]
pub struct ManualTaskActivity {
    task: ManualTask,
}

impl ManualTaskActivity {
    /// The element this activity executes.
    pub closed spec fn task(self) -> ManualTask {
        self.task
    }

    pub fn new(task: ManualTask) -> (r: Self)
        ensures
            r.task() == task,
    {
        Self { task }
    }

    /// The element's ID.
    pub fn id(&self) -> (r: &str)
        ensures
            r@ == self.task().base.id@,
    {
        self.task.base.id.as_str()
    }

    /// The element's name, if any.
    pub fn name(&self) -> (r: Option<&str>)
        ensures
            r matches Some(n) ==> self.task().base.name matches Some(m) && m@ == n@,
            r is None ==> self.task().base.name is None,
    {
        match &self.task.base.name {
            Some(n) => Some(n.as_str()),
            None => None,
        }
    }

    /// Completes.
    pub fn execute(&self, context: &mut ExecutionContext) -> (r: Result<ActivityResult, ActivityError>)
        ensures
            final(context)@ == old(context)@,
            r matches Ok(ActivityResult::Completed { output_variables: None }),
    {
        Ok(ActivityResult::Completed { output_variables: None })
    }
}

/// Call Activity Task: the platform invokes the called process, so the
/// activity completes at once, whether or not it names one.
#[derive(Debug)]
pub struct CallActivityTask {
    task: CallActivity,
}

impl CallActivityTask {
    /// The element this activity executes.
    pub closed spec fn task(self) -> CallActivity {
        self.task
    }

    pub fn new(task: CallActivity) -> (r: Self)
        ensures
            r.task() == task,
    {
        Self { task }
    }

    /// The element's ID.
    pub fn id(&self) -> (r: &str)
        ensures
            r@ == self.task().base.id@,
    {
        self.task.base.id.as_str()
    }

    /// The element's name, if any.
    pub fn name(&self) -> (r: Option<&str>)
        ensures
            r matches Some(n) ==> self.task().base.name matches Some(m) && m@ == n@,
            r is None ==> self.task().base.name is None,
    {
        match &self.task.base.name {
            Some(n) => Some(n.as_str()),
            None => None,
        }
    }

    /// Completes.
    pub fn execute(&self, context: &mut ExecutionContext) -> (r: Result<ActivityResult, ActivityError>)
        ensures
            final(context)@ == old(context)@,
            r matches Ok(ActivityResult::Completed { output_variables: None }),
    {
        Ok(ActivityResult::Completed { output_variables: None })
    }
}

} // verus!
