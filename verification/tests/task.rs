use ohos_rs::abort::{AbortAction, AbortSignalStack, SignalState, TaskStatus};
use ohos_rs::task::{
    AsyncTask, AsyncWorkQos, Env, Error, ScopedTask, Status, Task, TypeName, ValueType,
};

struct DelaySum(u32, u32);

impl Task for DelaySum {
    type Output = u32;
    type JsValue = u32;

    fn compute(&mut self) -> Result<Self::Output, Error> {
        Ok(self.0 + self.1)
    }

    fn resolve(&mut self, _env: Env, output: Self::Output) -> Result<Self::JsValue, Error> {
        Ok(output)
    }
}

struct Failing;

impl Task for Failing {
    type Output = ();
    type JsValue = String;

    fn compute(&mut self) -> Result<Self::Output, Error> {
        Err(Error { status: Status::GenericFailure, reason: "boom".to_string() })
    }

    fn resolve(&mut self, _env: Env, _output: Self::Output) -> Result<Self::JsValue, Error> {
        Ok("never".to_string())
    }

    fn reject(&mut self, env: Env, err: Error) -> Result<Self::JsValue, Error> {
        Ok(format!("{}:{}", env.raw(), err.reason))
    }
}

fn states(stack: &AbortSignalStack<u32>) -> Vec<TaskStatus> {
    stack.signals.iter().map(|s| s.status).collect()
}

#[test]
fn task_defaults_pass_the_error_on_and_finish_cleanly() {
    let mut t = DelaySum(2, 3);
    let env = Env::from_raw(7);
    assert_eq!(Task::compute(&mut t).unwrap(), 5);
    assert_eq!(Task::resolve(&mut t, env, 5).unwrap(), 5);
    let e = Task::reject(&mut t, env, Error { status: Status::Cancelled, reason: "r".to_string() })
        .unwrap_err();
    assert_eq!(e.status, Status::Cancelled);
    assert_eq!(e.reason, "r");
    assert!(Task::finally(t, env).is_ok());
}

#[test]
fn scoped_task_forwards_to_task() {
    let env = Env::from_raw(42);
    let mut t = Failing;
    let err = ScopedTask::compute(&mut t).unwrap_err();
    assert_eq!(err.status, Status::GenericFailure);
    assert_eq!(ScopedTask::reject(&mut t, &env, err).unwrap(), "42:boom");
    assert_eq!(ScopedTask::resolve(&mut t, &env, ()).unwrap(), "never");
    assert!(ScopedTask::finally(t, env).is_ok());
    assert_eq!(env.raw(), 42);
}

#[test]
fn tasks_are_exposed_as_objects() {
    assert_eq!(<DelaySum as TypeName>::js_type_name(), "AsyncTask");
    assert_eq!(<DelaySum as TypeName>::value_type(), ValueType::Object);
}

#[test]
fn async_task_constructors_keep_their_parts() {
    let (stack, signal) = AbortSignalStack::<u32>::register(None);
    assert_eq!(stack.signals.len(), 1);

    let (t, s, q) = AsyncTask::new(DelaySum(1, 2)).into_parts();
    assert_eq!((t.0, t.1), (1, 2));
    assert_eq!((s, q), (None, None));

    let (_, s, q) = AsyncTask::with_signal(DelaySum(1, 2), signal).into_parts();
    assert_eq!((s, q), (Some(signal), None));

    let (_, s, q) = AsyncTask::with_optional_signal(DelaySum(1, 2), None).into_parts();
    assert_eq!((s, q), (None, None));

    let (_, s, q) = AsyncTask::with_qos(DelaySum(1, 2), AsyncWorkQos::Utility).into_parts();
    assert_eq!((s, q), (None, Some(AsyncWorkQos::Utility)));

    let (_, s, q) = AsyncTask::with_optional_qos(DelaySum(1, 2), Some(AsyncWorkQos::Background))
        .into_parts();
    assert_eq!((s, q), (None, Some(AsyncWorkQos::Background)));

    let (_, s, q) =
        AsyncTask::with_qos_and_signal(DelaySum(1, 2), AsyncWorkQos::UserInitiated, signal)
            .into_parts();
    assert_eq!((s, q), (Some(signal), Some(AsyncWorkQos::UserInitiated)));

    let (_, s, q) =
        AsyncTask::with_optional_qos_and_signal(DelaySum(1, 2), None, Some(signal)).into_parts();
    assert_eq!((s, q), (Some(signal), None));
}

#[test]
fn registrations_stack_up_on_one_signal() {
    let (stack, first) = AbortSignalStack::<u32>::register(None);
    let (stack, second) = AbortSignalStack::register(Some(stack));
    assert_eq!(first.slot(), 0);
    assert_eq!(second.slot(), 1);
    assert_eq!(stack.signals.len(), 2);
    assert_eq!(states(&stack), vec![TaskStatus::Pending, TaskStatus::Pending]);
    assert!(stack.signals.iter().all(|s| s.work.is_none() && s.callbacks.is_empty()));
}

#[test]
fn abort_runs_callbacks_and_cancels_work() {
    let (stack, first) = AbortSignalStack::<u32>::register(None);
    let (mut stack, second) = AbortSignalStack::register(Some(stack));
    first.on_abort(&mut stack, 10);
    first.on_abort(&mut stack, 11);
    second.on_abort(&mut stack, 20);
    stack.attach_work(first, 0xdead);
    assert_eq!(stack.signals[0].callbacks, vec![10, 11]);
    assert_eq!(stack.signals[1].callbacks, vec![20]);

    let actions = stack.abort(true);
    assert_eq!(
        actions,
        vec![
            AbortAction::RunCallbacks { slot: 0 },
            AbortAction::CancelWork { slot: 0, work: 0xdead },
            AbortAction::RunCallbacks { slot: 1 },
        ]
    );
    assert_eq!(states(&stack), vec![TaskStatus::Aborted, TaskStatus::Aborted]);

    let again = stack.abort(true);
    assert_eq!(again, actions);
    assert_eq!(states(&stack), vec![TaskStatus::Aborted, TaskStatus::Aborted]);
}

#[test]
fn abort_without_cancel_support_only_marks_and_runs() {
    let (mut stack, signal) = AbortSignalStack::<u32>::register(None);
    stack.attach_work(signal, 5);
    let actions = stack.abort(false);
    assert_eq!(actions, vec![AbortAction::RunCallbacks { slot: 0 }]);
    assert_eq!(states(&stack), vec![TaskStatus::Aborted]);
    assert_eq!(stack.signals[0].work, Some(5));
}

#[test]
fn abort_stops_after_a_completed_task() {
    let mut stack = AbortSignalStack {
        signals: vec![
            SignalState { work: Some(1), status: TaskStatus::Pending, callbacks: vec![1u32] },
            SignalState { work: Some(2), status: TaskStatus::Completed, callbacks: vec![2u32] },
            SignalState { work: Some(3), status: TaskStatus::Pending, callbacks: vec![3u32] },
        ],
    };
    let actions = stack.abort(true);
    assert_eq!(
        actions,
        vec![
            AbortAction::RunCallbacks { slot: 0 },
            AbortAction::CancelWork { slot: 0, work: 1 },
            AbortAction::RunCallbacks { slot: 1 },
        ]
    );
    assert_eq!(
        states(&stack),
        vec![TaskStatus::Aborted, TaskStatus::Completed, TaskStatus::Pending]
    );
}

#[test]
fn work_is_recorded_only_with_a_signal() {
    let (mut stack, signal) = AbortSignalStack::<u32>::register(None);
    stack.record_work(None, 3);
    assert_eq!(stack.signals[0].work, None);
    stack.record_work(Some(signal), 4);
    assert_eq!(stack.signals[0].work, Some(4));
    assert_eq!(states(&stack), vec![TaskStatus::Pending]);
}
