//! Background work run on the libuv thread pool, and the handle that a
//! binding returns for it.
//!
//! A task computes off the JavaScript thread ([`Task::compute`]), then turns
//! the result into a JavaScript value on it ([`Task::resolve`] when the
//! computation succeeded, [`Task::reject`] when it failed), and finally
//! releases what it holds ([`Task::finally`]).
use vstd::prelude::*;

use crate::abort::AbortSignal;

verus! {

/// The status codes of Node-API calls.
#[derive(Clone, Copy, Debug, PartialEq, Eq, Structural)]
pub enum Status {
    NapiOk,
    InvalidArg,
    ObjectExpected,
    StringExpected,
    NameExpected,
    FunctionExpected,
    NumberExpected,
    BooleanExpected,
    ArrayExpected,
    GenericFailure,
    PendingException,
    Cancelled,
    EscapeCalledTwice,
    HandleScopeMismatch,
    CallbackScopeMismatch,
    QueueFull,
    Closing,
    BigintExpected,
    DateExpected,
    ArrayBufferExpected,
    DetachableArraybufferExpected,
    WouldDeadlock,
    NoExternalBuffersAllowed,
    Unknown,
}

/// An error of a task: a status and a reason.
#[derive(Debug)]
pub struct Error {
    pub status: Status,
    pub reason: String,
}

/// The kinds of JavaScript values.
#[derive(Clone, Copy, Debug, PartialEq, Eq, Structural)]
pub enum ValueType {
    Undefined,
    Null,
    Boolean,
    Number,
    String,
    Symbol,
    Object,
    Function,
    External,
    BigInt,
    Unknown,
}

/// The quality-of-service level at which queued work runs.
#[derive(Clone, Copy, Debug, PartialEq, Eq, Structural)]
pub enum AsyncWorkQos {
    Background,
    Utility,
    Default,
    UserInitiated,
}

/// A handle on the JavaScript environment a task runs in.
#[derive(Clone, Copy, Debug, PartialEq, Eq, Structural)]
pub struct Env {
    raw: usize,
}

impl Env {
    /// The raw handle of the environment.
    pub closed spec fn spec_raw(self) -> usize {
        self.raw
    }

    /// The environment with the given raw handle.
    pub fn from_raw(raw: usize) -> (r: Env)
        ensures
            r.spec_raw() == raw,
    {
        Env { raw }
    }

    /// The raw handle of the environment.
    pub fn raw(&self) -> (r: usize)
        ensures
            r == self.spec_raw(),
    {
        self.raw
    }
}

/// Background work executed on the libuv thread pool.
///
/// Implement [`compute`](Task::compute) for the off-thread work and
/// [`resolve`](Task::resolve) to convert the result on the JS thread.
///
/// Each step states what it does through a relation that an implementation
/// may define (`compute_post`, `resolve_post`, `reject_post`,
/// `finally_post`), over the task before and after the step, the step's
/// arguments and its result. `reject` either passes the error on, leaving
/// the task as it was (what the provided `reject` does), or meets
/// `reject_post`; `finally` either succeeds (what the provided `finally`
/// does) or meets `finally_post`.
pub trait Task: Send + Sized {
    type Output: Send + Sized + 'static;

    type JsValue;

    /// What `compute` does: by default nothing is stated.
    open spec fn compute_post(before: Self, after: Self, r: Result<Self::Output, Error>) -> bool {
        true
    }

    /// What `resolve` does: by default nothing is stated.
    open spec fn resolve_post(
        before: Self,
        after: Self,
        env: Env,
        output: Self::Output,
        r: Result<Self::JsValue, Error>,
    ) -> bool {
        true
    }

    /// What an overriding `reject` does besides passing the error on: by
    /// default nothing else.
    open spec fn reject_post(
        before: Self,
        after: Self,
        env: Env,
        err: Error,
        r: Result<Self::JsValue, Error>,
    ) -> bool {
        false
    }

    /// What an overriding `finally` does besides succeeding: by default
    /// nothing else.
    open spec fn finally_post(before: Self, env: Env, r: Result<(), Error>) -> bool {
        false
    }

    /// Compute logic in the libuv thread.
    fn compute(&mut self) -> (r: Result<Self::Output, Error>)
        ensures
            Self::compute_post(*old(self), *final(self), r),
    ;

    /// Called when `compute` returned `Ok`.
    fn resolve(&mut self, env: Env, output: Self::Output) -> (r: Result<Self::JsValue, Error>)
        ensures
            Self::resolve_post(*old(self), *final(self), env, output, r),
    ;

    /// Called when `compute` returned `Err`; by default the error is passed on.
    fn reject(&mut self, env: Env, err: Error) -> (r: Result<Self::JsValue, Error>)
        ensures
            passes_error_on(*old(self), *final(self), err, r) || Self::reject_post(
                *old(self),
                *final(self),
                env,
                err,
                r,
            ),
        default_ensures
            r matches Err(e) && e == err,
            *final(self) == *old(self),
    {
        Err(err)
    }

    /// Called after `resolve` or `reject`; by default it does nothing.
    fn finally(self, env: Env) -> (r: Result<(), Error>)
        ensures
            r is Ok || Self::finally_post(self, env, r),
        default_ensures
            r is Ok,
    {
        Ok(())
    }
}

/// `reject` passed the error `err` on and left the task as it was.
pub open spec fn passes_error_on<S, V>(before: S, after: S, err: Error, r: Result<V, Error>) -> bool {
    &&& after == before
    &&& r matches Err(e) && e == err
}

/// Like [`Task`], but the JavaScript value may borrow the environment for
/// the lifetime `'task`.
pub trait ScopedTask<'task>: Send + Sized {
    type Output: Send + Sized + 'static;

    type JsValue;

    /// What `compute` does: by default nothing is stated.
    open spec fn compute_post(before: Self, after: Self, r: Result<Self::Output, Error>) -> bool {
        true
    }

    /// What `resolve` does: by default nothing is stated.
    open spec fn resolve_post(
        before: Self,
        after: Self,
        env: Env,
        output: Self::Output,
        r: Result<Self::JsValue, Error>,
    ) -> bool {
        true
    }

    /// What an overriding `reject` does besides passing the error on: by
    /// default nothing else.
    open spec fn reject_post(
        before: Self,
        after: Self,
        env: Env,
        err: Error,
        r: Result<Self::JsValue, Error>,
    ) -> bool {
        false
    }

    /// What an overriding `finally` does besides succeeding: by default
    /// nothing else.
    open spec fn finally_post(before: Self, env: Env, r: Result<(), Error>) -> bool {
        false
    }

    /// Compute logic in the libuv thread.
    fn compute(&mut self) -> (r: Result<Self::Output, Error>)
        ensures
            Self::compute_post(*old(self), *final(self), r),
    ;

    /// Called when `compute` returned `Ok`.
    fn resolve(&mut self, env: &'task Env, output: Self::Output) -> (r: Result<
        Self::JsValue,
        Error,
    >)
        ensures
            Self::resolve_post(*old(self), *final(self), *env, output, r),
    ;

    /// Called when `compute` returned `Err`; by default the error is passed on.
    fn reject(&mut self, env: &'task Env, err: Error) -> (r: Result<Self::JsValue, Error>)
        ensures
            passes_error_on(*old(self), *final(self), err, r) || Self::reject_post(
                *old(self),
                *final(self),
                *env,
                err,
                r,
            ),
        default_ensures
            r matches Err(e) && e == err,
            *final(self) == *old(self),
    {
        Err(err)
    }

    /// Called after `resolve` or `reject`; by default it does nothing.
    fn finally(self, env: Env) -> (r: Result<(), Error>)
        ensures
            r is Ok || Self::finally_post(self, env, r),
        default_ensures
            r is Ok,
    {
        Ok(())
    }
}

/// Every [`Task`] is a [`ScopedTask`]: each step is the task's own, and so
/// is what each step states.
impl<'a, T: Task> ScopedTask<'a> for T {
    type Output = T::Output;

    type JsValue = T::JsValue;

    open spec fn compute_post(before: Self, after: Self, r: Result<Self::Output, Error>) -> bool {
        <T as Task>::compute_post(before, after, r)
    }

    open spec fn resolve_post(
        before: Self,
        after: Self,
        env: Env,
        output: Self::Output,
        r: Result<Self::JsValue, Error>,
    ) -> bool {
        <T as Task>::resolve_post(before, after, env, output, r)
    }

    open spec fn reject_post(
        before: Self,
        after: Self,
        env: Env,
        err: Error,
        r: Result<Self::JsValue, Error>,
    ) -> bool {
        <T as Task>::reject_post(before, after, env, err, r)
    }

    open spec fn finally_post(before: Self, env: Env, r: Result<(), Error>) -> bool {
        <T as Task>::finally_post(before, env, r)
    }

    fn compute(&mut self) -> Result<Self::Output, Error> {
        T::compute(self)
    }

    fn resolve(&mut self, env: &'a Env, output: Self::Output) -> Result<Self::JsValue, Error> {
        let own = Env::from_raw(env.raw());
        assert(own == *env);
        T::resolve(self, own, output)
    }

    fn reject(&mut self, env: &'a Env, err: Error) -> Result<Self::JsValue, Error> {
        let own = Env::from_raw(env.raw());
        assert(own == *env);
        T::reject(self, own, err)
    }

    fn finally(self, env: Env) -> (r: Result<(), Error>)
        ensures
            call_ensures(<T as Task>::finally, (self, env), r),
    {
        T::finally(self, env)
    }
}

/// Running a task's `finally` through [`ScopedTask`] gives exactly an
/// outcome that the task's own `finally` gives: a failing cleanup fails
/// through either interface.
pub proof fn lemma_scoped_finally_is_task_finally<'a, T: Task>(
    task: T,
    env: Env,
    r: Result<(), Error>,
)
    requires
        call_ensures(<T as ScopedTask<'a>>::finally, (task, env), r),
    ensures
        call_ensures(<T as Task>::finally, (task, env), r),
        r is Ok || <T as Task>::finally_post(task, env, r),
{
}

/// The name and JavaScript kind of the value a binding returns.
pub trait TypeName {
    fn js_type_name() -> &'static str;

    fn value_type() -> ValueType;
}

/// A task is exposed to JavaScript as an object, a `Promise`.
impl<T: for<'task> ScopedTask<'task>> TypeName for T {
    fn js_type_name() -> (r: &'static str)
        ensures
            r@ == "AsyncTask"@,
    {
        "AsyncTask"
    }

    fn value_type() -> (r: ValueType)
        ensures
            r == ValueType::Object,
    {
        ValueType::Object
    }
}

/// Runs a [`Task`] / [`ScopedTask`] on the libuv thread pool and resolves a
/// JavaScript `Promise`; optionally abortable through an abort signal, and
/// optionally at a given quality of service.
pub struct AsyncTask<T: for<'task> ScopedTask<'task>> {
    inner: T,
    abort_signal: Option<AbortSignal>,
    qos: Option<AsyncWorkQos>,
}

impl<T: for<'task> ScopedTask<'task>> AsyncTask<T> {
    /// The task to run.
    pub closed spec fn task(self) -> T {
        self.inner
    }

    /// The abort signal the task listens to, if any.
    pub closed spec fn signal(self) -> Option<AbortSignal> {
        self.abort_signal
    }

    /// The quality of service requested for the work, if any.
    pub closed spec fn qos_level(self) -> Option<AsyncWorkQos> {
        self.qos
    }

    /// The task, with no abort signal and the default quality of service.
    pub fn new(task: T) -> (r: Self)
        ensures
            r.task() == task,
            r.signal() is None,
            r.qos_level() is None,
    {
        Self { inner: task, abort_signal: None, qos: None }
    }

    /// The task, abortable through `signal`.
    pub fn with_signal(task: T, signal: AbortSignal) -> (r: Self)
        ensures
            r.task() == task,
            r.signal() == Some(signal),
            r.qos_level() is None,
    {
        Self { inner: task, abort_signal: Some(signal), qos: None }
    }

    /// The task, abortable through `signal` when one is given.
    pub fn with_optional_signal(task: T, signal: Option<AbortSignal>) -> (r: Self)
        ensures
            r.task() == task,
            r.signal() == signal,
            r.qos_level() is None,
    {
        Self { inner: task, abort_signal: signal, qos: None }
    }

    /// The task, run at quality of service `qos`.
    pub fn with_qos(task: T, qos: AsyncWorkQos) -> (r: Self)
        ensures
            r.task() == task,
            r.signal() is None,
            r.qos_level() == Some(qos),
    {
        Self { inner: task, abort_signal: None, qos: Some(qos) }
    }

    /// The task, run at quality of service `qos` when one is given.
    pub fn with_optional_qos(task: T, qos: Option<AsyncWorkQos>) -> (r: Self)
        ensures
            r.task() == task,
            r.signal() is None,
            r.qos_level() == qos,
    {
        Self { inner: task, abort_signal: None, qos }
    }

    /// The task, run at quality of service `qos` and abortable through `signal`.
    pub fn with_qos_and_signal(task: T, qos: AsyncWorkQos, signal: AbortSignal) -> (r: Self)
        ensures
            r.task() == task,
            r.signal() == Some(signal),
            r.qos_level() == Some(qos),
    {
        Self { inner: task, abort_signal: Some(signal), qos: Some(qos) }
    }

    /// The task, with the quality of service and the abort signal that are given.
    pub fn with_optional_qos_and_signal(
        task: T,
        qos: Option<AsyncWorkQos>,
        signal: Option<AbortSignal>,
    ) -> (r: Self)
        ensures
            r.task() == task,
            r.signal() == signal,
            r.qos_level() == qos,
    {
        Self { inner: task, abort_signal: signal, qos }
    }

    /// `with_optional_signal` builds what `new` builds when no signal is
    /// given and what `with_signal` builds when one is: `optional` stands for
    /// the result of `with_optional_signal(task, signal)` and `chosen` for
    /// that of the constructor chosen by hand, each by its contract.
    pub proof fn lemma_with_optional_signal_cases(
        task: T,
        signal: Option<AbortSignal>,
        optional: Self,
        chosen: Self,
    )
        requires
            optional.task() == task && optional.signal() == signal && optional.qos_level() is None,
            match signal {
                None => chosen.task() == task && chosen.signal() is None && chosen.qos_level() is None,
                Some(s) => chosen.task() == task && chosen.signal() == Some(s)
                    && chosen.qos_level() is None,
            },
        ensures
            optional == chosen,
    {
    }

    /// `with_optional_qos` builds what `new` builds when no quality of
    /// service is given and what `with_qos` builds when one is.
    pub proof fn lemma_with_optional_qos_cases(
        task: T,
        qos: Option<AsyncWorkQos>,
        optional: Self,
        chosen: Self,
    )
        requires
            optional.task() == task && optional.signal() is None && optional.qos_level() == qos,
            match qos {
                None => chosen.task() == task && chosen.signal() is None && chosen.qos_level() is None,
                Some(q) => chosen.task() == task && chosen.signal() is None && chosen.qos_level()
                    == Some(q),
            },
        ensures
            optional == chosen,
    {
    }

    /// `with_optional_qos_and_signal` builds what `new`, `with_qos`,
    /// `with_signal` or `with_qos_and_signal` builds, as the quality of
    /// service and the signal are absent or given.
    pub proof fn lemma_with_optional_qos_and_signal_cases(
        task: T,
        qos: Option<AsyncWorkQos>,
        signal: Option<AbortSignal>,
        optional: Self,
        chosen: Self,
    )
        requires
            optional.task() == task && optional.signal() == signal && optional.qos_level() == qos,
            match (qos, signal) {
                (None, None) => chosen.task() == task && chosen.signal() is None
                    && chosen.qos_level() is None,
                (Some(q), None) => chosen.task() == task && chosen.signal() is None
                    && chosen.qos_level() == Some(q),
                (None, Some(s)) => chosen.task() == task && chosen.signal() == Some(s)
                    && chosen.qos_level() is None,
                (Some(q), Some(s)) => chosen.task() == task && chosen.signal() == Some(s)
                    && chosen.qos_level() == Some(q),
            },
        ensures
            optional == chosen,
    {
    }

    /// The parts the runtime queues: the task, its abort signal and its
    /// quality of service.
    pub fn into_parts(self) -> (r: (T, Option<AbortSignal>, Option<AsyncWorkQos>))
        ensures
            r == (self.task(), self.signal(), self.qos_level()),
    {
        (self.inner, self.abort_signal, self.qos)
    }
}

} // verus!
