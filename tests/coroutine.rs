use luster::coroutine::{report, split_first, Resume, Scheduler, ThreadState};
use luster::value::{Function, Value};

fn bytes(s: &str) -> Value {
    Value::String(s.as_bytes().to_vec())
}

#[test]
fn coroutine_yields_then_returns_then_is_dead() {
    let mut s = Scheduler::new(Function::Closure(0));
    let co = s.create(&Value::Function(Function::Closure(1))).unwrap();
    assert_eq!(co, Value::Thread(1));
    assert_eq!(s.status(&co).unwrap(), "suspended");

    match s.resume(&co, vec![]).unwrap() {
        Resume::Run(t, args) => {
            assert_eq!(t, 1);
            assert!(args.is_empty());
        }
        Resume::Report(r) => panic!("expected the thread to run, got {:?}", r),
    }
    let first = s.yield_current(vec![Value::Integer(1), Value::Integer(2)]).unwrap();
    assert_eq!(first, vec![Value::Boolean(true), Value::Integer(1), Value::Integer(2)]);
    assert_eq!(s.status(&co).unwrap(), "suspended");

    assert!(matches!(s.resume(&co, vec![]).unwrap(), Resume::Run(1, _)));
    let second = s.finish(Ok(vec![Value::Integer(3)])).unwrap();
    assert_eq!(second, vec![Value::Boolean(true), Value::Integer(3)]);
    assert_eq!(s.status(&co).unwrap(), "dead");

    match s.resume(&co, vec![]).unwrap() {
        Resume::Report(r) => {
            assert_eq!(r, vec![Value::Boolean(false), bytes("cannot resume dead thread")]);
        }
        Resume::Run(..) => panic!("a dead thread must not run"),
    }
}

#[test]
fn running_thread_reports_running() {
    let mut s = Scheduler::new(Function::Closure(0));
    assert_eq!(s.status(&Value::Thread(0)).unwrap(), "running");
    let co = s.create(&Value::Function(Function::Callback(7))).unwrap();
    s.resume(&co, vec![]).unwrap();
    assert_eq!(s.current(), 1);
    assert_eq!(s.status(&co).unwrap(), "running");
    assert_eq!(s.state(0), ThreadState::Normal);
    assert_eq!(s.status(&Value::Thread(0)).unwrap(), "running");
    match s.resume(&co, vec![]).unwrap() {
        Resume::Report(r) => {
            assert_eq!(r, vec![Value::Boolean(false), bytes("cannot resume non-suspended thread")]);
        }
        Resume::Run(..) => panic!("a running thread must not be resumed"),
    }
    assert_eq!(s.body(1), Function::Callback(7));
}

#[test]
fn yield_without_resume_fails() {
    let mut s = Scheduler::new(Function::Closure(0));
    assert!(s.yield_current(vec![Value::Integer(1)]).is_none());
    assert!(s.finish(Ok(vec![])).is_none());
    assert_eq!(s.state(0), ThreadState::Running);
}

#[test]
fn coroutine_error_is_reported() {
    let mut s = Scheduler::new(Function::Closure(0));
    let co = s.create(&Value::Function(Function::Closure(1))).unwrap();
    s.resume(&co, vec![Value::Integer(9)]).unwrap();
    let r = s.finish(Err(bytes("boom"))).unwrap();
    assert_eq!(r, vec![Value::Boolean(false), bytes("boom")]);
    assert_eq!(s.status(&co).unwrap(), "dead");
    assert_eq!(s.current(), 0);
}

#[test]
fn nested_resume_returns_to_resumer() {
    let mut s = Scheduler::new(Function::Closure(0));
    let a = s.create(&Value::Function(Function::Closure(1))).unwrap();
    let b = s.create(&Value::Function(Function::Closure(2))).unwrap();
    s.resume(&a, vec![]).unwrap();
    s.resume(&b, vec![]).unwrap();
    assert_eq!(s.status(&a).unwrap(), "running");
    assert_eq!(s.state(1), ThreadState::Normal);
    let r = s.yield_current(vec![]).unwrap();
    assert_eq!(r, vec![Value::Boolean(true)]);
    assert_eq!(s.current(), 1);
    assert_eq!(s.status(&b).unwrap(), "suspended");
    assert_eq!(s.thread_count(), 3);
}

#[test]
fn type_errors() {
    let mut s = Scheduler::new(Function::Closure(0));
    let e = s.create(&Value::Integer(1)).unwrap_err();
    assert_eq!((e.expected, e.found), ("function", "number"));
    let e = s.resume(&Value::Nil, vec![]).unwrap_err();
    assert_eq!((e.expected, e.found), ("thread", "nil"));
    let e = s.status(&bytes("x")).unwrap_err();
    assert_eq!((e.expected, e.found), ("thread", "string"));
    assert_eq!(s.thread_count(), 1);
}

#[test]
fn report_prefixes_marker() {
    assert_eq!(report(Ok(vec![Value::Integer(1)])), vec![Value::Boolean(true), Value::Integer(1)]);
    assert_eq!(report(Err(Value::Nil)), vec![Value::Boolean(false), Value::Nil]);
}

#[test]
fn library_calls_take_argument_lists() {
    let mut s = Scheduler::new(Function::Closure(0));
    let co = s.create_call(vec![Value::Function(Function::Closure(5))]).unwrap();
    assert_eq!(s.status_call(&vec![co.clone()]).unwrap(), "suspended");
    match s.resume_call(vec![co.clone(), Value::Integer(1), Value::Integer(2)]).unwrap() {
        Resume::Run(t, args) => {
            assert_eq!(t, 1);
            assert_eq!(args, vec![Value::Integer(1), Value::Integer(2)]);
        }
        Resume::Report(r) => panic!("expected the thread to run, got {:?}", r),
    }
    assert_eq!(s.status_call(&vec![co]).unwrap(), "running");
    let e = s.create_call(vec![]).unwrap_err();
    assert_eq!((e.expected, e.found), ("function", "nil"));
    let e = s.resume_call(vec![Value::Integer(3)]).unwrap_err();
    assert_eq!((e.expected, e.found), ("thread", "number"));
    let e = s.status_call(&vec![]).unwrap_err();
    assert_eq!((e.expected, e.found), ("thread", "nil"));
}

#[test]
fn split_first_defaults_to_nil() {
    assert_eq!(split_first(vec![]), (Value::Nil, vec![]));
    assert_eq!(
        split_first(vec![Value::Integer(1), Value::Integer(2)]),
        (Value::Integer(1), vec![Value::Integer(2)])
    );
}
