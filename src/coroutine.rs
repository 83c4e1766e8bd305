use vstd::prelude::*;
use crate::value::{Function, Value, TypeError, type_label_of, ascii};

verus! {

/// The state of one coroutine. `Normal` is a thread that resumed another and
/// waits for it; status reports it as running.
#[derive(Debug, Clone, Copy, PartialEq, Eq, Structural)]
pub enum ThreadState {
    Suspended,
    Running,
    Normal,
    Dead,
}

/// What a resume asks of the executor: `Run` the given thread from where it
/// stands, handing it the values, or `Report` the values straight back to the
/// resumer.
#[derive(Debug, Clone)]
pub enum Resume {
    Run(usize, Vec<Value>),
    Report(Vec<Value>),
}

pub open spec fn status_label(state: ThreadState, is_current: bool) -> Seq<char> {
    if state == ThreadState::Suspended {
        "suspended"@
    } else if is_current {
        "running"@
    } else if state == ThreadState::Dead {
        "dead"@
    } else {
        "running"@
    }
}

/// The first argument of a call, nil when there is none.
pub open spec fn first_arg(args: Seq<Value>) -> Value {
    if args.len() > 0 { args[0] } else { Value::Nil }
}

/// The arguments after the first.
pub open spec fn rest_args(args: Seq<Value>) -> Seq<Value> {
    if args.len() > 0 { args.drop_first() } else { args }
}

/// Splits a call's arguments into the first, nil when there is none, and the
/// rest.
pub fn split_first(args: Vec<Value>) -> (r: (Value, Vec<Value>))
    ensures
        r.0 == first_arg(args@),
        r.1@ == rest_args(args@),
{
    let mut rest = args;
    if rest.len() == 0 {
        (Value::Nil, rest)
    } else {
        let first = rest.remove(0);
        proof {
            assert(rest@ =~= args@.drop_first());
        }
        (first, rest)
    }
}

/// The message of a resume refused because the thread is dead, or else
/// running or waiting on another.
pub open spec fn refusal(state: ThreadState) -> Seq<u8> {
    if state == ThreadState::Dead {
        "cannot resume dead thread"@.map_values(|c: char| c as u8)
    } else {
        "cannot resume non-suspended thread"@.map_values(|c: char| c as u8)
    }
}

/// The values a resume delivers to its resumer: `true` and the values on a
/// yield or return, `false` and the error value on an error.
pub open spec fn report_of(outcome: Result<Seq<Value>, Value>) -> Seq<Value> {
    match outcome {
        Ok(vs) => seq![Value::Boolean(true)] + vs,
        Err(e) => seq![Value::Boolean(false), e],
    }
}

pub fn report(outcome: Result<Vec<Value>, Value>) -> (r: Vec<Value>)
    ensures
        r@ == report_of(match outcome {
            Ok(vs) => Ok(vs@),
            Err(e) => Err(e),
        }),
{
    match outcome {
        Ok(vs) => {
            let mut r = vs;
            r.insert(0, Value::Boolean(true));
            proof {
                assert(r@ =~= seq![Value::Boolean(true)] + vs@);
            }
            r
        },
        Err(e) => {
            let mut r: Vec<Value> = Vec::new();
            r.push(Value::Boolean(false));
            r.push(e);
            r
        },
    }
}

/// The coroutines of one runtime. Thread `0` is the main thread. `chain` is
/// the resume chain: the main thread, then each thread resumed from the one
/// before it; its last entry is the thread executing now.
pub struct Scheduler {
    states: Vec<ThreadState>,
    bodies: Vec<Function>,
    chain: Vec<usize>,
}

impl Scheduler {
    pub closed spec fn states(&self) -> Seq<ThreadState> {
        self.states@
    }

    pub closed spec fn bodies(&self) -> Seq<Function> {
        self.bodies@
    }

    pub closed spec fn chain(&self) -> Seq<usize> {
        self.chain@
    }

    /// The thread executing now.
    pub open spec fn current_spec(&self) -> usize {
        self.chain().last()
    }

    pub open spec fn is_active(st: ThreadState) -> bool {
        st == ThreadState::Running || st == ThreadState::Normal
    }

    /// One thread runs, at the end of the chain; the threads before it on the
    /// chain are `Normal`; every running or normal thread is on the chain.
    pub open spec fn wf(&self) -> bool {
        let st = self.states();
        let ch = self.chain();
        &&& st.len() == self.bodies().len()
        &&& st.len() <= usize::MAX
        &&& ch.len() >= 1
        &&& ch[0] == 0
        &&& forall|i: int| 0 <= i < ch.len() ==> #[trigger] ch[i] < st.len()
        &&& forall|i: int| 0 <= i < ch.len() - 1 ==> st[#[trigger] ch[i] as int] == ThreadState::Normal
        &&& forall|i: int, j: int| 0 <= i < j < ch.len() ==> #[trigger] ch[i] != #[trigger] ch[j]
        &&& st[ch.last() as int] == ThreadState::Running
        &&& forall|t: int| 0 <= t < st.len() && Self::is_active(#[trigger] st[t]) ==> ch.contains(t as usize)
    }

    /// A runtime whose main thread runs and has no coroutines yet.
    pub fn new(main: Function) -> (r: Scheduler)
        ensures
            r.wf(),
            r.states() == seq![ThreadState::Running],
            r.bodies() == seq![main],
            r.chain() == seq![0usize],
    {
        let r = Scheduler { states: vec![ThreadState::Running], bodies: vec![main], chain: vec![0usize] };
        proof {
            let ch = r.chain();
            assert(ch[0] == 0usize);
            assert forall|t: int| 0 <= t < r.states().len() && Self::is_active(#[trigger] r.states()[t]) implies ch.contains(t as usize) by {
                assert(ch[0] == t as usize);
            }
        }
        r
    }

    pub fn thread_count(&self) -> (r: usize)
        requires
            self.wf(),
        ensures
            r == self.states().len(),
    {
        self.states.len()
    }

    pub fn current(&self) -> (r: usize)
        requires
            self.wf(),
        ensures
            r == self.current_spec(),
    {
        self.chain[self.chain.len() - 1]
    }

    /// The function a thread was created from.
    pub fn body(&self, t: usize) -> (r: Function)
        requires
            self.wf(),
            t < self.states().len(),
        ensures
            r == self.bodies()[t as int],
    {
        self.bodies[t]
    }

    pub fn state(&self, t: usize) -> (r: ThreadState)
        requires
            self.wf(),
            t < self.states().len(),
        ensures
            r == self.states()[t as int],
    {
        self.states[t]
    }

    /// Creates a suspended thread whose body is `f`; anything but a function
    /// is a type error.
    pub fn create(&mut self, f: &Value) -> (r: Result<Value, TypeError>)
        requires
            old(self).wf(),
            old(self).states().len() < usize::MAX,
        ensures
            final(self).wf(),
            final(self).chain() == old(self).chain(),
            match *f {
                Value::Function(g) => {
                    &&& r == Ok::<Value, TypeError>(Value::Thread(old(self).states().len() as usize))
                    &&& final(self).states() == old(self).states().push(ThreadState::Suspended)
                    &&& final(self).bodies() == old(self).bodies().push(g)
                },
                _ => {
                    &&& r is Err
                    &&& r->Err_0.expected@ == "function"@
                    &&& r->Err_0.found@ == type_label_of(*f)
                    &&& final(self).states() == old(self).states()
                    &&& final(self).bodies() == old(self).bodies()
                },
            },
    {
        match f {
            Value::Function(g) => {
                let t = self.states.len();
                self.states.push(ThreadState::Suspended);
                self.bodies.push(*g);
                proof {
                    let st = self.states();
                    let ch = self.chain();
                    assert forall|i: int| 0 <= i < ch.len() - 1 implies st[#[trigger] ch[i] as int] == ThreadState::Normal by {
                        assert(old(self).states()[ch[i] as int] == ThreadState::Normal);
                    }
                    assert forall|x: int| 0 <= x < st.len() && Self::is_active(#[trigger] st[x]) implies ch.contains(x as usize) by {
                        assert(x < old(self).states().len());
                        assert(old(self).states()[x] == st[x]);
                    }
                }
                Ok(Value::Thread(t))
            },
            _ => Err(TypeError { expected: "function", found: f.type_label() }),
        }
    }

    /// `"suspended"`, `"running"` for the thread executing now and for one
    /// that waits on a thread it resumed, or `"dead"`.
    pub fn status(&self, v: &Value) -> (r: Result<&'static str, TypeError>)
        requires
            self.wf(),
            v is Thread ==> v->Thread_0 < self.states().len(),
        ensures
            match *v {
                Value::Thread(t) => r is Ok && r->Ok_0@ == status_label(self.states()[t as int], t == self.current_spec()),
                _ => r is Err && r->Err_0.expected@ == "thread"@ && r->Err_0.found@ == type_label_of(*v),
            },
    {
        match v {
            Value::Thread(t) => {
                let st = self.states[*t];
                if st == ThreadState::Suspended {
                    Ok("suspended")
                } else if *t == self.current() {
                    Ok("running")
                } else if st == ThreadState::Dead {
                    Ok("dead")
                } else {
                    Ok("running")
                }
            },
            _ => Err(TypeError { expected: "thread", found: v.type_label() }),
        }
    }

    /// Resumes a suspended thread: the thread executing now waits as
    /// `Normal` and the resumed one runs, taking `args`. Resuming a thread in
    /// any other state changes nothing and reports `false` and a message.
    pub fn resume(&mut self, v: &Value, args: Vec<Value>) -> (r: Result<Resume, TypeError>)
        requires
            old(self).wf(),
            v is Thread ==> v->Thread_0 < old(self).states().len(),
        ensures
            final(self).wf(),
            final(self).bodies() == old(self).bodies(),
            match *v {
                Value::Thread(t) => if old(self).states()[t as int] == ThreadState::Suspended {
                    &&& r == Ok::<Resume, TypeError>(Resume::Run(t, args))
                    &&& final(self).chain() == old(self).chain().push(t)
                    &&& final(self).states() == old(self).states()
                        .update(old(self).current_spec() as int, ThreadState::Normal)
                        .update(t as int, ThreadState::Running)
                } else {
                    &&& r is Ok && r->Ok_0 is Report
                    &&& r->Ok_0->Report_0@.len() == 2
                    &&& r->Ok_0->Report_0@[0] == Value::Boolean(false)
                    &&& r->Ok_0->Report_0@[1] is String
                    &&& r->Ok_0->Report_0@[1]->String_0@ == refusal(old(self).states()[t as int])
                    &&& final(self).chain() == old(self).chain()
                    &&& final(self).states() == old(self).states()
                },
                _ => {
                    &&& r is Err && r->Err_0.expected@ == "thread"@ && r->Err_0.found@ == type_label_of(*v)
                    &&& final(self).chain() == old(self).chain()
                    &&& final(self).states() == old(self).states()
                },
            },
    {
        let t = match v {
            Value::Thread(t) => *t,
            _ => { return Err(TypeError { expected: "thread", found: v.type_label() }); },
        };
        let st = self.states[t];
        if st != ThreadState::Suspended {
            proof {
                reveal_strlit("cannot resume dead thread");
                reveal_strlit("cannot resume non-suspended thread");
            }
            let msg: Vec<u8> = if st == ThreadState::Dead {
                ascii("cannot resume dead thread")
            } else {
                ascii("cannot resume non-suspended thread")
            };
            return Ok(Resume::Report(vec![Value::Boolean(false), Value::String(msg)]));
        }
        let cur = self.current();
        let ghost old_st = self.states();
        let ghost old_ch = self.chain();
        self.states.set(cur, ThreadState::Normal);
        self.states.set(t, ThreadState::Running);
        self.chain.push(t);
        proof {
            let st = self.states();
            let ch = self.chain();
            assert(ch.last() == t);
            assert forall|i: int, j: int| 0 <= i < j < ch.len() implies #[trigger] ch[i] != #[trigger] ch[j] by {
                if j == ch.len() - 1 {
                    if i < old_ch.len() - 1 {
                        assert(old_st[old_ch[i] as int] == ThreadState::Normal);
                    }
                } else {
                    assert(old_ch[i] != old_ch[j]);
                }
            }
            assert forall|i: int| 0 <= i < ch.len() - 1 implies st[#[trigger] ch[i] as int] == ThreadState::Normal by {
                if i < old_ch.len() - 1 {
                    assert(old_st[old_ch[i] as int] == ThreadState::Normal);
                } else {
                    assert(ch[i] == cur);
                }
            }
            assert forall|x: int| 0 <= x < st.len() && Self::is_active(#[trigger] st[x]) implies ch.contains(x as usize) by {
                if x == t as int {
                    assert(ch[ch.len() - 1] == x as usize);
                } else if x == cur as int {
                    assert(ch[old_ch.len() - 1] == x as usize);
                } else {
                    assert(old_st[x] == st[x]);
                    let j = choose|j: int| 0 <= j < old_ch.len() && old_ch[j] == x as usize;
                    assert(ch[j] == x as usize);
                }
            }
        }
        Ok(Resume::Run(t, args))
    }

    /// Ends the run of the thread executing now, which goes to `to`, and
    /// hands control back to the thread that resumed it.
    fn leave(&mut self, to: ThreadState)
        requires
            old(self).wf(),
            old(self).chain().len() >= 2,
            to == ThreadState::Suspended || to == ThreadState::Dead,
        ensures
            final(self).wf(),
            final(self).bodies() == old(self).bodies(),
            final(self).chain() == old(self).chain().drop_last(),
            final(self).states() == old(self).states()
                .update(old(self).current_spec() as int, to)
                .update(old(self).chain()[old(self).chain().len() - 2] as int, ThreadState::Running),
    {
        let ghost old_st = self.states();
        let ghost old_ch = self.chain();
        let t = self.chain.pop().unwrap();
        let parent = self.chain[self.chain.len() - 1];
        proof {
            assert(old_st[parent as int] == ThreadState::Normal);
            assert(old_ch[old_ch.len() - 1] == t);
        }
        self.states.set(t, to);
        self.states.set(parent, ThreadState::Running);
        proof {
            let st = self.states();
            let ch = self.chain();
            assert(ch =~= old_ch.drop_last());
            assert forall|i: int, j: int| 0 <= i < j < ch.len() implies #[trigger] ch[i] != #[trigger] ch[j] by {
                assert(old_ch[i] != old_ch[j]);
            }
            assert forall|i: int| 0 <= i < ch.len() - 1 implies st[#[trigger] ch[i] as int] == ThreadState::Normal by {
                assert(old_ch[i] == ch[i]);
                assert(old_st[ch[i] as int] == ThreadState::Normal);
                assert(ch[i] != parent) by {
                    assert(old_ch[old_ch.len() - 2] == parent);
                    assert(old_ch[i] != old_ch[old_ch.len() - 2]);
                }
            }
            assert forall|x: int| 0 <= x < st.len() && Self::is_active(#[trigger] st[x]) implies ch.contains(x as usize) by {
                if x == parent as int {
                    assert(ch[ch.len() - 1] == x as usize);
                } else {
                    assert(x != t as int);
                    assert(old_st[x] == st[x]);
                    let j = choose|j: int| 0 <= j < old_ch.len() && old_ch[j] == x as usize;
                    assert(j != old_ch.len() - 1);
                    assert(ch[j] == x as usize);
                }
            }
        }
    }

    /// Yields the thread executing now: it is suspended, the thread that
    /// resumed it runs again and receives `true` and `args`. With no
    /// enclosing resume, on the main thread, the yield fails and nothing
    /// changes.
    pub fn yield_current(&mut self, args: Vec<Value>) -> (r: Option<Vec<Value>>)
        requires
            old(self).wf(),
        ensures
            final(self).wf(),
            final(self).bodies() == old(self).bodies(),
            old(self).chain().len() == 1 ==> {
                &&& r is None
                &&& final(self).chain() == old(self).chain()
                &&& final(self).states() == old(self).states()
            },
            old(self).chain().len() >= 2 ==> {
                &&& r is Some && r->Some_0@ == report_of(Ok(args@))
                &&& final(self).chain() == old(self).chain().drop_last()
                &&& final(self).states() == old(self).states()
                    .update(old(self).current_spec() as int, ThreadState::Suspended)
                    .update(old(self).chain()[old(self).chain().len() - 2] as int, ThreadState::Running)
            },
    {
        if self.chain.len() == 1 {
            return None;
        }
        self.leave(ThreadState::Suspended);
        Some(report(Ok(args)))
    }

    /// The body of the thread executing now has returned (`Ok`) or raised an
    /// error (`Err`): the thread is dead, and the thread that resumed it runs
    /// again and receives the report. The main thread has no resumer: that
    /// fails and nothing changes.
    pub fn finish(&mut self, outcome: Result<Vec<Value>, Value>) -> (r: Option<Vec<Value>>)
        requires
            old(self).wf(),
        ensures
            final(self).wf(),
            final(self).bodies() == old(self).bodies(),
            old(self).chain().len() == 1 ==> {
                &&& r is None
                &&& final(self).chain() == old(self).chain()
                &&& final(self).states() == old(self).states()
            },
            old(self).chain().len() >= 2 ==> {
                &&& r is Some
                &&& r->Some_0@ == report_of(match outcome {
                    Ok(vs) => Ok(vs@),
                    Err(e) => Err(e),
                })
                &&& final(self).chain() == old(self).chain().drop_last()
                &&& final(self).states() == old(self).states()
                    .update(old(self).current_spec() as int, ThreadState::Dead)
                    .update(old(self).chain()[old(self).chain().len() - 2] as int, ThreadState::Running)
            },
    {
        if self.chain.len() == 1 {
            return None;
        }
        self.leave(ThreadState::Dead);
        Some(report(outcome))
    }

    /// `coroutine.create`: a thread from the first argument.
    pub fn create_call(&mut self, args: Vec<Value>) -> (r: Result<Value, TypeError>)
        requires
            old(self).wf(),
            old(self).states().len() < usize::MAX,
        ensures
            final(self).wf(),
            final(self).chain() == old(self).chain(),
            match first_arg(args@) {
                Value::Function(g) => {
                    &&& r == Ok::<Value, TypeError>(Value::Thread(old(self).states().len() as usize))
                    &&& final(self).states() == old(self).states().push(ThreadState::Suspended)
                    &&& final(self).bodies() == old(self).bodies().push(g)
                },
                _ => {
                    &&& r is Err
                    &&& r->Err_0.expected@ == "function"@
                    &&& r->Err_0.found@ == type_label_of(first_arg(args@))
                    &&& final(self).states() == old(self).states()
                    &&& final(self).bodies() == old(self).bodies()
                },
            },
    {
        let (f, _) = split_first(args);
        self.create(&f)
    }

    /// `coroutine.resume`: resumes the first argument with the others.
    pub fn resume_call(&mut self, args: Vec<Value>) -> (r: Result<Resume, TypeError>)
        requires
            old(self).wf(),
            first_arg(args@) is Thread ==> first_arg(args@)->Thread_0 < old(self).states().len(),
        ensures
            final(self).wf(),
            final(self).bodies() == old(self).bodies(),
            match first_arg(args@) {
                Value::Thread(t) => if old(self).states()[t as int] == ThreadState::Suspended {
                    &&& r is Ok && r->Ok_0 is Run
                    &&& r->Ok_0->Run_0 == t
                    &&& r->Ok_0->Run_1@ == rest_args(args@)
                    &&& final(self).chain() == old(self).chain().push(t)
                    &&& final(self).states() == old(self).states()
                        .update(old(self).current_spec() as int, ThreadState::Normal)
                        .update(t as int, ThreadState::Running)
                } else {
                    &&& r is Ok && r->Ok_0 is Report
                    &&& r->Ok_0->Report_0@.len() == 2
                    &&& r->Ok_0->Report_0@[0] == Value::Boolean(false)
                    &&& r->Ok_0->Report_0@[1] is String
                    &&& r->Ok_0->Report_0@[1]->String_0@ == refusal(old(self).states()[t as int])
                    &&& final(self).chain() == old(self).chain()
                    &&& final(self).states() == old(self).states()
                },
                _ => {
                    &&& r is Err && r->Err_0.expected@ == "thread"@
                    &&& r->Err_0.found@ == type_label_of(first_arg(args@))
                    &&& final(self).chain() == old(self).chain()
                    &&& final(self).states() == old(self).states()
                },
            },
    {
        let (t, rest) = split_first(args);
        self.resume(&t, rest)
    }

    /// `coroutine.status` of the first argument.
    pub fn status_call(&self, args: &Vec<Value>) -> (r: Result<&'static str, TypeError>)
        requires
            self.wf(),
            first_arg(args@) is Thread ==> first_arg(args@)->Thread_0 < self.states().len(),
        ensures
            match first_arg(args@) {
                Value::Thread(t) => r is Ok && r->Ok_0@ == status_label(self.states()[t as int], t == self.current_spec()),
                _ => r is Err && r->Err_0.expected@ == "thread"@ && r->Err_0.found@ == type_label_of(first_arg(args@)),
            },
    {
        if args.len() == 0 {
            self.status(&Value::Nil)
        } else {
            self.status(&args[0])
        }
    }
}

/// The thread executing now is never reported as suspended or dead: its
/// status is `"running"`.
pub proof fn lemma_current_is_running(s: Scheduler)
    requires
        s.wf(),
    ensures
        status_label(s.states()[s.current_spec() as int], true) == "running"@,
{
}

/// There is no enclosing resume exactly when the main thread is executing,
/// which is when `yield_current` fails.
pub proof fn lemma_yield_needs_resume(s: Scheduler)
    requires
        s.wf(),
    ensures
        s.chain().len() == 1 <==> s.current_spec() == 0,
{
    if s.chain().len() >= 2 && s.current_spec() == 0 {
        assert(s.states()[s.chain()[0] as int] == ThreadState::Normal);
    }
}

} // verus!
