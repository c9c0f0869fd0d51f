//! Ordered middleware stacks per lifecycle event, and the order in which a
//! create or a delete runs middleware, hooks and database work.
use vstd::prelude::*;

verus! {

broadcast use vstd::std_specs::vec::group_vec_axioms, vstd::seq::group_seq_axioms;

/// The lifecycle events middleware can be registered for.
#[derive(Debug, Clone, Copy, PartialEq, Eq, Hash, Structural)]
pub enum HookEvent {
    PreSave,
    PostSave,
    PreDelete,
    PostDelete,
    PreValidate,
    PostValidate,
    PreFind,
    PostFind,
}

/// An ordered list of middleware per event. `M` is the type of a registered
/// middleware function.
pub struct MiddlewareRegistry<M> {
    pre_save: Vec<M>,
    post_save: Vec<M>,
    pre_delete: Vec<M>,
    post_delete: Vec<M>,
    pre_validate: Vec<M>,
    post_validate: Vec<M>,
}

/// One thing a lifecycle does, in the order it does it.
#[derive(Debug, Clone, Copy, PartialEq, Eq, Structural)]
pub enum Step {
    /// Run the middleware registered for the event at this position of its stack.
    Middleware(HookEvent, usize),
    /// Run the schema's own hook for the event.
    Hook(HookEvent),
    /// Run the schema's field validation.
    Validate,
    /// Write the new document.
    Insert,
    /// Read the written document back.
    Fetch,
    /// Delete the document.
    Delete,
}

/// Where a lifecycle stands once one of its steps has run.
#[derive(Debug, PartialEq)]
pub enum Progress<E> {
    /// Run the step at this position of the plan next.
    Next(usize),
    /// Every step of the plan succeeded.
    Finished,
    /// A step failed with this error; the lifecycle ends with it and no later
    /// step runs.
    Failed(E),
}

/// What follows the step at position `at` of a plan of `len` steps, given
/// how that step came out: an error ends the lifecycle with that error; a
/// success moves on to the next step, or finishes after the last one.
pub fn advance<E>(len: usize, at: usize, outcome: Result<(), E>) -> (r: Progress<E>)
    requires
        at < len,
    ensures
        match outcome {
            Err(e) => r == Progress::Failed(e),
            Ok(()) => if at + 1 < len {
                r == Progress::<E>::Next((at + 1) as usize)
            } else {
                r == Progress::<E>::Finished
            },
        },
{
    match outcome {
        Err(e) => Progress::Failed(e),
        Ok(()) => if at + 1 < len {
            Progress::Next(at + 1)
        } else {
            Progress::Finished
        },
    }
}

/// The middleware of event `e`, positions `0 .. n` in order.
pub open spec fn middleware_steps(e: HookEvent, n: nat) -> Seq<Step> {
    Seq::new(n, |i: int| Step::Middleware(e, i as usize))
}

impl<M> MiddlewareRegistry<M> {
    /// The middleware registered for `event`, in registration order. No
    /// middleware is ever registered for the find events.
    pub closed spec fn stack(&self, event: HookEvent) -> Seq<M> {
        match event {
            HookEvent::PreSave => self.pre_save@,
            HookEvent::PostSave => self.post_save@,
            HookEvent::PreDelete => self.pre_delete@,
            HookEvent::PostDelete => self.post_delete@,
            HookEvent::PreValidate => self.pre_validate@,
            HookEvent::PostValidate => self.post_validate@,
            HookEvent::PreFind | HookEvent::PostFind => Seq::empty(),
        }
    }

    /// An empty registry.
    pub fn new() -> (r: Self)
        ensures
            forall|e: HookEvent| #[trigger] r.stack(e) == Seq::<M>::empty(),
    {
        MiddlewareRegistry {
            pre_save: Vec::new(),
            post_save: Vec::new(),
            pre_delete: Vec::new(),
            post_delete: Vec::new(),
            pre_validate: Vec::new(),
            post_validate: Vec::new(),
        }
    }

    /// Append `f` to the `pre_save` stack.
    pub fn pre_save(self, f: M) -> (r: Self)
        ensures
            r.stack(HookEvent::PreSave) == self.stack(HookEvent::PreSave).push(f),
            forall|e: HookEvent| e != HookEvent::PreSave ==> #[trigger] r.stack(e) == self.stack(e),
    {
        let mut s = self;
        s.pre_save.push(f);
        s
    }

    /// Append `f` to the `post_save` stack.
    pub fn post_save(self, f: M) -> (r: Self)
        ensures
            r.stack(HookEvent::PostSave) == self.stack(HookEvent::PostSave).push(f),
            forall|e: HookEvent| e != HookEvent::PostSave ==> #[trigger] r.stack(e) == self.stack(e),
    {
        let mut s = self;
        s.post_save.push(f);
        s
    }

    /// Append `f` to the `pre_delete` stack.
    pub fn pre_delete(self, f: M) -> (r: Self)
        ensures
            r.stack(HookEvent::PreDelete) == self.stack(HookEvent::PreDelete).push(f),
            forall|e: HookEvent| e != HookEvent::PreDelete ==> #[trigger] r.stack(e) == self.stack(e),
    {
        let mut s = self;
        s.pre_delete.push(f);
        s
    }

    /// Append `f` to the `post_delete` stack.
    pub fn post_delete(self, f: M) -> (r: Self)
        ensures
            r.stack(HookEvent::PostDelete) == self.stack(HookEvent::PostDelete).push(f),
            forall|e: HookEvent| e != HookEvent::PostDelete ==> #[trigger] r.stack(e) == self.stack(e),
    {
        let mut s = self;
        s.post_delete.push(f);
        s
    }

    /// Append `f` to the `pre_validate` stack.
    pub fn pre_validate(self, f: M) -> (r: Self)
        ensures
            r.stack(HookEvent::PreValidate) == self.stack(HookEvent::PreValidate).push(f),
            forall|e: HookEvent| e != HookEvent::PreValidate ==> #[trigger] r.stack(e) == self.stack(e),
    {
        let mut s = self;
        s.pre_validate.push(f);
        s
    }

    /// Append `f` to the `post_validate` stack.
    pub fn post_validate(self, f: M) -> (r: Self)
        ensures
            r.stack(HookEvent::PostValidate) == self.stack(HookEvent::PostValidate).push(f),
            forall|e: HookEvent| e != HookEvent::PostValidate ==> #[trigger] r.stack(e) == self.stack(e),
    {
        let mut s = self;
        s.post_validate.push(f);
        s
    }

    /// The middleware to run for `event`, in the order they run.
    pub fn stack_for(&self, event: HookEvent) -> (r: &[M])
        ensures
            r@ == self.stack(event),
    {
        match event {
            HookEvent::PreSave => self.pre_save.as_slice(),
            HookEvent::PostSave => self.post_save.as_slice(),
            HookEvent::PreDelete => self.pre_delete.as_slice(),
            HookEvent::PostDelete => self.post_delete.as_slice(),
            HookEvent::PreValidate => self.pre_validate.as_slice(),
            HookEvent::PostValidate => self.post_validate.as_slice(),
            HookEvent::PreFind | HookEvent::PostFind => &[],
        }
    }

    /// How many middleware are registered for `event`.
    pub fn count(&self, event: HookEvent) -> (n: usize)
        ensures
            n == self.stack(event).len(),
    {
        self.stack_for(event).len()
    }

    /// The steps of a create: all pre-validate middleware, then all pre-save
    /// middleware, before any of the schema's own hooks; then the pre-validate
    /// hook and validation, the post-validate middleware and hook, the
    /// pre-save hook, the write and the read back; last the post-save
    /// middleware and hook, which see what was read back.
    pub fn create_plan(&self) -> (plan: Vec<Step>)
        ensures
            plan@ == create_steps(
                self.stack(HookEvent::PreValidate).len(),
                self.stack(HookEvent::PostValidate).len(),
                self.stack(HookEvent::PreSave).len(),
                self.stack(HookEvent::PostSave).len(),
            ),
    {
        let mut plan: Vec<Step> = Vec::new();
        push_middleware(&mut plan, HookEvent::PreValidate, self.count(HookEvent::PreValidate));
        push_middleware(&mut plan, HookEvent::PreSave, self.count(HookEvent::PreSave));
        plan.push(Step::Hook(HookEvent::PreValidate));
        plan.push(Step::Validate);
        push_middleware(&mut plan, HookEvent::PostValidate, self.count(HookEvent::PostValidate));
        plan.push(Step::Hook(HookEvent::PostValidate));
        plan.push(Step::Hook(HookEvent::PreSave));
        plan.push(Step::Insert);
        plan.push(Step::Fetch);
        push_middleware(&mut plan, HookEvent::PostSave, self.count(HookEvent::PostSave));
        plan.push(Step::Hook(HookEvent::PostSave));
        proof {
            assert(plan@ =~= create_steps(
                self.stack(HookEvent::PreValidate).len(),
                self.stack(HookEvent::PostValidate).len(),
                self.stack(HookEvent::PreSave).len(),
                self.stack(HookEvent::PostSave).len(),
            ));
        }
        plan
    }

    /// The steps run on the document about to be deleted: the pre-delete
    /// middleware, then the schema's pre-delete hook, then the delete.
    pub fn pre_delete_plan(&self) -> (plan: Vec<Step>)
        ensures
            plan@ == middleware_steps(HookEvent::PreDelete, self.stack(HookEvent::PreDelete).len())
                + seq![Step::Hook(HookEvent::PreDelete), Step::Delete],
    {
        let mut plan: Vec<Step> = Vec::new();
        push_middleware(&mut plan, HookEvent::PreDelete, self.count(HookEvent::PreDelete));
        plan.push(Step::Hook(HookEvent::PreDelete));
        plan.push(Step::Delete);
        proof {
            assert(plan@ =~= middleware_steps(
                HookEvent::PreDelete,
                self.stack(HookEvent::PreDelete).len(),
            ) + seq![Step::Hook(HookEvent::PreDelete), Step::Delete]);
        }
        plan
    }

    /// The steps run on the document that was deleted: the post-delete
    /// middleware, then the schema's post-delete hook.
    pub fn post_delete_plan(&self) -> (plan: Vec<Step>)
        ensures
            plan@ == middleware_steps(HookEvent::PostDelete, self.stack(HookEvent::PostDelete).len())
                + seq![Step::Hook(HookEvent::PostDelete)],
    {
        let mut plan: Vec<Step> = Vec::new();
        push_middleware(&mut plan, HookEvent::PostDelete, self.count(HookEvent::PostDelete));
        plan.push(Step::Hook(HookEvent::PostDelete));
        proof {
            assert(plan@ =~= middleware_steps(
                HookEvent::PostDelete,
                self.stack(HookEvent::PostDelete).len(),
            ) + seq![Step::Hook(HookEvent::PostDelete)]);
        }
        plan
    }
}

/// The full create sequence for the given middleware counts.
pub open spec fn create_steps(pre_validate: nat, post_validate: nat, pre_save: nat, post_save: nat) -> Seq<Step> {
    middleware_steps(HookEvent::PreValidate, pre_validate) + middleware_steps(
        HookEvent::PreSave,
        pre_save,
    ) + seq![Step::Hook(HookEvent::PreValidate), Step::Validate] + middleware_steps(
        HookEvent::PostValidate,
        post_validate,
    ) + seq![
        Step::Hook(HookEvent::PostValidate),
        Step::Hook(HookEvent::PreSave),
        Step::Insert,
        Step::Fetch,
    ] + middleware_steps(HookEvent::PostSave, post_save) + seq![Step::Hook(HookEvent::PostSave)]
}

/// A step that happens before the document is written: validation, and the
/// middleware and hooks of the validate and pre-save events.
pub open spec fn before_write(s: Step) -> bool {
    match s {
        Step::Middleware(e, _) | Step::Hook(e) => e == HookEvent::PreValidate || e
            == HookEvent::PostValidate || e == HookEvent::PreSave,
        Step::Validate => true,
        _ => false,
    }
}

/// A step of the post-save event.
pub open spec fn post_save_step(s: Step) -> bool {
    match s {
        Step::Middleware(e, _) | Step::Hook(e) => e == HookEvent::PostSave,
        _ => false,
    }
}

/// In a create, everything about validating and saving happens before the
/// write, the written document is read back right after it, and only post-save
/// steps follow; the middleware of an event run in registration order, and
/// all of them before the schema's own hook for that event; and every
/// pre-validate and pre-save middleware runs before any of the schema's hooks.
#[verifier::rlimit(40)]
pub proof fn law_create_order(a: nat, b: nat, c: nat, d: nat)
    requires
        a <= usize::MAX,
        b <= usize::MAX,
        c <= usize::MAX,
        d <= usize::MAX,
    ensures
        ({
            let p = create_steps(a, b, c, d);
            let w = (a + b + c + 4) as int;
            &&& p.len() == a + b + c + d + 7
            &&& p[w] == Step::Insert
            &&& p[w + 1] == Step::Fetch
            &&& forall|i: int| 0 <= i < w ==> before_write(#[trigger] p[i])
            &&& forall|i: int| w + 1 < i < p.len() ==> post_save_step(#[trigger] p[i])
            &&& forall|i: int, j: int|
                #![trigger p[i], p[j]]
                0 <= i < j < p.len() && p[i] is Middleware && p[j] is Middleware && p[i]->Middleware_0
                    == p[j]->Middleware_0 ==> p[i]->Middleware_1 < p[j]->Middleware_1
            &&& forall|i: int, j: int|
                #![trigger p[i], p[j]]
                0 <= i < p.len() && 0 <= j < p.len() && p[i] is Middleware && p[j] == Step::Hook(
                    p[i]->Middleware_0,
                ) ==> i < j
            &&& forall|i: int, j: int|
                #![trigger p[i], p[j]]
                0 <= i < p.len() && 0 <= j < p.len() && p[i] is Middleware && (p[i]->Middleware_0
                    == HookEvent::PreValidate || p[i]->Middleware_0 == HookEvent::PreSave)
                    && p[j] is Hook ==> i < j
        }),
{
    let p = create_steps(a, b, c, d);
    let q1 = middleware_steps(HookEvent::PreValidate, a);
    let q2 = q1 + middleware_steps(HookEvent::PreSave, c);
    let q3 = q2 + seq![Step::Hook(HookEvent::PreValidate), Step::Validate];
    let q4 = q3 + middleware_steps(HookEvent::PostValidate, b);
    let q5 = q4 + seq![
        Step::Hook(HookEvent::PostValidate),
        Step::Hook(HookEvent::PreSave),
        Step::Insert,
        Step::Fetch,
    ];
    let q6 = q5 + middleware_steps(HookEvent::PostSave, d);
    assert(p == q6 + seq![Step::Hook(HookEvent::PostSave)]);
    let o1 = a as int;
    let o2 = (a + c) as int;
    let o3 = (a + c + 2 + b) as int;
    let o4 = (a + b + c + d + 6) as int;
    assert forall|i: int| 0 <= i < q6.len() implies #[trigger] p[i] == q6[i] by {}
    assert forall|i: int| 0 <= i < q5.len() implies #[trigger] q6[i] == q5[i] by {}
    assert forall|i: int| 0 <= i < q4.len() implies #[trigger] q5[i] == q4[i] by {}
    assert forall|i: int| 0 <= i < q3.len() implies #[trigger] q4[i] == q3[i] by {}
    assert forall|i: int| 0 <= i < q2.len() implies #[trigger] q3[i] == q2[i] by {}
    assert forall|i: int| 0 <= i < q1.len() implies #[trigger] q2[i] == q1[i] by {}
    assert forall|i: int| 0 <= i < o1 implies #[trigger] p[i] == Step::Middleware(
        HookEvent::PreValidate,
        i as usize,
    ) by {
        assert(q6[i] == q5[i] && q5[i] == q4[i] && q4[i] == q3[i] && q3[i] == q2[i]);
    }
    assert forall|i: int| o1 <= i < o2 implies #[trigger] p[i] == Step::Middleware(
        HookEvent::PreSave,
        (i - o1) as usize,
    ) by {
        assert(q6[i] == q5[i] && q5[i] == q4[i] && q4[i] == q3[i] && q3[i] == q2[i]);
    }
    assert(p[o2] == Step::Hook(HookEvent::PreValidate));
    assert(p[o2 + 1] == Step::Validate);
    assert forall|i: int| o2 + 2 <= i < o3 implies #[trigger] p[i] == Step::Middleware(
        HookEvent::PostValidate,
        (i - o2 - 2) as usize,
    ) by {
        assert(q6[i] == q5[i] && q5[i] == q4[i]);
    }
    assert(p[o3] == Step::Hook(HookEvent::PostValidate));
    assert(p[o3 + 1] == Step::Hook(HookEvent::PreSave));
    assert(p[o3 + 2] == Step::Insert);
    assert(p[o3 + 3] == Step::Fetch);
    assert forall|i: int| o3 + 4 <= i < o4 implies #[trigger] p[i] == Step::Middleware(
        HookEvent::PostSave,
        (i - o3 - 4) as usize,
    ) by {}
    assert(p[o4] == Step::Hook(HookEvent::PostSave));
}

/// A delete runs the pre-delete middleware in registration order, then the
/// schema's pre-delete hook, and deletes last.
pub proof fn law_pre_delete_order(n: nat)
    ensures
        ({
            let p = middleware_steps(HookEvent::PreDelete, n) + seq![
                Step::Hook(HookEvent::PreDelete),
                Step::Delete,
            ];
            &&& p.len() == n + 2
            &&& p[n as int] == Step::Hook(HookEvent::PreDelete)
            &&& p[n + 1int] == Step::Delete
            &&& forall|i: int| 0 <= i < n ==> #[trigger] p[i] == Step::Middleware(HookEvent::PreDelete, i as usize)
        }),
{
}

fn push_middleware(plan: &mut Vec<Step>, event: HookEvent, n: usize)
    ensures
        final(plan)@ == old(plan)@ + middleware_steps(event, n as nat),
{
    let ghost start = plan@;
    let mut i: usize = 0;
    while i < n
        invariant
            i <= n,
            plan@ == start + middleware_steps(event, i as nat),
        decreases n - i,
    {
        plan.push(Step::Middleware(event, i));
        i += 1;
        proof {
            assert(plan@ =~= start + middleware_steps(event, i as nat));
        }
    }
}

impl<M> Default for MiddlewareRegistry<M> {
    fn default() -> (r: Self)
        ensures
            forall|e: HookEvent| #[trigger] r.stack(e) == Seq::<M>::empty(),
    {
        Self::new()
    }
}

} // verus!
