use mongrel::middleware::{advance, HookEvent, MiddlewareRegistry, Progress, Step};

#[test]
fn registration_keeps_order_per_event() {
    let r = MiddlewareRegistry::new()
        .pre_save("audit")
        .pre_save("lowercase")
        .post_delete("deleted")
        .pre_validate("pv")
        .post_validate("pov")
        .post_save("ps")
        .pre_delete("pd");
    assert_eq!(r.stack_for(HookEvent::PreSave), &["audit", "lowercase"]);
    assert_eq!(r.stack_for(HookEvent::PostDelete), &["deleted"]);
    assert_eq!(r.stack_for(HookEvent::PreValidate), &["pv"]);
    assert_eq!(r.stack_for(HookEvent::PostValidate), &["pov"]);
    assert_eq!(r.stack_for(HookEvent::PostSave), &["ps"]);
    assert_eq!(r.stack_for(HookEvent::PreDelete), &["pd"]);
    assert!(r.stack_for(HookEvent::PreFind).is_empty());
    assert!(r.stack_for(HookEvent::PostFind).is_empty());
    assert_eq!(r.count(HookEvent::PreSave), 2);
}

#[test]
fn empty_registry_has_no_middleware() {
    let r: MiddlewareRegistry<u8> = MiddlewareRegistry::default();
    for e in [
        HookEvent::PreSave,
        HookEvent::PostSave,
        HookEvent::PreDelete,
        HookEvent::PostDelete,
        HookEvent::PreValidate,
        HookEvent::PostValidate,
        HookEvent::PreFind,
        HookEvent::PostFind,
    ] {
        assert_eq!(r.count(e), 0);
    }
}

#[test]
fn create_without_middleware_runs_hooks_around_the_write() {
    let r: MiddlewareRegistry<u8> = MiddlewareRegistry::new();
    assert_eq!(
        r.create_plan(),
        vec![
            Step::Hook(HookEvent::PreValidate),
            Step::Validate,
            Step::Hook(HookEvent::PostValidate),
            Step::Hook(HookEvent::PreSave),
            Step::Insert,
            Step::Fetch,
            Step::Hook(HookEvent::PostSave),
        ]
    );
}

#[test]
fn create_runs_pre_middleware_before_any_hook() {
    let r = MiddlewareRegistry::new()
        .pre_save(1u8)
        .pre_save(2)
        .pre_validate(3)
        .post_validate(5)
        .post_save(4);
    assert_eq!(
        r.create_plan(),
        vec![
            Step::Middleware(HookEvent::PreValidate, 0),
            Step::Middleware(HookEvent::PreSave, 0),
            Step::Middleware(HookEvent::PreSave, 1),
            Step::Hook(HookEvent::PreValidate),
            Step::Validate,
            Step::Middleware(HookEvent::PostValidate, 0),
            Step::Hook(HookEvent::PostValidate),
            Step::Hook(HookEvent::PreSave),
            Step::Insert,
            Step::Fetch,
            Step::Middleware(HookEvent::PostSave, 0),
            Step::Hook(HookEvent::PostSave),
        ]
    );
}

#[test]
fn delete_plans() {
    let r = MiddlewareRegistry::new().pre_delete(1u8).pre_delete(2).post_delete(3);
    assert_eq!(
        r.pre_delete_plan(),
        vec![
            Step::Middleware(HookEvent::PreDelete, 0),
            Step::Middleware(HookEvent::PreDelete, 1),
            Step::Hook(HookEvent::PreDelete),
            Step::Delete,
        ]
    );
    assert_eq!(
        r.post_delete_plan(),
        vec![Step::Middleware(HookEvent::PostDelete, 0), Step::Hook(HookEvent::PostDelete)]
    );
}

#[test]
fn a_failed_step_ends_the_lifecycle_with_its_error() {
    assert_eq!(advance(7, 2, Err::<(), &str>("invalid")), Progress::Failed("invalid"));
    assert_eq!(advance(7, 6, Err::<(), &str>("late")), Progress::Failed("late"));
    assert_eq!(advance::<&str>(7, 2, Ok(())), Progress::Next(3));
    assert_eq!(advance::<&str>(7, 6, Ok(())), Progress::Finished);
}
