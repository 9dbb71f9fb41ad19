use hyperspeed::connection::ClientView;
use hyperspeed::scheduler::{
    SchedulerError, System, SystemExecutorBuilder, TickContext,
};

struct Nop;

impl System<()> for Nop {
    fn run(&mut self, _ctx: &mut TickContext<()>) {}
}

struct Recorder {
    tag: &'static str,
}

impl System<()> for Recorder {
    fn run(&mut self, ctx: &mut TickContext<()>) {
        // Record execution order through the view sink.
        let seen = match ctx.views.get(&"trace".to_string()) {
            Some(v) => {
                let mut s = v.sprites.clone();
                s.push(self.tag.to_string());
                s
            },
            None => vec![self.tag.to_string()],
        };
        ctx.set_view("trace".to_string(), ClientView { sprites: seen });
    }
}

fn order_of(names: &[(&'static str, &[&str])]) -> Vec<String> {
    let mut builder: SystemExecutorBuilder<Recorder> = SystemExecutorBuilder::new();
    for (name, deps) in names {
        builder.add_system(Recorder { tag: name }, name, deps);
    }
    let mut executor = builder.build().expect("build");
    let order = executor.execution_order().clone();
    let mut result = Vec::new();
    for idx in order {
        result.push(executor.metas[idx].name.clone());
    }
    // Also check the run phase visits systems in the same order.
    let mut ctx: TickContext<()> = TickContext::new(hyperspeed::input::InputMap::new());
    executor.run_tick(&mut ctx);
    let trace = ctx.views.get(&"trace".to_string()).expect("trace").sprites.clone();
    assert_eq!(trace, result);
    result
}

#[test]
fn dependencies_run_strictly_before_dependents() {
    let order = order_of(&[("a", &[]), ("b", &["a"]), ("c", &["a"])]);
    let pos = |n: &str| order.iter().position(|x| x == n).unwrap();
    assert!(pos("a") < pos("b"));
    assert!(pos("a") < pos("c"));
}

#[test]
fn unordered_systems_keep_registration_order() {
    // b and c both depend only on a: their relative order is their
    // registration order, deterministically.
    let order1 = order_of(&[("a", &[]), ("b", &["a"]), ("c", &["a"])]);
    assert_eq!(order1, vec!["a".to_string(), "b".to_string(), "c".to_string()]);
    let order2 = order_of(&[("a", &[]), ("c", &["a"]), ("b", &["a"])]);
    assert_eq!(order2, vec!["a".to_string(), "c".to_string(), "b".to_string()]);
}

#[test]
fn cycle_is_refused_at_build_time() {
    let mut builder: SystemExecutorBuilder<Nop> = SystemExecutorBuilder::new();
    builder.add_system(Nop, "a", &["b"]);
    builder.add_system(Nop, "b", &["a"]);
    match builder.build() {
        Err(e) => assert_eq!(e, SchedulerError::GraphCycleDetected),
        Ok(_) => panic!("a cyclic graph must not build"),
    }
}

#[test]
fn unknown_dependency_is_refused_at_build_time() {
    let mut builder: SystemExecutorBuilder<Nop> = SystemExecutorBuilder::new();
    builder.add_system(Nop, "a", &["ghost_system"]);
    assert_eq!(builder.build().err(), Some(SchedulerError::UnknownDependency));
}

#[test]
fn duplicate_name_is_refused_at_build_time() {
    let mut builder: SystemExecutorBuilder<Nop> = SystemExecutorBuilder::new();
    builder.add_system(Nop, "a", &[]);
    builder.add_system(Nop, "a", &[]);
    assert_eq!(builder.build().err(), Some(SchedulerError::DuplicateSystemName));
}

#[test]
fn empty_schedule_builds_and_runs() {
    let builder: SystemExecutorBuilder<Nop> = SystemExecutorBuilder::new();
    let mut executor = builder.build().expect("empty build");
    assert!(executor.execution_order().is_empty());
    let mut ctx: TickContext<()> = TickContext::new(hyperspeed::input::InputMap::new());
    executor.run_tick(&mut ctx);
}

#[test]
fn view_sink_keeps_only_the_latest_payload_per_connection() {
    let mut ctx: TickContext<()> = TickContext::new(hyperspeed::input::InputMap::new());
    ctx.set_view("p1".to_string(), ClientView { sprites: vec!["old".to_string()] });
    ctx.set_view("p1".to_string(), ClientView { sprites: vec!["new".to_string()] });
    ctx.set_view("p2".to_string(), ClientView { sprites: vec!["other".to_string()] });
    let v = ctx.views.get(&"p1".to_string()).expect("view for p1");
    assert_eq!(v.sprites, vec!["new".to_string()]);
    let w = ctx.views.get(&"p2".to_string()).expect("view for p2");
    assert_eq!(w.sprites, vec!["other".to_string()]);
}
