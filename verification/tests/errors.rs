//! Refused declarations and their messages.
use ornis_render::compile::assert_pass_access_declared;
use ornis_render::declarations::{PassId, SizePolicy, TextureFormat, TextureSpec};
use ornis_render::frame_plan::FramePlan;
use ornis_render::ordering::OrderError;
use ornis_render::render_graph::RenderGraph;
use ornis_render::system::SystemSet;
use ornis_render::transient_pool::{texture_bytes, Budget};

fn spec() -> TextureSpec {
    TextureSpec {
        format: TextureFormat::Rgba8Unorm,
        samples: 1,
        size: SizePolicy::MatchSurface,
    }
}

#[test]
fn reading_before_any_write_is_reported() {
    let mut plan = FramePlan::new((320, 240));
    let x = plan.create_resource("x", spec());
    plan.add_pass("p0").read(x);
    plan.add_pass("p1").write(x);
    let err = plan.check().expect_err("x is read first");
    assert_eq!(
        err.message(),
        "resource 'x' is read in pass 'p0' (index 0) before any write; use import_resource() for \
         external inputs, or write it in an earlier pass"
    );

    let mut graph = RenderGraph::new((320, 240));
    let x = graph.create_resource("x", spec());
    graph.add_pass("p0").read(x);
    graph.add_pass("p1").write(x);
    assert!(graph
        .check()
        .expect_err("x is read first")
        .message()
        .contains("before any write"));

    let mut set = SystemSet::new();
    let x = set.create_resource("x", spec());
    set.add_pass("p0").read(x);
    assert!(set.check().is_err());
}

#[test]
fn a_disabled_reader_breaks_no_rule() {
    let mut plan = FramePlan::new((320, 240));
    let x = plan.create_resource("x", spec());
    let p0 = plan.add_pass("p0").read(x).id();
    plan.add_pass("p1").write(x);
    plan.set_pass_enabled(p0, false);
    assert!(plan.check().is_ok());
}

#[test]
fn an_undeclared_access_is_reported() {
    let mut plan = FramePlan::new((320, 240));
    let a = plan.create_resource("a", spec());
    let b = plan.create_resource("b", spec());
    plan.add_pass("writer").write(a).write(b);
    plan.add_pass("sneaky").read(a);
    let layout = plan.build();
    let err = assert_pass_access_declared(&layout, 1, b).expect_err("b is not declared");
    assert!(err
        .message()
        .contains("'sneaky' (index 1) accesses resource 'b'"));
    assert!(assert_pass_access_declared(&layout, 1, a).is_ok());
}

#[test]
fn refused_edges_say_why() {
    let mut plan = FramePlan::new((64, 64));
    let a = plan.create_resource("a", spec());
    let b = plan.create_resource("b", spec());
    let first = plan.add_pass("first").write(a).id();
    let second = plan.add_pass("second").write(b).id();
    let backward = plan
        .try_order_before(second, first)
        .expect_err("edges lead forward");
    assert!(backward.message().contains("registered"));
    let unknown = plan
        .try_order_before_named("first", "ghost")
        .expect_err("no such pass");
    assert!(unknown.message().contains("no node named 'ghost'"));
    assert_eq!(
        plan.try_order_before(PassId(9), first),
        Err(OrderError::UnknownNode {
            name: "#9".to_owned()
        })
    );
    // A refused edge changes nothing.
    assert_eq!(plan.build().levels(), vec![vec![0, 1]]);
    assert_eq!(plan.try_order_before(first, first).is_err(), true);
}

#[test]
fn an_exceeded_budget_names_the_largest_slot() {
    let mut plan = FramePlan::new((1024, 1024));
    let a = plan.create_resource("big", spec());
    let b = plan.create_resource(
        "small",
        TextureSpec {
            size: SizePolicy::Fraction(2),
            ..spec()
        },
    );
    plan.add_pass("p0").write(a).write(b);
    assert_eq!(plan.build().planned_pool_bytes(), 5 * 1024 * 1024);
    plan.set_budget(Budget::gpu_textures(4 * 1024 * 1024));
    let err = plan.try_layout().expect_err("five MiB do not fit four");
    assert_eq!(
        err.message(),
        "transient pool needs 5 MiB (5242880 bytes), the budget is 4 MiB (4194304 bytes); the \
         largest slot holds big"
    );
}

#[test]
fn texture_sizes_saturate() {
    let huge = TextureSpec {
        format: TextureFormat::Rgba32Float,
        samples: 4,
        size: SizePolicy::Fixed {
            width: u32::MAX,
            height: u32::MAX,
        },
    };
    assert_eq!(texture_bytes(huge, (1, 1)), u64::MAX);
}

#[test]
fn fractions_round_down_and_never_vanish() {
    assert_eq!(SizePolicy::Fraction(2).resolve((1281, 720)), (640, 360));
    assert_eq!(SizePolicy::Fraction(8).resolve((4, 16)), (1, 2));
    assert_eq!(SizePolicy::Fraction(0).resolve((4, 16)), (4, 16));
}

#[test]
fn named_edges_use_the_first_pass_of_a_name() {
    let mut plan = FramePlan::new((64, 64));
    let a = plan.create_resource("a", spec());
    let b = plan.create_resource("b", spec());
    let c = plan.create_resource("c", spec());
    plan.add_pass("draw").write(a);
    plan.add_pass("blur").write(b);
    plan.add_pass("draw").write(c);
    plan.order_before_named("draw", "blur");
    assert_eq!(plan.build().levels(), vec![vec![0, 2], vec![1]]);
}
