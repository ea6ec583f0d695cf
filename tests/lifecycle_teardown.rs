use hello_triangle::lifecycle::{rank_of, Context, LifecycleError, Resource, ResourceKind};
use hello_triangle::lifecycle::ResourceKind::{
    DebugMessenger, Device, Framebuffer, ImageView, Instance, Pipeline, PipelineLayout, RenderPass,
    Surface, Swapchain,
};

fn res(kind: ResourceKind, handle: u64) -> Resource {
    Resource { kind, handle }
}

fn build(ctx: &mut Context, items: &[(ResourceKind, u64)]) {
    for (k, h) in items {
        assert_eq!(ctx.record(res(*k, *h)), Ok(()));
    }
}

fn full_chain(with_messenger: bool) -> Vec<(ResourceKind, u64)> {
    let mut v = vec![(Instance, 1)];
    if with_messenger {
        v.push((DebugMessenger, 2));
    }
    v.extend([
        (Surface, 3),
        (Device, 4),
        (Swapchain, 5),
        (ImageView, 6),
        (ImageView, 7),
        (RenderPass, 8),
        (PipelineLayout, 9),
        (Pipeline, 10),
        (Framebuffer, 11),
        (Framebuffer, 12),
    ]);
    v
}

#[test]
fn complete_context_tears_down_in_reverse() {
    let mut ctx = Context::new();
    build(&mut ctx, &full_chain(true));
    assert!(ctx.is_complete());
    let order: Vec<(ResourceKind, u64)> =
        ctx.teardown().into_iter().map(|r| (r.kind, r.handle)).collect();
    assert_eq!(
        order,
        vec![
            (Framebuffer, 12),
            (Framebuffer, 11),
            (Pipeline, 10),
            (PipelineLayout, 9),
            (RenderPass, 8),
            (ImageView, 7),
            (ImageView, 6),
            (Swapchain, 5),
            (Device, 4),
            (DebugMessenger, 2),
            (Surface, 3),
            (Instance, 1),
        ]
    );
}

#[test]
fn context_without_messenger_skips_it() {
    let mut ctx = Context::new();
    build(&mut ctx, &full_chain(false));
    assert!(ctx.is_complete());
    let kinds: Vec<ResourceKind> = ctx.teardown().into_iter().map(|r| r.kind).collect();
    assert!(!kinds.contains(&DebugMessenger));
    assert_eq!(kinds[kinds.len() - 3..].to_vec(), vec![Device, Surface, Instance]);
}

#[test]
fn partial_context_releases_only_what_was_created() {
    let mut ctx = Context::new();
    build(&mut ctx, &[(Instance, 1), (DebugMessenger, 2), (Surface, 3)]);
    assert!(!ctx.is_complete());
    let order: Vec<(ResourceKind, u64)> =
        ctx.teardown().into_iter().map(|r| (r.kind, r.handle)).collect();
    assert_eq!(order, vec![(DebugMessenger, 2), (Surface, 3), (Instance, 1)]);
}

#[test]
fn messenger_only_context_releases_it_before_instance() {
    let mut ctx = Context::new();
    build(&mut ctx, &[(Instance, 1), (DebugMessenger, 2)]);
    let order: Vec<(ResourceKind, u64)> =
        ctx.teardown().into_iter().map(|r| (r.kind, r.handle)).collect();
    assert_eq!(order, vec![(DebugMessenger, 2), (Instance, 1)]);
}

#[test]
fn partial_context_after_device_failure() {
    let mut ctx = Context::new();
    build(&mut ctx, &[(Instance, 1), (Surface, 3)]);
    let order: Vec<(ResourceKind, u64)> =
        ctx.teardown().into_iter().map(|r| (r.kind, r.handle)).collect();
    assert_eq!(order, vec![(Surface, 3), (Instance, 1)]);
}

#[test]
fn empty_context_releases_nothing() {
    assert!(Context::new().teardown().is_empty());
}

#[test]
fn first_resource_must_be_instance() {
    let mut ctx = Context::new();
    assert_eq!(ctx.record(res(ResourceKind::Surface, 3)), Err(LifecycleError::OutOfOrder));
    assert_eq!(ctx.len(), 0);
}

#[test]
fn skipping_a_stage_is_refused() {
    let mut ctx = Context::new();
    build(&mut ctx, &[(Instance, 1), (Surface, 3)]);
    assert_eq!(ctx.record(res(Swapchain, 5)), Err(LifecycleError::OutOfOrder));
    assert_eq!(ctx.record(res(DebugMessenger, 2)), Err(LifecycleError::OutOfOrder));
    assert_eq!(ctx.record(res(Surface, 4)), Err(LifecycleError::OutOfOrder));
    assert_eq!(ctx.len(), 2);
    assert!(ctx.can_record(Device));
}

#[test]
fn framebuffers_cannot_outnumber_image_views() {
    let mut ctx = Context::new();
    build(
        &mut ctx,
        &[
            (Instance, 1),
            (Surface, 3),
            (Device, 4),
            (Swapchain, 5),
            (ImageView, 6),
            (RenderPass, 8),
            (PipelineLayout, 9),
            (Pipeline, 10),
            (Framebuffer, 11),
        ],
    );
    assert!(ctx.is_complete());
    assert_eq!(ctx.record(res(Framebuffer, 12)), Err(LifecycleError::OutOfOrder));
    assert_eq!(ctx.count_of(Framebuffer), 1);
    assert_eq!(ctx.count_of(ImageView), 1);
}

#[test]
fn ranks_follow_creation_order() {
    let kinds = [
        Instance, DebugMessenger, Surface, Device, Swapchain, ImageView, RenderPass,
        PipelineLayout, Pipeline, Framebuffer,
    ];
    for (i, k) in kinds.iter().enumerate() {
        assert_eq!(rank_of(*k) as usize, i);
    }
}
