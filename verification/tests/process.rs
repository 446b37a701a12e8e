use axprocess::{
    process_table, Process, ProcessBuilder, ProcessError, ProcessFilter, ProcessSummary, Registry,
};

#[test]
fn child() {
    let mut registry = Registry::<()>::new();
    let init = Process::new_init(&mut registry);

    let child = init.fork(&mut registry);
    assert_eq!(init, child.parent(&registry).unwrap());
}

#[test]
fn exit() {
    let mut registry = Registry::<()>::new();
    let init = Process::new_init(&mut registry);

    let child = init.fork(&mut registry);

    child.exit(&mut registry);
    assert!(child.is_zombie(&registry));
    assert!(init.children(&registry).iter().any(|c| *c == child));
}

#[test]
fn free() {
    let mut registry = Registry::<()>::new();
    let init = Process::new_init(&mut registry);
    let child = init.fork(&mut registry);
    child.exit(&mut registry);
    child.free(&mut registry);
    assert!(init.children(&registry).is_empty());
}

#[test]
fn reap() {
    let mut registry = Registry::<()>::new();
    let init = Process::new_init(&mut registry);

    let child = init.fork(&mut registry);
    let grandchild = child.fork(&mut registry);

    child.exit(&mut registry);

    assert_eq!(init, grandchild.parent(&registry).unwrap());
}

#[test]
fn allocator_counts_up_from_one() {
    let mut registry = Registry::<()>::new();
    assert_eq!(registry.next_pid(), Some(1));
    let init = Process::new_init(&mut registry);
    assert_eq!(init.pid(), 1);
    let child = init.fork(&mut registry);
    assert_eq!(child.pid(), 2);
    let grandchild = child.fork(&mut registry);
    assert_eq!(grandchild.pid(), 3);
    assert_eq!(registry.next_pid(), Some(4));
}

#[test]
fn allocator_skips_past_chosen_ids() {
    let mut registry = Registry::<()>::new();
    let init = Process::new_init(&mut registry);
    let far = init.new_child(&mut registry, 40);
    assert_eq!(far.pid(), 40);
    assert_eq!(registry.next_pid(), Some(41));
    let near = init.new_child(&mut registry, 7);
    assert_eq!(near.pid(), 7);
    assert_eq!(registry.next_pid(), Some(41));
    assert_eq!(init.fork(&mut registry).pid(), 41);
}

#[test]
fn allocator_is_spent_after_the_last_id() {
    let mut registry = Registry::<()>::new();
    let last = ProcessBuilder::new(u32::MAX).build(&mut registry);
    assert_eq!(last.pid(), u32::MAX);
    assert_eq!(registry.next_pid(), None);
}

#[test]
fn new_process_is_alive_with_exit_code_zero() {
    let mut registry = Registry::<()>::new();
    let init = Process::new_init(&mut registry);
    assert!(!init.is_zombie(&registry));
    assert_eq!(init.exit_code(&registry), 0);
    assert!(!init.is_group_exited(&registry));
    assert!(init.parent(&registry).is_none());
    assert!(init.children(&registry).is_empty());
}

#[test]
fn children_are_listed_by_ascending_id() {
    let mut registry = Registry::<()>::new();
    let init = Process::new_init(&mut registry);
    let c9 = init.new_child(&mut registry, 9);
    let c4 = init.new_child(&mut registry, 4);
    let c6 = init.new_child(&mut registry, 6);
    assert_eq!(init.children(&registry), vec![c4, c6, c9]);
}

#[test]
fn parent_lists_child_until_child_is_freed() {
    let mut registry = Registry::<()>::new();
    let init = Process::new_init(&mut registry);
    let child = init.fork(&mut registry);
    let parent = child.parent(&registry).unwrap();
    assert!(parent.children(&registry).contains(&child));
    child.exit(&mut registry);
    assert!(parent.children(&registry).contains(&child));
    child.free(&mut registry);
    assert!(!parent.children(&registry).contains(&child));
    assert!(registry.process(child.pid()).is_none());
}

#[test]
fn exit_hands_children_to_topmost_ancestor() {
    let mut registry = Registry::<()>::new();
    let init = Process::new_init(&mut registry);
    let child = init.fork(&mut registry);
    let grandchild = child.fork(&mut registry);
    let a = grandchild.fork(&mut registry);
    let b = grandchild.fork(&mut registry);

    grandchild.exit(&mut registry);

    assert_eq!(a.parent(&registry), Some(init));
    assert_eq!(b.parent(&registry), Some(init));
    assert_eq!(init.children(&registry), vec![child, a, b]);
    assert_eq!(child.children(&registry), vec![grandchild]);
    assert!(grandchild.children(&registry).is_empty());
    assert!(grandchild.is_zombie(&registry));
    assert_eq!(grandchild.parent(&registry), Some(child));
}

#[test]
fn exit_keeps_group_membership() {
    let mut registry = Registry::<()>::new();
    let init = Process::new_init(&mut registry);
    let child = init.fork(&mut registry);
    let group = child.group(&registry);
    child.exit(&mut registry);
    assert_eq!(child.group(&registry), group);
    assert_eq!(group.processes(&registry), vec![init, child]);
}

#[test]
fn root_exit_lets_go_of_children() {
    let mut registry = Registry::<()>::new();
    let init = Process::new_init(&mut registry);
    let child = init.fork(&mut registry);

    init.exit(&mut registry);

    assert!(init.is_zombie(&registry));
    assert!(init.children(&registry).is_empty());
    assert_eq!(child.parent(&registry), Some(init));
    assert!(registry.process(child.pid()).is_some());
}

#[test]
fn orphan_of_exited_root_hands_children_to_that_root() {
    let mut registry = Registry::<()>::new();
    let init = Process::new_init(&mut registry);
    let child = init.fork(&mut registry);
    let grandchild = child.fork(&mut registry);
    init.exit(&mut registry);

    child.exit(&mut registry);

    assert_eq!(grandchild.parent(&registry), Some(init));
    assert_eq!(init.children(&registry), vec![grandchild]);
}

#[test]
fn free_makes_remaining_children_parentless() {
    let mut registry = Registry::<()>::new();
    let init = Process::new_init(&mut registry);
    let child = init.fork(&mut registry);
    init.exit(&mut registry);
    let late = init.fork(&mut registry);
    assert_eq!(init.children(&registry), vec![late]);

    init.free(&mut registry);

    assert!(registry.process(init.pid()).is_none());
    assert_eq!(child.parent(&registry), None);
    assert_eq!(late.parent(&registry), None);
    assert_eq!(process_table(&registry), vec![child, late]);
}

#[test]
fn free_removes_last_member_group_and_session() {
    let mut registry = Registry::<()>::new();
    let init = Process::new_init(&mut registry);
    let child = init.fork(&mut registry);
    let session = child.create_session(&mut registry).unwrap();
    let group = child.group(&registry);
    assert!(registry.group(group.pgid()).is_some());
    assert!(registry.session(session.sid()).is_some());

    child.exit(&mut registry);
    child.free(&mut registry);

    assert!(init.children(&registry).is_empty());
    assert!(registry.group(group.pgid()).is_none());
    assert!(registry.session(session.sid()).is_none());
    assert_eq!(
        init.find_zombie_child(&registry, ProcessFilter::Any),
        Err(ProcessError::NotFound)
    );
}

#[test]
fn free_keeps_group_that_has_other_members() {
    let mut registry = Registry::<()>::new();
    let init = Process::new_init(&mut registry);
    let child = init.fork(&mut registry);
    let group = child.group(&registry);

    child.exit(&mut registry);
    child.free(&mut registry);

    assert_eq!(group.processes(&registry), vec![init]);
    assert_eq!(registry.group(group.pgid()), Some(group));
}

#[test]
fn find_zombie_child_without_children_is_not_found() {
    let mut registry = Registry::<()>::new();
    let init = Process::new_init(&mut registry);
    assert_eq!(
        init.find_zombie_child(&registry, ProcessFilter::Any),
        Err(ProcessError::NotFound)
    );
}

#[test]
fn find_zombie_child_with_living_children_is_none() {
    let mut registry = Registry::<()>::new();
    let init = Process::new_init(&mut registry);
    let _child = init.fork(&mut registry);
    assert_eq!(init.find_zombie_child(&registry, ProcessFilter::Any), Ok(None));
}

#[test]
fn find_zombie_child_returns_first_zombie() {
    let mut registry = Registry::<()>::new();
    let init = Process::new_init(&mut registry);
    let a = init.fork(&mut registry);
    let b = init.fork(&mut registry);
    let c = init.fork(&mut registry);
    c.exit(&mut registry);
    assert_eq!(init.find_zombie_child(&registry, ProcessFilter::Any), Ok(Some(c)));
    b.exit(&mut registry);
    assert_eq!(init.find_zombie_child(&registry, ProcessFilter::Any), Ok(Some(b)));
    assert!(!a.is_zombie(&registry));
}

#[test]
fn find_zombie_child_by_pid() {
    let mut registry = Registry::<()>::new();
    let init = Process::new_init(&mut registry);
    let a = init.fork(&mut registry);
    let b = init.fork(&mut registry);
    a.exit(&mut registry);
    assert_eq!(
        init.find_zombie_child(&registry, ProcessFilter::WithPid(a.pid())),
        Ok(Some(a))
    );
    assert_eq!(init.find_zombie_child(&registry, ProcessFilter::WithPid(b.pid())), Ok(None));
    assert_eq!(
        init.find_zombie_child(&registry, ProcessFilter::WithPid(init.pid())),
        Err(ProcessError::NotFound)
    );
    assert_eq!(
        init.find_zombie_child(&registry, ProcessFilter::WithPid(77)),
        Err(ProcessError::NotFound)
    );
}

#[test]
fn find_zombie_child_by_group() {
    let mut registry = Registry::<()>::new();
    let init = Process::new_init(&mut registry);
    let a = init.fork(&mut registry);
    let b = init.fork(&mut registry);
    let own = b.create_group(&mut registry);
    a.exit(&mut registry);
    assert_eq!(
        init.find_zombie_child(&registry, ProcessFilter::WithPgid(own.pgid())),
        Ok(None)
    );
    assert_eq!(
        init.find_zombie_child(&registry, ProcessFilter::WithPgid(init.pid())),
        Ok(Some(a))
    );
    b.exit(&mut registry);
    assert_eq!(
        init.find_zombie_child(&registry, ProcessFilter::WithPgid(own.pgid())),
        Ok(Some(b))
    );
    assert_eq!(
        init.find_zombie_child(&registry, ProcessFilter::WithPgid(99)),
        Err(ProcessError::NotFound)
    );
}

#[test]
fn builder_without_parent_builds_a_root() {
    let mut registry = Registry::<()>::new();
    let root = ProcessBuilder::new(12).build(&mut registry);
    assert_eq!(root.pid(), 12);
    assert!(root.parent(&registry).is_none());
    assert_eq!(root.group(&registry).pgid(), 12);
    assert_eq!(root.session(&registry).sid(), 12);
    assert!(root.data(&registry).is_none());
}

#[test]
fn builder_with_parent_and_data() {
    let mut registry = Registry::<String>::new();
    let root = ProcessBuilder::new(1).data(String::from("init")).build(&mut registry);
    let child = ProcessBuilder::new(2).parent(root).data(String::from("sh")).build(&mut registry);
    let bare = ProcessBuilder::new(3).parent(root).build(&mut registry);
    assert_eq!(child.parent(&registry), Some(root));
    assert_eq!(child.group(&registry), root.group(&registry));
    assert_eq!(root.data(&registry).map(|d| d.as_str()), Some("init"));
    assert_eq!(child.data(&registry).map(|d| d.as_str()), Some("sh"));
    assert!(bare.data(&registry).is_none());
    child.exit(&mut registry);
    child.free(&mut registry);
    assert!(child.data(&registry).is_none());
    assert_eq!(root.data(&registry).map(|d| d.as_str()), Some("init"));
}

#[test]
fn lookup_finds_registered_processes_only() {
    let mut registry = Registry::<()>::new();
    assert!(registry.is_unused(1));
    let init = Process::new_init(&mut registry);
    assert_eq!(registry.process(1), Some(init));
    assert_eq!(registry.process(2), None);
    assert!(!registry.is_unused(1));
    assert!(registry.is_unused(2));
}

#[test]
fn group_id_stays_in_use_after_its_leader_is_freed() {
    let mut registry = Registry::<()>::new();
    let init = Process::new_init(&mut registry);
    let leader = init.fork(&mut registry);
    leader.create_group(&mut registry);
    let follower = leader.fork(&mut registry);
    leader.exit(&mut registry);
    leader.free(&mut registry);
    assert!(registry.process(leader.pid()).is_none());
    assert!(!registry.is_unused(leader.pid()));
    assert_eq!(follower.group(&registry).pgid(), leader.pid());
}

#[test]
fn summary_shows_exit_code_of_zombies_only() {
    let mut registry = Registry::<()>::new();
    let init = Process::new_init(&mut registry);
    let child = init.fork(&mut registry);
    let thread = child.new_thread(&mut registry, 2);
    assert!(thread.exit(&mut registry, 7));
    let group = child.group(&registry);
    assert_eq!(
        child.summary(&registry),
        ProcessSummary { pid: 2, group_exited: false, exit_code: None, parent: Some(1), group }
    );
    child.group_exit(&mut registry);
    child.exit(&mut registry);
    assert_eq!(
        child.summary(&registry),
        ProcessSummary { pid: 2, group_exited: true, exit_code: Some(7), parent: Some(1), group }
    );
    assert_eq!(
        init.summary(&registry),
        ProcessSummary { pid: 1, group_exited: false, exit_code: None, parent: None, group }
    );
}
