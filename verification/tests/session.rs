use axprocess::{
    process_group_table, process_table, session_table, Process, ProcessError, Registry,
};

#[test]
fn session_basic() {
    let mut registry = Registry::<()>::new();
    let init = Process::new_init(&mut registry);
    let init_group = init.group(&registry);
    let init_session = init_group.session();

    assert_eq!(init_group.pgid(), init.pid());
    assert_eq!(init_session.sid(), init.pid());

    let process_groups = init_session.process_groups(&registry);
    assert_eq!(process_groups.len(), 1);
    assert!(process_groups.iter().any(|p| *p == init_group));
}

#[test]
fn session_cleanup() {
    let mut registry = Registry::<()>::new();
    let init = Process::new_init(&mut registry);
    let session = init.group(&registry).session();

    assert!(registry.session(session.sid()).is_some());
    init.exit(&mut registry);
    init.free(&mut registry);
    assert!(registry.session(session.sid()).is_none());
}

#[test]
fn session_create() {
    let mut registry = Registry::<()>::new();
    let init = Process::new_init(&mut registry);
    let init_group = init.group(&registry);
    let init_session = init_group.session();

    let child = init.fork(&mut registry);
    let child_session = child.create_session(&mut registry).unwrap();
    let child_group = child.group(&registry);

    assert_eq!(child_group.pgid(), child.pid());
    assert_eq!(child_session.sid(), child.pid());
    assert_eq!(child_group, child.group(&registry));
    assert_eq!(child_session, child_group.session());

    assert_eq!(init_group.processes(&registry).len(), 1);
    assert_eq!(init_session.process_groups(&registry).len(), 1);

    assert_eq!(child_group.processes(&registry).len(), 1);
    assert_eq!(child_session.process_groups(&registry).len(), 1);
}

#[test]
fn create_group() {
    let mut registry = Registry::<()>::new();
    let init = Process::new_init(&mut registry);
    let init_group = init.group(&registry);
    let init_session = init_group.session();

    let child = init.fork(&mut registry);
    let child_group = child.create_group(&mut registry);

    assert_eq!(child_group.session(), init_session);

    let process_groups = init_session.process_groups(&registry);
    assert_eq!(process_groups.len(), 2);
    assert!(process_groups.iter().any(|p| *p == init_group));
    assert!(process_groups.iter().any(|p| *p == child_group));
}

#[test]
fn move_to_different_session() {
    let mut registry = Registry::<()>::new();
    let init = Process::new_init(&mut registry);

    let child = init.fork(&mut registry);
    let grandchild = child.fork(&mut registry);

    let child_session = child.create_session(&mut registry).unwrap();
    let child_group = child.group(&registry);

    assert_ne!(child_group, grandchild.group(&registry));
    assert_ne!(child_session, grandchild.group(&registry).session());

    assert!(!grandchild.move_to_group(&mut registry, &child_group));
}

#[test]
fn cleanup_groups() {
    let mut registry = Registry::<()>::new();
    let init = Process::new_init(&mut registry);
    let session = init.group(&registry).session();

    init.exit(&mut registry);
    init.free(&mut registry);

    assert!(session.process_groups(&registry).is_empty());
}

#[test]
fn create_session_by_session_leader_changes_nothing() {
    let mut registry = Registry::<()>::new();
    let init = Process::new_init(&mut registry);
    let child = init.fork(&mut registry);
    let session = child.create_session(&mut registry).unwrap();
    let groups = process_group_table(&registry);
    let sessions = session_table(&registry);

    assert_eq!(child.create_session(&mut registry), Ok(session));
    assert_eq!(init.create_session(&mut registry), Ok(init.session(&registry)));

    assert_eq!(process_group_table(&registry), groups);
    assert_eq!(session_table(&registry), sessions);
}

#[test]
fn create_session_by_group_leader_is_denied() {
    let mut registry = Registry::<()>::new();
    let init = Process::new_init(&mut registry);
    let child = init.fork(&mut registry);
    let group = child.create_group(&mut registry);
    let groups = process_group_table(&registry);
    let sessions = session_table(&registry);

    assert_eq!(child.create_session(&mut registry), Err(ProcessError::PermissionDenied));

    assert_eq!(child.group(&registry), group);
    assert_eq!(process_group_table(&registry), groups);
    assert_eq!(session_table(&registry), sessions);
}

#[test]
fn create_session_removes_emptied_group_from_old_session() {
    let mut registry = Registry::<()>::new();
    let init = Process::new_init(&mut registry);
    let a = init.fork(&mut registry);
    let b = init.fork(&mut registry);
    let group_a = a.create_group(&mut registry);
    assert_eq!(b.set_group(&mut registry, a.pid()), Ok(()));
    let init_group = init.group(&registry);
    assert!(a.move_to_group(&mut registry, &init_group));
    assert_eq!(group_a.processes(&registry), vec![b]);

    let session_b = b.create_session(&mut registry).unwrap();

    assert_eq!(session_b.sid(), b.pid());
    assert!(group_a.processes(&registry).is_empty());
    assert!(registry.group(group_a.pgid()).is_none());
    assert_eq!(init.session(&registry).process_groups(&registry), vec![init_group]);
    assert_eq!(session_b.process_groups(&registry), vec![b.group(&registry)]);
}

#[test]
fn session_leader_leaving_its_group_stays_session_leader() {
    let mut registry = Registry::<()>::new();
    let init = Process::new_init(&mut registry);
    let a = init.fork(&mut registry);
    let group_a = a.create_group(&mut registry);
    assert!(init.move_to_group(&mut registry, &group_a));
    assert!(registry.group(init.pid()).is_none());
    assert_eq!(init.session(&registry).sid(), init.pid());
    assert_eq!(init.create_session(&mut registry), Ok(init.session(&registry)));
    assert_eq!(init.group(&registry), group_a);
}

#[test]
fn tables_list_everything_registered() {
    let mut registry = Registry::<()>::new();
    assert!(process_table(&registry).is_empty());
    assert!(process_group_table(&registry).is_empty());
    assert!(session_table(&registry).is_empty());
    let init = Process::new_init(&mut registry);
    let a = init.fork(&mut registry);
    let b = init.fork(&mut registry);
    let session_b = b.create_session(&mut registry).unwrap();
    assert_eq!(process_table(&registry), vec![init, a, b]);
    assert_eq!(session_table(&registry), vec![init.session(&registry), session_b]);
    assert_eq!(registry.session(session_b.sid()), Some(session_b));
    assert_eq!(registry.session(a.pid()), None);
}

#[test]
fn every_process_has_a_registered_group_and_session() {
    let mut registry = Registry::<()>::new();
    let init = Process::new_init(&mut registry);
    let a = init.fork(&mut registry);
    let b = a.fork(&mut registry);
    a.create_session(&mut registry).unwrap();
    b.create_group(&mut registry);
    a.exit(&mut registry);
    a.free(&mut registry);
    for process in process_table(&registry) {
        let group = process.group(&registry);
        assert_eq!(registry.group(group.pgid()), Some(group));
        assert!(group.processes(&registry).contains(&process));
        let session = group.session();
        assert_eq!(registry.session(session.sid()), Some(session));
        assert!(session.process_groups(&registry).contains(&group));
    }
}
