use axprocess::{Process, Registry};

#[test]
fn thread_handle_names_its_process() {
    let mut registry = Registry::<()>::new();
    let init = Process::new_init(&mut registry);
    let thread = init.new_thread(&mut registry, 11);
    assert_eq!(thread.tid(), 11);
    assert_eq!(*thread.process(), init);
}

#[test]
fn last_thread_to_exit_is_told_so() {
    let mut registry = Registry::<()>::new();
    let init = Process::new_init(&mut registry);
    let main = init.new_thread(&mut registry, 1);
    let worker = init.new_thread(&mut registry, 2);
    assert!(!worker.exit(&mut registry, 3));
    assert_eq!(init.exit_code(&registry), 3);
    assert!(main.exit(&mut registry, 4));
    assert_eq!(init.exit_code(&registry), 4);
}

#[test]
fn exit_of_unknown_thread_sets_the_code() {
    let mut registry = Registry::<()>::new();
    let init = Process::new_init(&mut registry);
    let main = init.new_thread(&mut registry, 1);
    assert!(main.exit(&mut registry, 5));
    assert!(main.exit(&mut registry, 6));
    assert_eq!(init.exit_code(&registry), 6);
}

#[test]
fn group_exit_freezes_the_exit_code() {
    let mut registry = Registry::<()>::new();
    let init = Process::new_init(&mut registry);
    let main = init.new_thread(&mut registry, 1);
    let worker = init.new_thread(&mut registry, 2);
    assert!(!worker.exit(&mut registry, 9));
    assert!(!init.is_group_exited(&registry));
    init.group_exit(&mut registry);
    assert!(init.is_group_exited(&registry));
    assert!(main.exit(&mut registry, -1));
    assert_eq!(init.exit_code(&registry), 9);
}

#[test]
fn thread_groups_of_two_processes_are_apart() {
    let mut registry = Registry::<()>::new();
    let init = Process::new_init(&mut registry);
    let child = init.fork(&mut registry);
    let a = init.new_thread(&mut registry, 1);
    let b = child.new_thread(&mut registry, 1);
    assert!(b.exit(&mut registry, 2));
    assert_eq!(child.exit_code(&registry), 2);
    assert_eq!(init.exit_code(&registry), 0);
    assert!(a.exit(&mut registry, 1));
}
