use axprocess::{
    process_group_table, process_table, session_table, Process, ProcessFilter, Registry,
};

struct Dice(u64);

impl Dice {
    fn roll(&mut self, sides: usize) -> usize {
        self.0 = self.0.wrapping_mul(6364136223846793005).wrapping_add(1442695040888963407);
        ((self.0 >> 33) as usize) % sides
    }
}

fn inspect(registry: &Registry<()>) {
    let processes = process_table(registry);
    let groups = process_group_table(registry);
    let sessions = session_table(registry);
    for process in &processes {
        let group = process.group(registry);
        assert_eq!(registry.group(group.pgid()), Some(group));
        assert!(group.processes(registry).contains(process));
        let session = process.session(registry);
        assert_eq!(registry.session(session.sid()), Some(session));
        assert!(session.process_groups(registry).contains(&group));
        for child in process.children(registry) {
            assert_eq!(registry.process(child.pid()), Some(child));
            assert_eq!(child.parent(registry), Some(*process));
        }
        if let Some(parent) = process.parent(registry) {
            assert_eq!(registry.process(parent.pid()), Some(parent));
            let let_go = parent.is_zombie(registry) && parent.parent(registry).is_none();
            assert!(parent.children(registry).contains(process) || let_go);
        }
        if registry.session(process.pid()).is_some() {
            assert_eq!(session.sid(), process.pid());
        }
    }
    for group in &groups {
        let members = group.processes(registry);
        assert!(!members.is_empty());
        for member in members {
            assert_eq!(member.group(registry), *group);
        }
        assert!(group.session().process_groups(registry).contains(group));
    }
    for session in &sessions {
        let listed = session.process_groups(registry);
        assert!(!listed.is_empty());
        for group in listed {
            assert_eq!(registry.group(group.pgid()), Some(group));
        }
    }
}

#[test]
fn invariant_holds_along_a_long_walk() {
    let mut registry = Registry::<()>::new();
    let mut dice = Dice(2024);
    Process::new_init(&mut registry);
    let mut seen_groups = Vec::new();
    for step in 0..3000 {
        let processes = process_table(&registry);
        if processes.is_empty() {
            Process::new_init(&mut registry);
            continue;
        }
        let process = processes[dice.roll(processes.len())];
        match dice.roll(10) {
            0 | 1 => {
                if processes.len() < 40 {
                    process.fork(&mut registry);
                }
            }
            2 => {
                process.exit(&mut registry);
                assert!(process.is_zombie(&registry));
                assert!(process.children(&registry).is_empty());
            }
            3 => {
                if process.is_zombie(&registry) {
                    process.free(&mut registry);
                    assert!(registry.process(process.pid()).is_none());
                }
            }
            4 => {
                let before = process.session(&registry);
                let denied = before.sid() != process.pid()
                    && registry.group(process.pid()).is_some();
                let created = process.create_session(&mut registry);
                assert_eq!(created.is_err(), denied);
                if !denied {
                    assert_eq!(process.session(&registry).sid(), process.pid());
                }
            }
            5 => {
                let leads = process.group(&registry).pgid() == process.pid();
                if leads || registry.group(process.pid()).is_none() {
                    let group = process.create_group(&mut registry);
                    assert_eq!(group, process.group(&registry));
                    assert_eq!(group.pgid(), process.pid());
                    seen_groups.push(group);
                }
            }
            6 => {
                let target = processes[dice.roll(processes.len())].pid();
                let session = process.session(&registry);
                let set = process.set_group(&mut registry, target);
                assert_eq!(process.session(&registry), session);
                if set.is_ok() {
                    assert_eq!(process.group(&registry).pgid(), target);
                }
            }
            7 => {
                if !seen_groups.is_empty() {
                    let group = seen_groups[dice.roll(seen_groups.len())];
                    let session = process.session(&registry);
                    let moved = process.move_to_group(&mut registry, &group);
                    assert_eq!(process.session(&registry), session);
                    assert_eq!(moved, process.group(&registry) == group);
                }
            }
            8 => {
                let found = process.find_zombie_child(&registry, ProcessFilter::Any);
                let children = process.children(&registry);
                let first = children.iter().find(|c| c.is_zombie(&registry)).copied();
                if children.is_empty() {
                    assert!(found.is_err());
                } else {
                    assert_eq!(found, Ok(first));
                }
            }
            _ => {
                let before = process_table(&registry);
                let other = before[dice.roll(before.len())];
                let group = other.group(&registry);
                let by_group =
                    process.find_zombie_child(&registry, ProcessFilter::WithPgid(group.pgid()));
                let by_pid =
                    process.find_zombie_child(&registry, ProcessFilter::WithPid(other.pid()));
                let children = process.children(&registry);
                if children.contains(&other) {
                    let zombie = other.is_zombie(&registry);
                    assert_eq!(by_pid, Ok(if zombie { Some(other) } else { None }));
                    assert!(by_group.is_ok());
                } else {
                    assert!(by_pid.is_err());
                }
            }
        }
        if step % 10 == 0 {
            inspect(&registry);
        }
    }
    inspect(&registry);
}
