use ai_jail::child::{child_setup, ChildStep};

fn steps(slave: i32, rets: &[i32]) -> Vec<ChildStep> {
    let mut step = ChildStep::NewSession;
    let mut all = vec![step];
    for &ret in rets {
        step = child_setup(slave, step, ret);
        all.push(step);
    }
    all
}

#[test]
fn child_takes_the_terminal() {
    assert_eq!(
        steps(7, &[0, 0, 0, 1, 2, 0]),
        vec![
            ChildStep::NewSession,
            ChildStep::TakeTerminal,
            ChildStep::Duplicate { to: 0 },
            ChildStep::Duplicate { to: 1 },
            ChildStep::Duplicate { to: 2 },
            ChildStep::CloseSlave,
            ChildStep::Ready,
        ]
    );
}

#[test]
fn standard_descriptor_is_not_closed() {
    for slave in 0..3 {
        assert_eq!(*steps(slave, &[0, 0, 0, 0, 0]).last().unwrap(), ChildStep::Ready);
    }
    assert_eq!(*steps(3, &[0, 0, 0, 0, 0]).last().unwrap(), ChildStep::CloseSlave);
}

#[test]
fn failed_duplicates_are_not_checked() {
    assert_eq!(*steps(7, &[0, 0, -1, -1, -1, -1]).last().unwrap(), ChildStep::Ready);
}

#[test]
fn child_without_terminal_fails() {
    assert_eq!(steps(7, &[-1])[1], ChildStep::Failed);
    assert_eq!(steps(7, &[0, -1])[2], ChildStep::Failed);
    assert_eq!(*steps(7, &[0, -1, 0, 0]).last().unwrap(), ChildStep::Failed);
}
