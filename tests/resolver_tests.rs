use backend_supervisor::resolver::{
    choose_interpreter, resolve, Interpreter, Layout, Location, StartError, StartupPlan,
    DEFAULT_PORT,
};

fn layout(has_parent: bool, here: bool, above: bool, venv_here: bool, venv_above: bool) -> Layout {
    Layout {
        has_parent,
        backend_here: here,
        backend_above: above,
        venv_here,
        venv_above,
    }
}

#[test]
fn backend_only_under_parent() {
    let r = resolve(&layout(true, false, true, false, true), DEFAULT_PORT);
    assert_eq!(
        r,
        Ok(StartupPlan {
            interpreter: Interpreter::Venv(Location::Parent),
            workdir: Location::Parent,
            port: 8000,
        })
    );
}

#[test]
fn backend_in_neither_place() {
    let r = resolve(&layout(true, false, false, true, true), DEFAULT_PORT);
    assert_eq!(r, Err(StartError::DirectoryNotFound));
}

#[test]
fn no_parent_and_no_backend_here() {
    let r = resolve(&layout(false, false, true, false, false), DEFAULT_PORT);
    assert_eq!(r, Err(StartError::DirectoryNotFound));
}

#[test]
fn current_directory_wins() {
    let r = resolve(&layout(true, true, true, true, true), 9100);
    assert_eq!(
        r,
        Ok(StartupPlan {
            interpreter: Interpreter::Venv(Location::Current),
            workdir: Location::Current,
            port: 9100,
        })
    );
}

#[test]
fn interpreter_falls_back_to_system() {
    assert_eq!(choose_interpreter(&layout(true, true, false, false, false)), Interpreter::System);
    assert_eq!(choose_interpreter(&layout(false, true, false, false, true)), Interpreter::System);
    assert_eq!(
        choose_interpreter(&layout(true, true, false, false, true)),
        Interpreter::Venv(Location::Parent)
    );
}
