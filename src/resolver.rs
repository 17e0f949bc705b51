use vstd::prelude::*;

verus! {

/// Port the child server listens on.
pub const DEFAULT_PORT: u16 = 8000;

/// Subdirectory that holds the child server; it is the child's working directory.
pub const BACKEND_DIR: &'static str = "python-backend";

/// Interpreter of the isolated environment, relative to a base directory.
pub const VENV_INTERPRETER: &'static str = ".venv/bin/python";

/// Interpreter looked up on the search path when no isolated one exists.
pub const SYSTEM_INTERPRETER: &'static str = "python3";

/// Entry-point file handed to the interpreter.
pub const ENTRY_POINT: &'static str = "main.py";

/// Environment variable that carries the port.
pub const PORT_VAR: &'static str = "PORT";

/// Environment variable that tells the child it is supervised, so that it
/// turns off its own reloading.
pub const MANAGED_VAR: &'static str = "TAURI_MANAGED";

/// Value of the managed-mode variable.
pub const MANAGED_VALUE: &'static str = "true";

/// A base directory for the relative paths above.
#[derive(Debug, Clone, Copy, PartialEq, Eq, Structural)]
pub enum Location {
    /// The current working directory.
    Current,
    /// The parent of the current working directory.
    Parent,
}

/// Which interpreter runs the child.
#[derive(Debug, Clone, Copy, PartialEq, Eq, Structural)]
pub enum Interpreter {
    /// The isolated environment's interpreter under the given base.
    Venv(Location),
    /// The bare system interpreter name, resolved through the search path.
    System,
}

/// What the file system shows around the current working directory.
/// The `*_above` flags mean nothing when there is no parent.
#[derive(Debug, Clone, Copy, PartialEq, Eq, Structural)]
pub struct Layout {
    pub has_parent: bool,
    pub backend_here: bool,
    pub backend_above: bool,
    pub venv_here: bool,
    pub venv_above: bool,
}

/// Everything needed to spawn the child, computed afresh on each start.
#[derive(Debug, Clone, Copy, PartialEq, Eq, Structural)]
pub struct StartupPlan {
    pub interpreter: Interpreter,
    pub workdir: Location,
    pub port: u16,
}

/// Why a start failed.
#[derive(Debug, Clone, Copy, PartialEq, Eq, Structural)]
pub enum StartError {
    /// The backend directory exists neither here nor under the parent.
    DirectoryNotFound,
    /// The operating system refused to create the process.
    SpawnError,
    /// The lock on the supervised state could not be taken.
    LockError,
    /// The server did not become ready within the attempt budget.
    Timeout,
}

/// Where the backend directory is found, if anywhere: here first, then under
/// the parent.
pub open spec fn workdir_of(layout: Layout) -> Option<Location> {
    if layout.backend_here {
        Some(Location::Current)
    } else if layout.has_parent && layout.backend_above {
        Some(Location::Parent)
    } else {
        None
    }
}

/// The interpreter chosen: the isolated one here, else the one under the
/// parent, else the system one.
pub open spec fn interpreter_of(layout: Layout) -> Interpreter {
    if layout.venv_here {
        Interpreter::Venv(Location::Current)
    } else if layout.has_parent && layout.venv_above {
        Interpreter::Venv(Location::Parent)
    } else {
        Interpreter::System
    }
}

/// Picks the interpreter; this never fails.
pub fn choose_interpreter(layout: &Layout) -> (r: Interpreter)
    ensures
        r == interpreter_of(*layout),
{
    if layout.venv_here {
        Interpreter::Venv(Location::Current)
    } else if layout.has_parent && layout.venv_above {
        Interpreter::Venv(Location::Parent)
    } else {
        Interpreter::System
    }
}

/// Resolves the startup plan for `port`. Fails with `DirectoryNotFound`
/// exactly when the backend directory is in neither candidate location.
pub fn resolve(layout: &Layout, port: u16) -> (r: Result<StartupPlan, StartError>)
    ensures
        match workdir_of(*layout) {
            Some(dir) => r == Ok::<StartupPlan, StartError>(
                StartupPlan { interpreter: interpreter_of(*layout), workdir: dir, port },
            ),
            None => r == Err::<StartupPlan, StartError>(StartError::DirectoryNotFound),
        },
{
    let workdir = if layout.backend_here {
        Location::Current
    } else if layout.has_parent && layout.backend_above {
        Location::Parent
    } else {
        return Err(StartError::DirectoryNotFound);
    };
    Ok(StartupPlan { interpreter: choose_interpreter(layout), workdir, port })
}

/// When the backend directory is only under the parent, the plan runs the
/// child there; when it is in neither place, resolution fails, so no plan
/// exists to spawn from.
pub proof fn lemma_parent_fallback(layout: Layout)
    ensures
        !layout.backend_here && layout.has_parent && layout.backend_above ==> workdir_of(layout)
            == Some(Location::Parent),
        !layout.backend_here && !(layout.has_parent && layout.backend_above) ==> workdir_of(
            layout,
        ) is None,
{
}

} // verus!
