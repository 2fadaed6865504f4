use vstd::prelude::*;

verus! {

/// The category of an [`AppError`].
#[derive(Debug, Clone, Copy, PartialEq, Eq, Structural)]
pub enum ErrorKind {
    Config,
    Network,
    Process,
    Io,
    Python,
    InstanceRunning,
    InstanceNotRunning,
    InstanceNotFound,
    PythonNotInstalled,
    VersionInUse,
    VersionNotFound,
    StartupTimeout,
    Other,
}

/// An application error: a kind and a human-readable detail.
#[derive(Debug)]
pub struct AppError {
    pub kind: ErrorKind,
    pub message: String,
}

/// Shorthand for results whose error is an [`AppError`].
pub type Result<T> = core::result::Result<T, AppError>;

impl AppError {
    pub fn new(kind: ErrorKind, message: &str) -> (e: AppError)
        ensures
            e.kind == kind,
            e.message@ == message@,
    {
        AppError { kind, message: message.to_string() }
    }

    pub fn config(message: &str) -> (e: AppError)
        ensures
            e.kind == ErrorKind::Config,
            e.message@ == message@,
    {
        AppError::new(ErrorKind::Config, message)
    }

    pub fn network(message: &str) -> (e: AppError)
        ensures
            e.kind == ErrorKind::Network,
            e.message@ == message@,
    {
        AppError::new(ErrorKind::Network, message)
    }

    pub fn process(message: &str) -> (e: AppError)
        ensures
            e.kind == ErrorKind::Process,
            e.message@ == message@,
    {
        AppError::new(ErrorKind::Process, message)
    }

    pub fn io(message: &str) -> (e: AppError)
        ensures
            e.kind == ErrorKind::Io,
            e.message@ == message@,
    {
        AppError::new(ErrorKind::Io, message)
    }

    pub fn python(message: &str) -> (e: AppError)
        ensures
            e.kind == ErrorKind::Python,
            e.message@ == message@,
    {
        AppError::new(ErrorKind::Python, message)
    }

    pub fn other(message: &str) -> (e: AppError)
        ensures
            e.kind == ErrorKind::Other,
            e.message@ == message@,
    {
        AppError::new(ErrorKind::Other, message)
    }

    pub fn instance_running() -> (e: AppError)
        ensures
            e.kind == ErrorKind::InstanceRunning,
            e.message@ == "Instance is already running"@,
    {
        AppError::new(ErrorKind::InstanceRunning, "Instance is already running")
    }

    pub fn instance_not_running() -> (e: AppError)
        ensures
            e.kind == ErrorKind::InstanceNotRunning,
            e.message@ == "Instance is not running"@,
    {
        AppError::new(ErrorKind::InstanceNotRunning, "Instance is not running")
    }

    pub fn python_not_installed() -> (e: AppError)
        ensures
            e.kind == ErrorKind::PythonNotInstalled,
            e.message@ == "Python is not installed"@,
    {
        AppError::new(ErrorKind::PythonNotInstalled, "Python is not installed")
    }

    pub fn startup_timeout() -> (e: AppError)
        ensures
            e.kind == ErrorKind::StartupTimeout,
            e.message@ == "Instance startup timed out"@,
    {
        AppError::new(ErrorKind::StartupTimeout, "Instance startup timed out")
    }

    pub fn instance_not_found(instance_id: &str) -> (e: AppError)
        ensures
            e.kind == ErrorKind::InstanceNotFound,
            e.message@ == instance_id@,
    {
        AppError::new(ErrorKind::InstanceNotFound, instance_id)
    }

    pub fn version_not_found(version: &str) -> (e: AppError)
        ensures
            e.kind == ErrorKind::VersionNotFound,
            e.message@ == version@,
    {
        AppError::new(ErrorKind::VersionNotFound, version)
    }

    /// The version is still used by the named instance.
    pub fn version_in_use(version: &str, instance_name: &str) -> (e: AppError)
        ensures
            e.kind == ErrorKind::VersionInUse,
            e.message@ == version@ + ": "@ + instance_name@,
    {
        let mut message = version.to_string();
        message.append(": ");
        message.append(instance_name);
        AppError { kind: ErrorKind::VersionInUse, message }
    }
}

} // verus!
