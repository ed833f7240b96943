use vstd::prelude::*;
use vstd::string::StringExecFns;

verus! {

/// The failures that can stop the program from starting.
#[derive(Debug)]
pub enum AppError {
    /// The window could not be created.
    Window(String),
    /// The web view could not be created.
    WebView(String),
    /// The control socket could not be set up.
    Ipc(String),
}

impl AppError {
    /// The text of what went wrong, without its kind.
    pub open spec fn detail(&self) -> Seq<char> {
        match self {
            AppError::Window(m) => m@,
            AppError::WebView(m) => m@,
            AppError::Ipc(m) => m@,
        }
    }

    /// The words that name the kind of failure.
    pub open spec fn kind_prefix(&self) -> Seq<char> {
        match self {
            AppError::Window(_) => "Window error: "@,
            AppError::WebView(_) => "WebView error: "@,
            AppError::Ipc(_) => "IPC error: "@,
        }
    }

    /// The message shown to the user: the kind, then the detail.
    pub fn message(&self) -> (r: String)
        ensures
            r@ == self.kind_prefix() + self.detail(),
    {
        match self {
            AppError::Window(m) => String::from_str("Window error: ").concat(m.as_str()),
            AppError::WebView(m) => String::from_str("WebView error: ").concat(m.as_str()),
            AppError::Ipc(m) => String::from_str("IPC error: ").concat(m.as_str()),
        }
    }
}

} // verus!
