use vstd::prelude::*;

verus! {

/// One control action for the window.
#[derive(Debug, Clone, PartialEq, Eq)]
pub enum Command {
    UpdateUrl(String),
    Resize(u32, u32),
    Move(i32, i32),
}

/// The mathematical value of a [`Command`]: the url as a sequence of characters.
pub enum CommandView {
    UpdateUrl(Seq<char>),
    Resize(u32, u32),
    Move(i32, i32),
}

impl View for Command {
    type V = CommandView;

    open spec fn view(&self) -> CommandView {
        match self {
            Command::UpdateUrl(u) => CommandView::UpdateUrl(u@),
            Command::Resize(w, h) => CommandView::Resize(*w, *h),
            Command::Move(x, y) => CommandView::Move(*x, *y),
        }
    }
}

} // verus!
