use vstd::prelude::*;

use crate::commands::{Command, CommandView};
use crate::grammar::{parse_i32, parse_i32_word, parse_u32, parse_u32_word, split_words, words};

verus! {

#[verifier::external_type_specification]
#[verifier::external_body]
#[verifier::reject_recursive_types(T)]
pub struct ExSender<T>(std::sync::mpsc::Sender<T>);

/// The command that one line of the socket protocol asks for, if any:
/// `url <u>`, `resize <w> <h>` or `move <x> <y>`, with the words separated by
/// white space. Every other line asks for nothing.
pub open spec fn parse_line(line: Seq<char>) -> Option<CommandView> {
    let w = words(line);
    if w.len() == 2 && w[0] == seq!['u', 'r', 'l'] {
        Some(CommandView::UpdateUrl(w[1]))
    } else if w.len() == 3 && w[0] == seq!['r', 'e', 's', 'i', 'z', 'e'] {
        match (parse_u32(w[1]), parse_u32(w[2])) {
            (Some(width), Some(height)) => Some(CommandView::Resize(width, height)),
            _ => None,
        }
    } else if w.len() == 3 && w[0] == seq!['m', 'o', 'v', 'e'] {
        match (parse_i32(w[1]), parse_i32(w[2])) {
            (Some(x), Some(y)) => Some(CommandView::Move(x, y)),
            _ => None,
        }
    } else {
        None
    }
}

pub open spec fn opt_view(c: Option<Command>) -> Option<CommandView> {
    match c {
        Some(c) => Some(c@),
        None => None,
    }
}

/// What became of one line handed to [`handle_command`].
#[derive(Debug, Clone, Copy, PartialEq, Eq)]
pub enum Handled {
    /// The line asks for no command.
    Ignored,
    /// The command went on the channel.
    Sent,
    /// The receiving end of the channel is gone.
    ChannelClosed,
}

/// Relies on `str::chars`, collected into a `Vec`: the characters of `s`, in order.
#[verifier::external_body]
fn chars_of(s: &str) -> (r: Vec<char>)
    ensures
        r@ == s@,
{
    s.chars().collect()
}

/// Relies on `String::from_iter` over `char`s: the string of those characters.
#[verifier::external_body]
fn string_of(v: &Vec<char>) -> (r: String)
    ensures
        r@ == v@,
{
    v.iter().collect()
}

/// Relies on `Sender::send`, which fails only once the receiver is dropped;
/// `true` when the command was queued.
#[verifier::external_body]
fn send_command(tx: &std::sync::mpsc::Sender<Command>, c: Command) -> (r: bool) {
    tx.send(c).is_ok()
}

fn same_chars(a: &Vec<char>, b: &Vec<char>) -> (r: bool)
    ensures
        r == (a@ == b@),
{
    if a.len() != b.len() {
        return false;
    }
    let mut i: usize = 0;
    while i < a.len()
        invariant
            a@.len() == b@.len(),
            0 <= i <= a@.len(),
            forall|k: int| 0 <= k < i ==> a@[k] == b@[k],
        decreases a@.len() - i,
    {
        if a[i] != b[i] {
            return false;
        }
        i = i + 1;
    }
    assert(a@ =~= b@);
    true
}

/// Parses one line of the socket protocol.
pub fn parse_command(line: &str) -> (r: Option<Command>)
    ensures
        opt_view(r) == parse_line(line@),
{
    let chars = chars_of(line);
    let w = split_words(&chars);
    let ghost ws = words(line@);
    assert(w@.len() == ws.len());
    assert(forall|i: int| 0 <= i < w@.len() ==> #[trigger] w@[i]@ == ws[i]);
    let url = vec!['u', 'r', 'l'];
    let resize = vec!['r', 'e', 's', 'i', 'z', 'e'];
    let mv = vec!['m', 'o', 'v', 'e'];
    assert(url@ =~= seq!['u', 'r', 'l']);
    assert(resize@ =~= seq!['r', 'e', 's', 'i', 'z', 'e']);
    assert(mv@ =~= seq!['m', 'o', 'v', 'e']);
    if w.len() == 2 && same_chars(&w[0], &url) {
        Some(Command::UpdateUrl(string_of(&w[1])))
    } else if w.len() == 3 && same_chars(&w[0], &resize) {
        match (parse_u32_word(&w[1]), parse_u32_word(&w[2])) {
            (Some(width), Some(height)) => Some(Command::Resize(width, height)),
            _ => None,
        }
    } else if w.len() == 3 && same_chars(&w[0], &mv) {
        match (parse_i32_word(&w[1]), parse_i32_word(&w[2])) {
            (Some(x), Some(y)) => Some(Command::Move(x, y)),
            _ => None,
        }
    } else {
        None
    }
}

/// Parses one line and puts the command it asks for, if any, on the channel.
pub fn handle_command(line: &str, tx: &std::sync::mpsc::Sender<Command>) -> (r: Handled)
    ensures
        r is Ignored <==> parse_line(line@) is None,
{
    match parse_command(line) {
        Some(c) => {
            if send_command(tx, c) {
                Handled::Sent
            } else {
                Handled::ChannelClosed
            }
        },
        None => Handled::Ignored,
    }
}

} // verus!
