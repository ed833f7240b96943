use vstd::prelude::*;

use crate::commands::CommandView;
use crate::grammar::{
    all_digits, dec_value, digit_value, digits_within, is_digit, is_space, parse_i32, parse_u32,
    without_plus, words, words_from,
};
use crate::protocol::parse_line;

verus! {

/// The commands that a stream of lines asks for, in the order of the lines.
pub open spec fn commands_of(lines: Seq<Seq<char>>) -> Seq<CommandView>
    decreases lines.len(),
{
    if lines.len() == 0 {
        seq![]
    } else {
        let before = commands_of(lines.drop_last());
        match parse_line(lines.last()) {
            Some(c) => before.push(c),
            None => before,
        }
    }
}

pub open spec fn digit_char(d: nat) -> char {
    if d == 0 { '0' }
    else if d == 1 { '1' }
    else if d == 2 { '2' }
    else if d == 3 { '3' }
    else if d == 4 { '4' }
    else if d == 5 { '5' }
    else if d == 6 { '6' }
    else if d == 7 { '7' }
    else if d == 8 { '8' }
    else { '9' }
}

/// The shortest decimal writing of `n`.
pub open spec fn dec_chars(n: nat) -> Seq<char>
    decreases n,
{
    if n < 10 {
        seq![digit_char(n)]
    } else {
        dec_chars(n / 10).push(digit_char(n % 10))
    }
}

/// The decimal writing of `x`, with a `-` when it is negative.
pub open spec fn int_chars(x: int) -> Seq<char> {
    if x < 0 {
        seq!['-'] + dec_chars((-x) as nat)
    } else {
        dec_chars(x as nat)
    }
}

/// The words `ws` joined by single spaces.
pub open spec fn join_words(ws: Seq<Seq<char>>) -> Seq<char>
    decreases ws.len(),
{
    if ws.len() <= 1 {
        if ws.len() == 0 { seq![] } else { ws[0] }
    } else {
        ws[0] + (seq![' '] + join_words(ws.drop_first()))
    }
}

/// A word that a line can carry: not empty, without white space.
pub open spec fn is_word(w: Seq<char>) -> bool {
    w.len() > 0 && forall|i: int| 0 <= i < w.len() ==> !is_space(#[trigger] w[i])
}

/// The line `resize <w> <h>`.
pub open spec fn resize_line(w: u32, h: u32) -> Seq<char> {
    join_words(seq![seq!['r', 'e', 's', 'i', 'z', 'e'], dec_chars(w as nat), dec_chars(h as nat)])
}

/// The line `move <x> <y>`.
pub open spec fn move_line(x: i32, y: i32) -> Seq<char> {
    join_words(seq![seq!['m', 'o', 'v', 'e'], int_chars(x as int), int_chars(y as int)])
}

/// The line `url <u>`.
pub open spec fn url_line(u: Seq<char>) -> Seq<char> {
    join_words(seq![seq!['u', 'r', 'l'], u])
}

proof fn lemma_digit_char(d: nat)
    requires
        d < 10,
    ensures
        is_digit(digit_char(d)),
        digit_value(digit_char(d)) == d,
        !is_space(digit_char(d)),
{
}

proof fn lemma_dec_chars(n: nat)
    ensures
        dec_chars(n).len() > 0,
        all_digits(dec_chars(n)),
        dec_value(dec_chars(n)) == n,
        is_word(dec_chars(n)),
    decreases n,
{
    if n < 10 {
        lemma_digit_char(n);
        let s = seq![digit_char(n)];
        assert(s.drop_last() =~= Seq::<char>::empty());
        assert(dec_value(Seq::<char>::empty()) == 0);
        assert(s.last() == digit_char(n));
        assert(dec_value(s) == dec_value(s.drop_last()) * 10 + digit_value(s.last()));
    } else {
        lemma_dec_chars(n / 10);
        lemma_digit_char(n % 10);
        let s = dec_chars(n);
        let p = dec_chars(n / 10);
        assert(s.drop_last() =~= p);
        assert(s.last() == digit_char(n % 10));
        assert(dec_value(s) == dec_value(p) * 10 + digit_value(s.last()));
        assert((n / 10) * 10 + n % 10 == n);
        assert forall|i: int| 0 <= i < s.len() implies is_digit(#[trigger] s[i]) && !is_space(
            s[i],
        ) by {
            if i < p.len() {
                assert(s[i] == p[i]);
            }
        }
    }
}

/// Reading a word moves its characters into the word being built.
proof fn lemma_words_over_word(w: Seq<char>, rest: Seq<char>, cur: Seq<char>)
    requires
        forall|i: int| 0 <= i < w.len() ==> !is_space(#[trigger] w[i]),
    ensures
        words_from(w + rest, cur) == words_from(rest, cur + w),
    decreases w.len(),
{
    if w.len() == 0 {
        assert(w + rest =~= rest);
        assert(cur + w =~= cur);
    } else {
        let s = w + rest;
        assert(s[0] == w[0]);
        assert(s.drop_first() =~= w.drop_first() + rest);
        assert forall|i: int| 0 <= i < w.drop_first().len() implies !is_space(
            #[trigger] w.drop_first()[i],
        ) by {
            assert(w.drop_first()[i] == w[i + 1]);
        }
        lemma_words_over_word(w.drop_first(), rest, cur.push(w[0]));
        assert(cur.push(w[0]) + w.drop_first() =~= cur + w);
    }
}

/// Words joined by spaces split back into the same words.
pub proof fn lemma_split_joined(ws: Seq<Seq<char>>)
    requires
        ws.len() > 0,
        forall|i: int| 0 <= i < ws.len() ==> is_word(#[trigger] ws[i]),
    ensures
        words(join_words(ws)) == ws,
    decreases ws.len(),
{
    let w = ws[0];
    assert(is_word(w));
    if ws.len() == 1 {
        lemma_words_over_word(w, seq![], seq![]);
        assert(w + Seq::<char>::empty() =~= w);
        assert(Seq::<char>::empty() + w =~= w);
        assert(ws =~= seq![w]);
    } else {
        let rest = ws.drop_first();
        assert forall|i: int| 0 <= i < rest.len() implies is_word(#[trigger] rest[i]) by {
            assert(rest[i] == ws[i + 1]);
        }
        lemma_split_joined(rest);
        let tail = seq![' '] + join_words(rest);
        lemma_words_over_word(w, tail, seq![]);
        assert(Seq::<char>::empty() + w =~= w);
        assert(tail[0] == ' ');
        assert(tail.drop_first() =~= join_words(rest));
        assert(words_from(tail, w) == seq![w] + words_from(join_words(rest), seq![]));
        assert(seq![w] + rest =~= ws);
    }
}

proof fn lemma_verb_words()
    ensures
        is_word(seq!['r', 'e', 's', 'i', 'z', 'e']),
        is_word(seq!['m', 'o', 'v', 'e']),
        is_word(seq!['u', 'r', 'l']),
{
    let r = seq!['r', 'e', 's', 'i', 'z', 'e'];
    assert forall|i: int| 0 <= i < r.len() implies !is_space(#[trigger] r[i]) by {
    }
    let m = seq!['m', 'o', 'v', 'e'];
    assert forall|i: int| 0 <= i < m.len() implies !is_space(#[trigger] m[i]) by {
    }
    let u = seq!['u', 'r', 'l'];
    assert forall|i: int| 0 <= i < u.len() implies !is_space(#[trigger] u[i]) by {
    }
}

proof fn lemma_u32_text(n: u32)
    ensures
        parse_u32(dec_chars(n as nat)) == Some(n),
        is_word(dec_chars(n as nat)),
{
    lemma_dec_chars(n as nat);
    let s = dec_chars(n as nat);
    assert(is_digit(s[0]));
    assert(without_plus(s) == s);
}

proof fn lemma_i32_text(x: i32)
    ensures
        parse_i32(int_chars(x as int)) == Some(x),
        is_word(int_chars(x as int)),
{
    if x < 0 {
        let d = dec_chars((-x) as nat);
        lemma_dec_chars((-x) as nat);
        let s = seq!['-'] + d;
        assert(s.drop_first() =~= d);
        assert(s[0] == '-');
        assert(digits_within(d, 0x8000_0000));
        assert forall|i: int| 0 <= i < s.len() implies !is_space(#[trigger] s[i]) by {
            if i > 0 {
                assert(s[i] == d[i - 1]);
            }
        }
    } else {
        lemma_dec_chars(x as nat);
        let s = dec_chars(x as nat);
        assert(is_digit(s[0]));
        assert(without_plus(s) == s);
    }
}

/// Any two 32-bit unsigned numbers written in decimal after `resize` give a
/// resize to exactly those numbers.
pub proof fn lemma_resize_round_trip(w: u32, h: u32)
    ensures
        parse_line(resize_line(w, h)) == Some(CommandView::Resize(w, h)),
{
    lemma_verb_words();
    lemma_u32_text(w);
    lemma_u32_text(h);
    let ws = seq![seq!['r', 'e', 's', 'i', 'z', 'e'], dec_chars(w as nat), dec_chars(h as nat)];
    lemma_split_joined(ws);
}

/// Any two 32-bit signed numbers written in decimal after `move` give a move
/// to exactly those numbers, negative ones included.
pub proof fn lemma_move_round_trip(x: i32, y: i32)
    ensures
        parse_line(move_line(x, y)) == Some(CommandView::Move(x, y)),
{
    lemma_verb_words();
    lemma_i32_text(x);
    lemma_i32_text(y);
    let ws = seq![seq!['m', 'o', 'v', 'e'], int_chars(x as int), int_chars(y as int)];
    lemma_split_joined(ws);
}

/// `url` followed by one word gives a url change to exactly that word.
pub proof fn lemma_url_round_trip(u: Seq<char>)
    requires
        is_word(u),
    ensures
        parse_line(url_line(u)) == Some(CommandView::UpdateUrl(u)),
{
    lemma_verb_words();
    lemma_split_joined(seq![seq!['u', 'r', 'l'], u]);
}

/// A line's words that ask for nothing: a count that fits no command or not
/// its verb, or a number that does not parse.
pub open spec fn malformed(w: Seq<Seq<char>>) -> bool {
    let url = seq!['u', 'r', 'l'];
    let resize = seq!['r', 'e', 's', 'i', 'z', 'e'];
    let mv = seq!['m', 'o', 'v', 'e'];
    ||| w.len() < 2 || w.len() > 3
    ||| w[0] == url && w.len() != 2
    ||| (w[0] == resize || w[0] == mv) && w.len() != 3
    ||| w.len() == 3 && w[0] == resize && (parse_u32(w[1]) is None || parse_u32(w[2]) is None)
    ||| w.len() == 3 && w[0] == mv && (parse_i32(w[1]) is None || parse_i32(w[2]) is None)
}

/// The commands of two streams one after the other are those of the first,
/// then those of the second: no command is reordered or merged.
pub proof fn lemma_commands_concat(a: Seq<Seq<char>>, b: Seq<Seq<char>>)
    ensures
        commands_of(a + b) == commands_of(a) + commands_of(b),
    decreases b.len(),
{
    if b.len() == 0 {
        assert(a + b =~= a);
        assert(commands_of(b) =~= Seq::<CommandView>::empty());
        assert(commands_of(a) + commands_of(b) =~= commands_of(a));
    } else {
        lemma_commands_concat(a, b.drop_last());
        assert((a + b).drop_last() =~= a + b.drop_last());
        assert((a + b).last() == b.last());
        match parse_line(b.last()) {
            Some(c) => {
                assert(commands_of(a) + commands_of(b.drop_last()).push(c) =~= (commands_of(a)
                    + commands_of(b.drop_last())).push(c));
            },
            None => {},
        }
    }
}

/// A malformed line yields no command, wherever it stands in a stream.
pub proof fn lemma_malformed_ignored(before: Seq<Seq<char>>, line: Seq<char>, after: Seq<Seq<char>>)
    requires
        malformed(words(line)),
    ensures
        parse_line(line) is None,
        commands_of(before + seq![line] + after) == commands_of(before + after),
{
    let one = seq![line];
    assert(parse_line(line) is None);
    assert(one.drop_last() =~= Seq::<Seq<char>>::empty());
    assert(one.last() == line);
    assert(commands_of(Seq::<Seq<char>>::empty()) =~= Seq::<CommandView>::empty());
    assert(commands_of(one) =~= Seq::<CommandView>::empty());
    lemma_commands_concat(before, one);
    lemma_commands_concat(before + one, after);
    lemma_commands_concat(before, after);
    assert(commands_of(before) + Seq::<CommandView>::empty() =~= commands_of(before));
}

/// Resize lines sent one after another give resizes to exactly their sizes,
/// in the same order.
pub proof fn lemma_resizes_in_order(sizes: Seq<(u32, u32)>)
    ensures
        commands_of(sizes.map_values(|p: (u32, u32)| resize_line(p.0, p.1))) == sizes.map_values(
            |p: (u32, u32)| CommandView::Resize(p.0, p.1),
        ),
    decreases sizes.len(),
{
    let lines = sizes.map_values(|p: (u32, u32)| resize_line(p.0, p.1));
    let cmds = sizes.map_values(|p: (u32, u32)| CommandView::Resize(p.0, p.1));
    if sizes.len() == 0 {
        assert(lines =~= Seq::<Seq<char>>::empty());
        assert(cmds =~= Seq::<CommandView>::empty());
    } else {
        let p = sizes.last();
        lemma_resizes_in_order(sizes.drop_last());
        lemma_resize_round_trip(p.0, p.1);
        assert(lines.drop_last() =~= sizes.drop_last().map_values(
            |p: (u32, u32)| resize_line(p.0, p.1),
        ));
        assert(cmds =~= sizes.drop_last().map_values(
            |p: (u32, u32)| CommandView::Resize(p.0, p.1),
        ).push(CommandView::Resize(p.0, p.1)));
    }
}

/// Two url lines in a row give both url changes, the first one first.
pub proof fn lemma_urls_in_order(a: Seq<char>, b: Seq<char>)
    requires
        is_word(a),
        is_word(b),
    ensures
        commands_of(seq![url_line(a), url_line(b)]) == seq![
            CommandView::UpdateUrl(a),
            CommandView::UpdateUrl(b),
        ],
{
    lemma_url_round_trip(a);
    lemma_url_round_trip(b);
    let lines = seq![url_line(a), url_line(b)];
    assert(lines.drop_last() =~= seq![url_line(a)]);
    assert(lines.drop_last().drop_last() =~= Seq::<Seq<char>>::empty());
    assert(lines.drop_last().last() == url_line(a));
    assert(lines.last() == url_line(b));
    assert(commands_of(Seq::<Seq<char>>::empty()) =~= Seq::<CommandView>::empty());
    assert(Seq::<CommandView>::empty().push(CommandView::UpdateUrl(a)) =~= seq![
        CommandView::UpdateUrl(a),
    ]);
    assert(commands_of(lines.drop_last()) =~= seq![CommandView::UpdateUrl(a)]);
}

} // verus!
