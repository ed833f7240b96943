use std::sync::mpsc::channel;

use pano::commands::Command;
use pano::protocol::{handle_command, parse_command, Handled};

fn drain(rx: &std::sync::mpsc::Receiver<Command>) -> Vec<Command> {
    let mut out = Vec::new();
    while let Ok(c) = rx.try_recv() {
        out.push(c);
    }
    out
}

#[test]
fn parses_url() {
    assert_eq!(
        parse_command("url http://example.com"),
        Some(Command::UpdateUrl("http://example.com".to_string()))
    );
}

#[test]
fn parses_resize() {
    assert_eq!(parse_command("resize 800 600"), Some(Command::Resize(800, 600)));
}

#[test]
fn parses_move() {
    assert_eq!(parse_command("move -10 20"), Some(Command::Move(-10, 20)));
}

#[test]
fn parses_with_extra_whitespace() {
    assert_eq!(parse_command("  resize\t1   2  "), Some(Command::Resize(1, 2)));
    assert_eq!(parse_command("move\u{3000}3\u{a0}4"), Some(Command::Move(3, 4)));
    assert_eq!(parse_command("url  a\r"), Some(Command::UpdateUrl("a".to_string())));
}

#[test]
fn keeps_non_ascii_url() {
    assert_eq!(
        parse_command("url http://例え.jp/ä"),
        Some(Command::UpdateUrl("http://例え.jp/ä".to_string()))
    );
}

#[test]
fn accepts_plus_sign_like_std() {
    assert_eq!(parse_command("resize +5 +0"), Some(Command::Resize(5, 0)));
    assert_eq!(parse_command("move +7 -0"), Some(Command::Move(7, 0)));
}

#[test]
fn resize_boundaries() {
    assert_eq!(parse_command("resize 0 0"), Some(Command::Resize(0, 0)));
    assert_eq!(
        parse_command("resize 4294967295 4294967295"),
        Some(Command::Resize(u32::MAX, u32::MAX))
    );
    assert_eq!(parse_command("resize 4294967296 1"), None);
    assert_eq!(parse_command("resize 1 99999999999999999999"), None);
    assert_eq!(parse_command("resize 007 010"), Some(Command::Resize(7, 10)));
}

#[test]
fn move_boundaries() {
    assert_eq!(parse_command("move -1 0"), Some(Command::Move(-1, 0)));
    assert_eq!(
        parse_command("move -2147483648 2147483647"),
        Some(Command::Move(i32::MIN, i32::MAX))
    );
    assert_eq!(
        parse_command("move -2147483647 -2147483647"),
        Some(Command::Move(i32::MIN + 1, i32::MIN + 1))
    );
    assert_eq!(parse_command("move -2147483649 0"), None);
    assert_eq!(parse_command("move 0 2147483648"), None);
}

#[test]
fn malformed_lines_give_nothing() {
    for line in [
        "resize abc 10",
        "move 1",
        "",
        "   ",
        "url",
        "url a b",
        "resize 1",
        "resize 1 2 3",
        "resize -1 2",
        "resize 1.5 2",
        "resize + 2",
        "move - 1",
        "move 1 2 3",
        "move x y",
        "Resize 1 2",
        "jump 1 2",
        "resize ١ 2",
    ] {
        assert_eq!(parse_command(line), None, "line {:?}", line);
    }
}

#[test]
fn malformed_lines_send_nothing() {
    let (tx, rx) = channel();
    assert_eq!(handle_command("resize abc 10", &tx), Handled::Ignored);
    assert_eq!(handle_command("move 1", &tx), Handled::Ignored);
    assert!(drain(&rx).is_empty());
}

#[test]
fn resizes_arrive_in_order_with_exact_sizes() {
    let (tx, rx) = channel();
    let sizes = [(0u32, 0u32), (1, 2), (4294967295, 7), (800, 600)];
    for (w, h) in sizes {
        assert_eq!(handle_command(&format!("resize {} {}", w, h), &tx), Handled::Sent);
    }
    let got = drain(&rx);
    let want: Vec<Command> = sizes.iter().map(|&(w, h)| Command::Resize(w, h)).collect();
    assert_eq!(got, want);
}

#[test]
fn two_urls_keep_their_order() {
    let (tx, rx) = channel();
    assert_eq!(handle_command("url http://example.com", &tx), Handled::Sent);
    assert_eq!(handle_command("url http://example.org", &tx), Handled::Sent);
    assert_eq!(
        drain(&rx),
        vec![
            Command::UpdateUrl("http://example.com".to_string()),
            Command::UpdateUrl("http://example.org".to_string()),
        ]
    );
}

#[test]
fn malformed_line_between_commands_is_skipped() {
    let (tx, rx) = channel();
    handle_command("move 1 2", &tx);
    handle_command("move 1", &tx);
    handle_command("move 3 4", &tx);
    assert_eq!(drain(&rx), vec![Command::Move(1, 2), Command::Move(3, 4)]);
}

#[test]
fn numbers_survive_the_channel() {
    let (tx, rx) = channel();
    for (x, y) in [(-1i32, 0i32), (i32::MIN, i32::MAX), (i32::MIN + 1, -2), (0, 1)] {
        handle_command(&format!("move {} {}", x, y), &tx);
        assert_eq!(rx.try_recv().unwrap(), Command::Move(x, y));
    }
    handle_command("resize 0 4294967295", &tx);
    assert_eq!(rx.try_recv().unwrap(), Command::Resize(0, u32::MAX));
}

#[test]
fn closed_channel_is_reported() {
    let (tx, rx) = channel::<Command>();
    drop(rx);
    assert_eq!(handle_command("resize 1 2", &tx), Handled::ChannelClosed);
    assert_eq!(handle_command("resize x 2", &tx), Handled::Ignored);
}
