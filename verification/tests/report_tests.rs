use proc_watch::inventory::LibraryInventory;
use proc_watch::report::{render_message, render_report, wait_line};
use proc_watch::session::WaitOutcome;

const HEAVY: &str = "===================================================";
const LIGHT: &str = "---------------------------------------------------";

fn inventory_of(paths: &[&str]) -> LibraryInventory {
    let mut inventory = LibraryInventory::new();
    for p in paths {
        inventory.insert(p.to_string());
    }
    inventory
}

#[test]
fn report_on_two_libraries() {
    let text = render_report(&"watcher".to_string(), &inventory_of(&["/lib/libc.so", "/lib/libm.so"]));
    let expected = format!(
        "\x1b[38;5;2m\x1b[1m{HEAVY}\nwatcher report:\n\x1b[38;5;2m\x1b[1m{LIGHT}\n\x1b[m\
         \x1b[38;5;15m/lib/libc.so\n\x1b[38;5;15m/lib/libm.so\n\
         \x1b[38;5;2m\x1b[1m{LIGHT}\n\x1b[39m\x1b[m"
    );
    assert_eq!(text, expected);
}

#[test]
fn report_on_an_empty_inventory() {
    let text = render_report(&"w".to_string(), &LibraryInventory::new());
    let expected = format!(
        "\x1b[38;5;2m\x1b[1m{HEAVY}\nw report:\n\x1b[38;5;2m\x1b[1m{LIGHT}\n\x1b[m\
         \x1b[38;5;2m\x1b[1m{LIGHT}\n\x1b[39m\x1b[m"
    );
    assert_eq!(text, expected);
}

#[test]
fn report_rules_are_fifty_one_characters_wide() {
    assert_eq!(HEAVY.len(), 51);
    assert_eq!(LIGHT.len(), 51);
    let text = render_report(&"w".to_string(), &LibraryInventory::new());
    assert_eq!(text.matches(HEAVY).count(), 1);
    assert_eq!(text.matches(LIGHT).count(), 2);
}

#[test]
fn report_uses_the_sequences_that_termion_renders() {
    let green = format!("{}", termion::color::Fg(termion::color::Green));
    let white = format!("{}", termion::color::Fg(termion::color::LightWhite));
    let default_colour = format!("{}", termion::color::Fg(termion::color::Reset));
    let bold = format!("{}", termion::style::Bold);
    let plain = format!("{}", termion::style::Reset);
    let text = render_report(&"prog".to_string(), &inventory_of(&["/x.so"]));
    let expected = format!(
        "{green}{bold}{HEAVY}\nprog report:\n{green}{bold}{LIGHT}\n{plain}{white}/x.so\n{green}{bold}{LIGHT}\n{default_colour}{plain}"
    );
    assert_eq!(text, expected);
}

#[test]
fn report_lists_each_library_once_in_order_of_observation() {
    let text = render_report(&"p".to_string(), &inventory_of(&["/b.so", "/a.so", "/b.so"]));
    let lines: Vec<&str> = text.lines().collect();
    assert_eq!(lines.len(), 7);
    assert_eq!(lines[3], "\x1b[m\x1b[38;5;15m/b.so");
    assert_eq!(lines[4], "\x1b[38;5;15m/a.so");
    assert_eq!(text.matches("/b.so").count(), 1);
}

#[test]
fn message_is_blue_and_italic_and_resets_the_terminal() {
    assert_eq!(render_message(&"hello".to_string()), "\x1b[38;5;4m\x1b[3mhello\x1b[39m\x1b[m\n");
    assert_eq!(render_message(&String::new()), "\x1b[38;5;4m\x1b[3m\x1b[39m\x1b[m\n");
    let blue = format!("{}", termion::color::Fg(termion::color::Blue));
    let italic = format!("{}", termion::style::Italic);
    assert!(render_message(&"x".to_string()).starts_with(&format!("{blue}{italic}x")));
}

#[test]
fn wait_line_for_a_child_that_exited() {
    let line = wait_line(&"watcher".to_string(), &WaitOutcome::Exited("exit status: 0".to_string()));
    assert_eq!(line, "\x1b[38;5;4m\x1b[3m[watcher] Finished, status of exit status: 0\x1b[39m\x1b[m\n");
}

#[test]
fn wait_line_for_a_wait_that_failed() {
    let line = wait_line(&"watcher".to_string(), &WaitOutcome::Failed("No child processes".to_string()));
    assert_eq!(line, "[watcher] Failed, error: No child processes\n");
}
