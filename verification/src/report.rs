//! The text of the report and of the status line.
//!
//! The functions here build text; printing it is the caller's part.

use crate::inventory::LibraryInventory;
use crate::session::WaitOutcome;
use crate::style::{
    blue, bold, default_colour, fg_blue, fg_default, fg_green, fg_light_white, green, italic,
    light_white, plain, style_bold, style_italic, style_plain,
};
use vstd::prelude::*;

verus! {

/// The heavy rule that opens the report.
pub open spec fn heavy_rule() -> Seq<char> {
    "===================================================\n"@
}

/// The light rule that frames the list of libraries.
pub open spec fn light_rule() -> Seq<char> {
    "---------------------------------------------------\n"@
}

/// One line for each path, in order, each in high-intensity white.
pub open spec fn path_lines(paths: Seq<Seq<char>>) -> Seq<char>
    decreases paths.len(),
{
    if paths.len() == 0 {
        Seq::empty()
    } else {
        path_lines(paths.drop_last()) + light_white() + paths.last() + "\n"@
    }
}

/// The report: a heavy rule, the program's name as a heading, the libraries
/// between two light rules, and the terminal set back to its defaults. The
/// rules are green and bold.
pub open spec fn report_text(program: Seq<char>, paths: Seq<Seq<char>>) -> Seq<char> {
    green() + bold() + heavy_rule() + program + " report:\n"@ + green() + bold() + light_rule()
        + plain() + path_lines(paths) + green() + bold() + light_rule() + default_colour()
        + plain()
}

/// A message set off from the rest: blue and italic, then the terminal set
/// back to its defaults, then the end of the line.
pub open spec fn message_text(message: Seq<char>) -> Seq<char> {
    blue() + italic() + message + default_colour() + plain() + "\n"@
}

/// The line that says how the wait for the child ended: a message that the
/// child finished with a status, or a plain warning that the wait failed.
pub open spec fn wait_text(program: Seq<char>, exited: bool, text: Seq<char>) -> Seq<char> {
    if exited {
        message_text("["@ + program + "] Finished, status of "@ + text)
    } else {
        "["@ + program + "] Failed, error: "@ + text + "\n"@
    }
}

/// Renders the report on an inventory for the program of the given name.
pub fn render_report(program: &String, inventory: &LibraryInventory) -> (text: String)
    ensures
        text@ == report_text(program@, inventory.paths()),
{
    let green_code = fg_green();
    let bold_code = style_bold();
    let white_code = fg_light_white();
    let mut text = String::new();
    text.append(green_code.as_str());
    text.append(bold_code.as_str());
    text.append("===================================================\n");
    text.append(program.as_str());
    text.append(" report:\n");
    text.append(green_code.as_str());
    text.append(bold_code.as_str());
    text.append("---------------------------------------------------\n");
    text.append(style_plain().as_str());
    let ghost head = text@;
    let n = inventory.len();
    let mut i: usize = 0;
    while i < n
        invariant
            i <= n,
            n == inventory.paths().len(),
            white_code@ == light_white(),
            text@ == head + path_lines(inventory.paths().take(i as int)),
        decreases n - i,
    {
        let path = inventory.get(i);
        proof {
            let shown = inventory.paths().take(i + 1);
            assert(shown.drop_last() =~= inventory.paths().take(i as int));
            assert(shown.last() == path@);
            assert(head + path_lines(shown) =~= head + path_lines(shown.drop_last())
                + light_white() + path@ + "\n"@);
        }
        text.append(white_code.as_str());
        text.append(path.as_str());
        text.append("\n");
        i += 1;
    }
    assert(inventory.paths().take(i as int) =~= inventory.paths());
    let ghost listed = text@;
    text.append(green_code.as_str());
    text.append(bold_code.as_str());
    text.append("---------------------------------------------------\n");
    text.append(fg_default().as_str());
    text.append(style_plain().as_str());
    assert(text@ =~= report_text(program@, inventory.paths())) by {
        assert(head =~= green() + bold() + heavy_rule() + program@ + " report:\n"@ + green()
            + bold() + light_rule() + plain());
        assert(text@ =~= listed + green() + bold() + light_rule() + default_colour() + plain());
    }
    text
}

/// Renders a message set off from the rest.
pub fn render_message(message: &String) -> (text: String)
    ensures
        text@ == message_text(message@),
{
    let mut text = fg_blue();
    text.append(style_italic().as_str());
    text.append(message.as_str());
    text.append(fg_default().as_str());
    text.append(style_plain().as_str());
    text.append("\n");
    text
}

/// Renders the line that says how the wait for the child ended.
pub fn wait_line(program: &String, outcome: &WaitOutcome) -> (text: String)
    ensures
        text@ == wait_text(program@, outcome.exited(), outcome.text()),
{
    match outcome {
        WaitOutcome::Exited(status) => {
            let mut message = String::from_str("[");
            message.append(program.as_str());
            message.append("] Finished, status of ");
            message.append(status.as_str());
            render_message(&message)
        },
        WaitOutcome::Failed(error) => {
            let mut text = String::from_str("[");
            text.append(program.as_str());
            text.append("] Failed, error: ");
            text.append(error.as_str());
            text.append("\n");
            text
        },
    }
}

} // verus!
