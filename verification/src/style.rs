//! The terminal control sequences that the report uses, as termion renders
//! them.

use vstd::prelude::*;

verus! {

/// The sequence that sets the foreground colour to green.
pub open spec fn green() -> Seq<char> {
    "\x1B[38;5;2m"@
}

/// The sequence that sets the foreground colour to blue.
pub open spec fn blue() -> Seq<char> {
    "\x1B[38;5;4m"@
}

/// The sequence that sets the foreground colour to high-intensity white.
pub open spec fn light_white() -> Seq<char> {
    "\x1B[38;5;15m"@
}

/// The sequence that sets the foreground colour back to the default.
pub open spec fn default_colour() -> Seq<char> {
    "\x1B[39m"@
}

/// The sequence that switches bold text on.
pub open spec fn bold() -> Seq<char> {
    "\x1B[1m"@
}

/// The sequence that switches italic text on.
pub open spec fn italic() -> Seq<char> {
    "\x1B[3m"@
}

/// The sequence that switches every text attribute off.
pub open spec fn plain() -> Seq<char> {
    "\x1B[m"@
}

/// What termion's `color::Fg(color::Green)` displays. The contract states
/// the text that termion's source gives for it: the control sequence
/// introducer, `38;5;`, the colour's number 2, and `m`.
#[verifier::external_body]
pub(crate) fn fg_green() -> (code: String)
    ensures
        code@ == green(),
{
    format!("{}", termion::color::Fg(termion::color::Green))
}

/// What termion's `color::Fg(color::Blue)` displays. The contract states the
/// text that termion's source gives for it: the control sequence introducer,
/// `38;5;`, the colour's number 4, and `m`.
#[verifier::external_body]
pub(crate) fn fg_blue() -> (code: String)
    ensures
        code@ == blue(),
{
    format!("{}", termion::color::Fg(termion::color::Blue))
}

/// What termion's `color::Fg(color::LightWhite)` displays. The contract
/// states the text that termion's source gives for it: the control sequence
/// introducer, `38;5;`, the colour's number 15, and `m`.
#[verifier::external_body]
pub(crate) fn fg_light_white() -> (code: String)
    ensures
        code@ == light_white(),
{
    format!("{}", termion::color::Fg(termion::color::LightWhite))
}

/// What termion's `color::Fg(color::Reset)` displays. The contract states
/// the text that termion's source gives for it: the control sequence
/// introducer and `39m`.
#[verifier::external_body]
pub(crate) fn fg_default() -> (code: String)
    ensures
        code@ == default_colour(),
{
    format!("{}", termion::color::Fg(termion::color::Reset))
}

/// What termion's `style::Bold` displays. The contract states the text that
/// termion's source gives for it: the control sequence introducer and `1m`.
#[verifier::external_body]
pub(crate) fn style_bold() -> (code: String)
    ensures
        code@ == bold(),
{
    format!("{}", termion::style::Bold)
}

/// What termion's `style::Italic` displays. The contract states the text
/// that termion's source gives for it: the control sequence introducer and
/// `3m`.
#[verifier::external_body]
pub(crate) fn style_italic() -> (code: String)
    ensures
        code@ == italic(),
{
    format!("{}", termion::style::Italic)
}

/// What termion's `style::Reset` displays. The contract states the text that
/// termion's source gives for it: the control sequence introducer and `m`.
#[verifier::external_body]
pub(crate) fn style_plain() -> (code: String)
    ensures
        code@ == plain(),
{
    format!("{}", termion::style::Reset)
}

} // verus!
