//! The text side of the "enter the stream URL" prompt: the explanation shown
//! above the input field, the quoting of strings for the AppleScript and
//! PowerShell prompts, and the reading of what those prompts print.

use vstd::prelude::*;

use crate::icy::opt_chars;
use crate::text::{
    back_index, chars_of, lossy_text, push_char, strip_back, strip_range, trim, utf8_lossy, Strip,
};

verus! {

/// The title of the prompt window.
pub const TITLE: &'static str = "Whirr";

/// Why the prompt is being shown; selects the explanatory text above the
/// input field.
#[derive(Clone, Copy, PartialEq, Eq, Debug, Structural)]
pub enum Reason {
    /// A plain configuration request (menu item or first launch).
    Configure,
    /// The previous input was rejected as invalid.
    InvalidInput,
    /// Playback was requested while no stream URL is configured.
    PlayRequested,
}

/// The explanation shown for each reason.
pub open spec fn prompt_text_of(reason: Reason) -> Seq<char> {
    match reason {
        Reason::Configure => "Enter the URL of the MP3 stream to play:"@,
        Reason::InvalidInput => "That is not a valid http(s) URL.\nEnter the URL of the MP3 stream to play:"@,
        Reason::PlayRequested => "No stream URL is configured, so there is nothing to play yet.\n\
             Enter the URL of the MP3 stream to play:"@,
    }
}

/// The explanatory text for `reason`.
pub fn prompt_text(reason: Reason) -> (r: &'static str)
    ensures
        r@ == prompt_text_of(reason),
{
    match reason {
        Reason::Configure => "Enter the URL of the MP3 stream to play:",
        Reason::InvalidInput => {
            "That is not a valid http(s) URL.\nEnter the URL of the MP3 stream to play:"
        },
        Reason::PlayRequested => {
            "No stream URL is configured, so there is nothing to play yet.\n\
             Enter the URL of the MP3 stream to play:"
        },
    }
}

/// `s` with every character `c` replaced by `esc(c)`.
pub open spec fn escape_with(s: Seq<char>, esc: spec_fn(char) -> Seq<char>) -> Seq<char>
    decreases s.len(),
{
    if s.len() == 0 {
        Seq::empty()
    } else {
        escape_with(s.drop_last(), esc) + esc(s.last())
    }
}

/// AppleScript escaping: a backslash becomes two, a double quote gets a backslash.
pub open spec fn applescript_escape(c: char) -> Seq<char> {
    if c == '\\' {
        seq!['\\', '\\']
    } else if c == '"' {
        seq!['\\', '"']
    } else {
        seq![c]
    }
}

/// PowerShell escaping: a single quote is doubled.
pub open spec fn powershell_escape(c: char) -> Seq<char> {
    if c == '\'' {
        seq!['\'', '\'']
    } else {
        seq![c]
    }
}

/// `s` as an AppleScript string literal.
pub open spec fn applescript_literal(s: Seq<char>) -> Seq<char> {
    seq!['"'] + escape_with(s, |c: char| applescript_escape(c)) + seq!['"']
}

/// `s` as a single-quoted PowerShell string literal.
pub open spec fn powershell_literal(s: Seq<char>) -> Seq<char> {
    seq!['\''] + escape_with(s, |c: char| powershell_escape(c)) + seq!['\'']
}

/// Quote `s` as an AppleScript string literal.
pub fn applescript_str(s: &str) -> (r: String)
    ensures
        r@ == applescript_literal(s@),
{
    let ghost esc = |c: char| applescript_escape(c);
    let v = chars_of(s);
    let mut out = String::new();
    push_char(&mut out, '"');
    let mut k: usize = 0;
    while k < v.len()
        invariant
            k <= v.len(),
            esc == |c: char| applescript_escape(c),
            out@ == seq!['"'] + escape_with(v@.take(k as int), esc),
        decreases v.len() - k,
    {
        let c = v[k];
        if c == '\\' {
            push_char(&mut out, '\\');
            push_char(&mut out, '\\');
        } else if c == '"' {
            push_char(&mut out, '\\');
            push_char(&mut out, '"');
        } else {
            push_char(&mut out, c);
        }
        assert(v@.take(k + 1).drop_last() =~= v@.take(k as int));
        assert(out@ =~= seq!['"'] + escape_with(v@.take(k + 1), esc));
        k += 1;
    }
    assert(v@.take(k as int) =~= s@);
    push_char(&mut out, '"');
    out
}

/// Quote `s` as a single-quoted PowerShell string literal; real newlines are
/// fine inside it.
pub fn powershell_str(s: &str) -> (r: String)
    ensures
        r@ == powershell_literal(s@),
{
    let ghost esc = |c: char| powershell_escape(c);
    let v = chars_of(s);
    let mut out = String::new();
    push_char(&mut out, '\'');
    let mut k: usize = 0;
    while k < v.len()
        invariant
            k <= v.len(),
            esc == |c: char| powershell_escape(c),
            out@ == seq!['\''] + escape_with(v@.take(k as int), esc),
        decreases v.len() - k,
    {
        let c = v[k];
        if c == '\'' {
            push_char(&mut out, '\'');
            push_char(&mut out, '\'');
        } else {
            push_char(&mut out, c);
        }
        assert(v@.take(k + 1).drop_last() =~= v@.take(k as int));
        assert(out@ =~= seq!['\''] + escape_with(v@.take(k + 1), esc));
        k += 1;
    }
    assert(v@.take(k as int) =~= s@);
    push_char(&mut out, '\'');
    out
}

/// What the AppleScript prompt's output means: the entered text, without
/// its trailing line feeds.
pub fn osascript_reply(stdout: &[u8]) -> (r: String)
    ensures
        r@ == strip_back(utf8_lossy(stdout@), Strip::Newline),
{
    let text = lossy_text(stdout);
    osascript_reply_text(text.as_str())
}

/// `osascript_reply` on the decoded output.
pub fn osascript_reply_text(text: &str) -> (r: String)
    ensures
        r@ == strip_back(text@, Strip::Newline),
{
    let v = chars_of(text);
    assert(v@.subrange(0, v@.len() as int) =~= v@);
    let end = back_index(&v, 0, v.len(), Strip::Newline);
    String::from_str(text.substring_char(0, end))
}

/// The entered text in the PowerShell prompt's decoded output: trimmed, and
/// `None` if empty (an empty input box counts as cancel).
pub open spec fn powershell_answer(text: Seq<char>) -> Option<Seq<char>> {
    if trim(text).len() == 0 {
        None
    } else {
        Some(trim(text))
    }
}

/// What the PowerShell prompt's output means.
pub fn powershell_reply(stdout: &[u8]) -> (r: Option<String>)
    ensures
        opt_chars(r) == powershell_answer(utf8_lossy(stdout@)),
{
    let text = lossy_text(stdout);
    powershell_reply_text(text.as_str())
}

/// `powershell_reply` on the decoded output.
pub fn powershell_reply_text(text: &str) -> (r: Option<String>)
    ensures
        opt_chars(r) == powershell_answer(text@),
{
    let v = chars_of(text);
    assert(v@.subrange(0, v@.len() as int) =~= v@);
    let (a, b) = strip_range(&v, 0, v.len(), Strip::Whitespace);
    if a == b {
        None
    } else {
        Some(String::from_str(text.substring_char(a, b)))
    }
}

} // verus!
