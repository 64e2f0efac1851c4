//! The graphics protocol images are drawn with.
use crate::config::ImageProtocol;
use crate::text::{chars_eq_str, contains_seq, contains_str, to_chars};
use vstd::prelude::*;

verus! {

/// How images are drawn in the terminal.
#[derive(Debug, Clone, Copy, PartialEq, Eq, Structural)]
pub enum GraphicsProtocol {
    Kitty,
    Halfblocks,
    Disabled,
}

pub open spec fn protocol_name(p: GraphicsProtocol) -> Seq<char> {
    match p {
        GraphicsProtocol::Kitty => "kitty"@,
        GraphicsProtocol::Halfblocks => "halfblocks"@,
        GraphicsProtocol::Disabled => "none"@,
    }
}

impl GraphicsProtocol {
    pub fn is_kitty(&self) -> (r: bool)
        ensures
            r == (*self == GraphicsProtocol::Kitty),
    {
        matches!(self, GraphicsProtocol::Kitty)
    }

    pub fn is_halfblocks(&self) -> (r: bool)
        ensures
            r == (*self == GraphicsProtocol::Halfblocks),
    {
        matches!(self, GraphicsProtocol::Halfblocks)
    }

    /// The protocol's name as the settings show it.
    pub fn name(&self) -> (r: &'static str)
        ensures
            r@ == protocol_name(*self),
    {
        match self {
            GraphicsProtocol::Kitty => "kitty",
            GraphicsProtocol::Halfblocks => "halfblocks",
            GraphicsProtocol::Disabled => "none",
        }
    }
}

/// Kitty graphics are available in Kitty and Ghostty, recognised by their
/// environment variables or by `TERM`.
pub open spec fn protocol_for_terminal(kitty_window_id: bool, ghostty_resources_dir: bool, term: Option<
    Seq<char>,
>) -> GraphicsProtocol {
    let term_says = match term {
        Some(t) => t == "xterm-kitty"@ || contains_seq(t, "kitty"@) || contains_seq(t, "ghostty"@),
        None => false,
    };
    if kitty_window_id || ghostty_resources_dir || term_says {
        GraphicsProtocol::Kitty
    } else {
        GraphicsProtocol::Halfblocks
    }
}

/// The protocol the terminal supports, given whether `KITTY_WINDOW_ID` and
/// `GHOSTTY_RESOURCES_DIR` are set and the value of `TERM`.
pub fn detect_terminal_protocol(kitty_window_id: bool, ghostty_resources_dir: bool, term: Option<&str>) -> (r:
    GraphicsProtocol)
    ensures
        r == protocol_for_terminal(
            kitty_window_id,
            ghostty_resources_dir,
            match term {
                Some(t) => Some(t@),
                None => None,
            },
        ),
{
    let term_says = match term {
        Some(t) => {
            let tc = to_chars(t);
            chars_eq_str(&tc, "xterm-kitty") || contains_str(&tc, "kitty") || contains_str(&tc, "ghostty")
        },
        None => false,
    };
    if kitty_window_id || ghostty_resources_dir || term_says {
        GraphicsProtocol::Kitty
    } else {
        GraphicsProtocol::Halfblocks
    }
}

/// The configured protocol, with `Auto` settled by what the terminal supports.
pub open spec fn resolved_protocol(configured: ImageProtocol, detected: GraphicsProtocol) -> GraphicsProtocol {
    match configured {
        ImageProtocol::Off => GraphicsProtocol::Disabled,
        ImageProtocol::Kitty => GraphicsProtocol::Kitty,
        ImageProtocol::Halfblocks => GraphicsProtocol::Halfblocks,
        ImageProtocol::Auto => detected,
    }
}

/// Settles the configured protocol; `detected` is what
/// `detect_terminal_protocol` reports for this terminal.
pub fn resolve_protocol(configured: ImageProtocol, detected: GraphicsProtocol) -> (r: GraphicsProtocol)
    ensures
        r == resolved_protocol(configured, detected),
{
    match configured {
        ImageProtocol::Off => GraphicsProtocol::Disabled,
        ImageProtocol::Kitty => GraphicsProtocol::Kitty,
        ImageProtocol::Halfblocks => GraphicsProtocol::Halfblocks,
        ImageProtocol::Auto => detected,
    }
}

} // verus!
