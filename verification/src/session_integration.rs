//! The link to the session manager over a WebSocket.
use vstd::prelude::*;

use crate::tunnel::TextOrClose;

verus! {

/// How long opening a connection may take, in milliseconds.
pub const CONNECT_TIMEOUT_MS: u64 = 5000;

/// Opens connections to one address.
#[derive(Debug)]
pub struct WsConnector {
    url: String,
}

impl WsConnector {
    /// The characters of the address.
    pub closed spec fn address(&self) -> Seq<char> {
        self.url@
    }

    /// A connector to an address.
    pub fn new(url: String) -> (out: Self)
        ensures
            out.address() == url@,
    {
        WsConnector { url }
    }

    /// The address.
    pub fn url(&self) -> (out: &str)
        ensures
            out@ == self.address(),
    {
        self.url.as_str()
    }
}

/// A frame of a WebSocket.
#[derive(Debug)]
pub enum WsFrame {
    Text(String),
    Close,
    /// A ping, a pong, a binary frame or a raw one.
    Other,
}

/// What the tunnel gets for a frame; `None` where the frame is passed over.
pub open spec fn tunnel_frame(frame: WsFrame) -> Option<TextOrClose> {
    match frame {
        WsFrame::Text(text) => Some(TextOrClose::Text(text)),
        WsFrame::Close => Some(TextOrClose::Close),
        WsFrame::Other => None,
    }
}

/// What the tunnel gets for a frame. Frames other than text and close are passed over.
pub fn accept_frame(frame: WsFrame) -> (out: Option<TextOrClose>)
    ensures
        out == tunnel_frame(frame),
{
    match frame {
        WsFrame::Text(text) => Some(TextOrClose::Text(text)),
        WsFrame::Close => Some(TextOrClose::Close),
        WsFrame::Other => None,
    }
}

/// A text frame reaches the tunnel with all of its text, a close frame as such, and no other frame
/// does.
pub proof fn law_text_frames_pass_whole(text: String)
    ensures
        tunnel_frame(WsFrame::Text(text)) == Some(TextOrClose::Text(text)),
        tunnel_frame(WsFrame::Close) == Some(TextOrClose::Close),
        tunnel_frame(WsFrame::Other) is None,
{
}

} // verus!
