//! What the component shows to the platform: its version and its classes.
use vstd::prelude::*;

use crate::text;

verus! {

/// The component's version.
pub const VERSION: &'static str = "0.6.6";

/// The names of the classes, as the platform asks for them.
pub const CLASS_NAMES: &'static str = "ws|http|mcp|session";

/// A class of the component.
#[derive(Debug, Clone, Copy, PartialEq, Eq, Structural)]
pub enum AddinClass {
    /// The WebSocket client.
    Ws,
    /// The HTTP and SSE server.
    Http,
    /// The MCP server.
    Mcp,
    /// The client of the session manager.
    Session,
}

/// The name of a class.
pub open spec fn name_of(class: AddinClass) -> Seq<char> {
    match class {
        AddinClass::Ws => "ws"@,
        AddinClass::Http => "http"@,
        AddinClass::Mcp => "mcp"@,
        AddinClass::Session => "session"@,
    }
}

impl AddinClass {
    /// The class of a name; `None` where there is no such class.
    pub fn by_name(name: &str) -> (out: Option<AddinClass>)
        ensures
            match out {
                Some(class) => name@ == name_of(class),
                None => forall|class: AddinClass| name@ != #[trigger] name_of(class),
            },
    {
        if text::same(name, "ws") {
            Some(AddinClass::Ws)
        } else if text::same(name, "http") {
            Some(AddinClass::Http)
        } else if text::same(name, "mcp") {
            Some(AddinClass::Mcp)
        } else if text::same(name, "session") {
            Some(AddinClass::Session)
        } else {
            None
        }
    }

    /// The name of this class.
    pub fn name(self) -> (out: &'static str)
        ensures
            out@ == name_of(self),
    {
        match self {
            AddinClass::Ws => "ws",
            AddinClass::Http => "http",
            AddinClass::Mcp => "mcp",
            AddinClass::Session => "session",
        }
    }
}

/// No two classes have one name, so a name leads back to its class.
pub proof fn law_names_are_distinct(a: AddinClass, b: AddinClass)
    requires
        name_of(a) == name_of(b),
    ensures
        a == b,
{
    reveal_strlit("ws");
    reveal_strlit("http");
    reveal_strlit("mcp");
    reveal_strlit("session");
    assert("ws"@.len() == 2);
    assert("http"@.len() == 4);
    assert("mcp"@.len() == 3);
    assert("session"@.len() == 7);
}

/// The list of names is the names of all classes, with bars between them.
pub proof fn law_list_names_every_class()
    ensures
        CLASS_NAMES@ == name_of(AddinClass::Ws) + "|"@ + name_of(AddinClass::Http) + "|"@ + name_of(
            AddinClass::Mcp,
        ) + "|"@ + name_of(AddinClass::Session),
{
    reveal_strlit("ws");
    reveal_strlit("http");
    reveal_strlit("mcp");
    reveal_strlit("session");
    reveal_strlit("|");
    reveal_strlit("ws|http|mcp|session");
}

/// Each class has its name.
pub proof fn law_classes_have_their_names()
    ensures
        name_of(AddinClass::Ws) == "ws"@,
        name_of(AddinClass::Http) == "http"@,
        name_of(AddinClass::Mcp) == "mcp"@,
        name_of(AddinClass::Session) == "session"@,
{
}

} // verus!
