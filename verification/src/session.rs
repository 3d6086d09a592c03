//! The server's side of one client connection: the greeting it must receive
//! first, and what each later client message asks of the server.
use vstd::prelude::*;
use crate::config::{ClientEntry, Config};
use crate::proto::{ClipboardContent, C2S, HelloS2C, PROTOCOL_VERSION, S2C, ScreenInfo};

verus! {

/// Why the server turns a connection away during the greeting.
#[derive(Debug, Clone, PartialEq, Eq)]
pub enum HandshakeError {
    /// The first message was not a greeting.
    ExpectedHello,
    /// The client speaks another protocol version.
    VersionMismatch { client: u32, server: u32 },
    /// No configured client has this name.
    UnknownClient { name: String },
    /// The client's primary screen has no pixels along one axis.
    InvalidScreen { width: u16, height: u16 },
}

/// A greeting the server accepted.
#[derive(Debug, Clone, PartialEq, Eq)]
pub struct Accepted {
    /// The client's name.
    pub name: String,
    /// The client's primary screen, against which the cursor is placed.
    pub screen: ScreenInfo,
    /// The server's answer.
    pub reply: S2C,
}

/// The screen assumed for a client that reports none.
pub open spec fn default_screen(name: String) -> ScreenInfo {
    ScreenInfo { name, x: 0, y: 0, width: 1920, height: 1080 }
}

/// Whether some configured client is called `name`.
pub open spec fn is_configured(cs: Seq<ClientEntry>, name: Seq<char>) -> bool {
    exists|i: int| 0 <= i < cs.len() && (#[trigger] cs[i]).name@ == name
}

/// The client's primary screen: the first it reports, or the default.
pub open spec fn primary_screen(name: String, screens: Seq<ScreenInfo>) -> ScreenInfo {
    if screens.len() > 0 {
        screens[0]
    } else {
        default_screen(name)
    }
}

/// The server's answer to an accepted greeting: the protocol version, and
/// the server's own screen followed by every screen the client reported.
pub open spec fn reply_spec(server_name: String, client_screens: Seq<ScreenInfo>) -> Seq<ScreenInfo> {
    seq![ScreenInfo { name: server_name, x: 0, y: 0, width: 1920, height: 1080 }] + client_screens
}

/// `reply` is the server greeting for a client that reported `client_screens`.
pub open spec fn is_reply(reply: S2C, server_name: String, client_screens: Seq<ScreenInfo>) -> bool {
    match reply {
        S2C::Hello(rh) => rh.version == PROTOCOL_VERSION && rh.screens@ == reply_spec(server_name, client_screens),
        _ => false,
    }
}

fn is_configured_exec(cs: &Vec<ClientEntry>, name: &String) -> (r: bool)
    ensures
        r == is_configured(cs@, name@),
{
    let mut i: usize = 0;
    while i < cs.len()
        invariant
            0 <= i <= cs@.len(),
            forall|j: int| 0 <= j < i ==> (#[trigger] cs@[j]).name@ != name@,
        decreases cs@.len() - i,
    {
        if cs[i].name == *name {
            return true;
        }
        i = i + 1;
    }
    false
}

/// Check the first message of a connection and build the server's answer.
///
/// The message must be a greeting, in this protocol version, from a
/// configured client, whose primary screen (the first it reports, or
/// 1920x1080 when it reports none) is at least one pixel wide and high.
pub fn handshake(msg: C2S, config: &Config) -> (r: Result<Accepted, HandshakeError>)
    ensures
        match msg {
            C2S::Hello(h) => {
                if h.version != PROTOCOL_VERSION {
                    r == Err::<Accepted, HandshakeError>(
                        HandshakeError::VersionMismatch { client: h.version, server: PROTOCOL_VERSION },
                    )
                } else if !is_configured(config.clients@, h.name@) {
                    r matches Err(HandshakeError::UnknownClient { name }) && name@ == h.name@
                } else {
                    let s = primary_screen(h.name, h.screens@);
                    if s.width == 0 || s.height == 0 {
                        r == Err::<Accepted, HandshakeError>(
                            HandshakeError::InvalidScreen { width: s.width, height: s.height },
                        )
                    } else {
                        r matches Ok(a) && a.name == h.name && a.screen == s && is_reply(
                            a.reply,
                            config.server.name,
                            h.screens@,
                        )
                    }
                }
            },
            _ => r == Err::<Accepted, HandshakeError>(HandshakeError::ExpectedHello),
        },
{
    let hello = match msg {
        C2S::Hello(h) => h,
        _ => {
            return Err(HandshakeError::ExpectedHello);
        },
    };
    if hello.version != PROTOCOL_VERSION {
        return Err(HandshakeError::VersionMismatch { client: hello.version, server: PROTOCOL_VERSION });
    }
    if !is_configured_exec(&config.clients, &hello.name) {
        return Err(HandshakeError::UnknownClient { name: hello.name });
    }
    let screen = if hello.screens.len() > 0 {
        hello.screens[0].duplicate()
    } else {
        ScreenInfo { name: hello.name.clone(), x: 0, y: 0, width: 1920, height: 1080 }
    };
    if screen.width == 0 || screen.height == 0 {
        return Err(HandshakeError::InvalidScreen { width: screen.width, height: screen.height });
    }
    let mut screens: Vec<ScreenInfo> = Vec::new();
    screens.push(ScreenInfo { name: config.server.name.clone(), x: 0, y: 0, width: 1920, height: 1080 });
    let mut i: usize = 0;
    while i < hello.screens.len()
        invariant
            0 <= i <= hello.screens@.len(),
            screens@ == reply_spec(config.server.name, hello.screens@.take(i as int)),
        decreases hello.screens@.len() - i,
    {
        screens.push(hello.screens[i].duplicate());
        assert(hello.screens@.take(i + 1) =~= hello.screens@.take(i as int).push(hello.screens@[i as int]));
        assert(reply_spec(config.server.name, hello.screens@.take(i + 1)) =~= reply_spec(
            config.server.name,
            hello.screens@.take(i as int),
        ).push(hello.screens@[i as int]));
        i = i + 1;
    }
    assert(hello.screens@.take(hello.screens@.len() as int) =~= hello.screens@);
    Ok(Accepted { name: hello.name, screen, reply: S2C::Hello(HelloS2C { version: PROTOCOL_VERSION, screens }) })
}

/// What a message after the greeting asks of the server.
#[derive(Debug, Clone, PartialEq, Eq)]
pub enum ClientStep {
    /// Nothing to do (a pong, or a layout update with no screens).
    Nothing,
    /// Pass the clipboard on to every other connected client.
    ShareClipboard(ClipboardContent),
    /// The client's primary screen is now this one.
    UpdateScreen(ScreenInfo),
    /// A layout update whose primary screen has no pixels; it is ignored.
    InvalidScreen { width: u16, height: u16 },
    /// A second greeting; it is ignored.
    UnexpectedHello,
}

/// What the server does with a message from a connected client.
pub fn client_step(msg: C2S) -> (r: ClientStep)
    ensures
        match msg {
            C2S::Pong => r == ClientStep::Nothing,
            C2S::ClipboardData(c) => r == ClientStep::ShareClipboard(c),
            C2S::ScreenLayoutUpdate { screens } => if screens@.len() == 0 {
                r == ClientStep::Nothing
            } else if screens@[0].width == 0 || screens@[0].height == 0 {
                r == (ClientStep::InvalidScreen { width: screens@[0].width, height: screens@[0].height })
            } else {
                r == ClientStep::UpdateScreen(screens@[0])
            },
            C2S::Hello(_) => r == ClientStep::UnexpectedHello,
        },
{
    match msg {
        C2S::Pong => ClientStep::Nothing,
        C2S::ClipboardData(c) => ClientStep::ShareClipboard(c),
        C2S::ScreenLayoutUpdate { screens } => {
            if screens.len() == 0 {
                ClientStep::Nothing
            } else if screens[0].width == 0 || screens[0].height == 0 {
                ClientStep::InvalidScreen { width: screens[0].width, height: screens[0].height }
            } else {
                ClientStep::UpdateScreen(screens[0].duplicate())
            }
        },
        C2S::Hello(_) => ClientStep::UnexpectedHello,
    }
}

/// The name is not `n`.
pub open spec fn other_name(n: Seq<char>) -> spec_fn(String) -> bool {
    |s: String| s@ != n
}

/// The connected clients a clipboard from `from` goes to: all the others,
/// in the order given, each once when the names are distinct.
pub fn clipboard_recipients(from: &String, connected: &Vec<String>) -> (r: Vec<String>)
    ensures
        r@ == connected@.filter(other_name(from@)),
        connected@.no_duplicates() ==> r@.no_duplicates(),
        r@.len() <= connected@.len(),
        forall|i: int| 0 <= i < r@.len() ==> (#[trigger] r@[i])@ != from@,
        forall|i: int| 0 <= i < r@.len() ==> connected@.contains(#[trigger] r@[i]),
        forall|j: int| 0 <= j < connected@.len() && (#[trigger] connected@[j])@ != from@ ==> r@.contains(
            connected@[j],
        ),
{
    let mut r: Vec<String> = Vec::new();
    let mut i: usize = 0;
    while i < connected.len()
        invariant
            0 <= i <= connected@.len(),
            r@ == connected@.take(i as int).filter(other_name(from@)),
            r@.len() <= i,
            forall|k: int| 0 <= k < r@.len() ==> (#[trigger] r@[k])@ != from@,
            forall|k: int| 0 <= k < r@.len() ==> connected@.take(i as int).contains(#[trigger] r@[k]),
            connected@.no_duplicates() ==> r@.no_duplicates(),
            forall|j: int| 0 <= j < i && (#[trigger] connected@[j])@ != from@ ==> r@.contains(connected@[j]),
        decreases connected@.len() - i,
    {
        let ghost before = r@;
        proof {
            reveal(Seq::filter);
            assert(connected@.take(i + 1).drop_last() =~= connected@.take(i as int));
        }
        if connected[i] != *from {
            r.push(connected[i].clone());
            assert(r@[r@.len() - 1] == connected@[i as int]);
            assert(r@ =~= before.push(connected@[i as int]));
            assert forall|j: int| 0 <= j < i + 1 && (#[trigger] connected@[j])@ != from@ implies r@.contains(
                connected@[j],
            ) by {
                if j < i {
                    let k = choose|k: int| 0 <= k < before.len() && before[k] == connected@[j];
                    assert(r@[k] == connected@[j]);
                } else {
                    assert(r@[r@.len() - 1] == connected@[j]);
                }
            }
            assert forall|k: int| 0 <= k < r@.len() implies connected@.take(i + 1).contains(#[trigger] r@[k]) by {
                if k < before.len() {
                    let q = choose|q: int| 0 <= q < i && connected@.take(i as int)[q] == r@[k];
                    assert(connected@.take(i + 1)[q] == r@[k]);
                } else {
                    assert(connected@.take(i + 1)[i as int] == r@[k]);
                }
            }
            proof {
                if connected@.no_duplicates() {
                    assert forall|x: int, y: int| 0 <= x < y < r@.len() implies r@[x] != r@[y] by {
                        if y == r@.len() - 1 {
                            if r@[x] == r@[y] {
                                let q = choose|q: int| 0 <= q < i && connected@.take(i as int)[q] == r@[x];
                                assert(connected@[q] == connected@[i as int]);
                            }
                        }
                    }
                }
            }
        } else {
            assert(r@ =~= connected@.take(i + 1).filter(other_name(from@)));
            assert forall|k: int| 0 <= k < r@.len() implies connected@.take(i + 1).contains(#[trigger] r@[k]) by {
                let q = choose|q: int| 0 <= q < i && connected@.take(i as int)[q] == r@[k];
                assert(connected@.take(i + 1)[q] == r@[k]);
            }
        }
        i = i + 1;
    }
    assert(connected@.take(connected@.len() as int) =~= connected@);
    r
}

} // verus!
