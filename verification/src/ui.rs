//! The dialogue with whoever runs the relay.
use crate::addr::SocketAddr;
use crate::text::same_bytes;
use vstd::prelude::*;

verus! {

/// The port of a relay, where none is given.
pub const DEFAULT_PORT: u16 = 25566;

/// A relay that asks to be let in.
#[derive(Debug, PartialEq, Eq)]
pub struct WaitingPeer {
    pub addr: SocketAddr,
    pub key: Vec<u8>,
}

/// Where to connect to.
#[derive(Debug, PartialEq, Eq)]
pub enum Target {
    /// A host with its port, as it was entered.
    Address(String),
    /// A host, and the port to use.
    Host(String, u16),
}

/// What the user is asked.
#[derive(Clone, Copy, Debug, PartialEq, Eq)]
pub enum Prompt<'a> {
    /// Whether to let a relay in.
    AcceptPeer(&'a WaitingPeer),
    /// Whether to stop trying to connect.
    StopConnecting,
    /// Which host to connect to.
    EnterHost,
}

/// What is to be done.
#[derive(Debug, PartialEq, Eq)]
pub enum UiAction {
    /// Nothing.
    Nothing,
    /// Let the relay in that waits.
    AcceptPeer,
    /// Do not let the relay in that waits.
    RefusePeer,
    /// Do not let the relay in that just asked: it is this one.
    RefuseSelf,
    /// Let the relay wait that just asked. Do not let the one in that waited before.
    Wait,
    /// Stop trying to connect if `stop` is set, and connect to the target if there is one.
    Connect { stop: bool, target: Option<Target> },
}

/// A letter of the English alphabet as a small letter; any other sign as it is.
pub open spec fn lower(c: char) -> char {
    if 'A' <= c && c <= 'Z' {
        (c as u32 + 32) as char
    } else {
        c
    }
}

/// A line reads as a word, whatever the case of its letters.
pub open spec fn reads(line: Seq<char>, word: Seq<char>) -> bool {
    line.map_values(|c: char| lower(c)) == word
}

/// The line lets a relay in.
pub open spec fn is_yes(line: Seq<char>) -> bool {
    reads(line, "y"@) || reads(line, "yes"@) || line.len() == 0
}

/// The line keeps a relay out.
pub open spec fn is_no(line: Seq<char>) -> bool {
    reads(line, "n"@) || reads(line, "no"@)
}

/// The target is what a line names.
pub open spec fn names(line: Seq<char>, target: Option<Target>) -> bool {
    if line.len() == 0 {
        target is None
    } else if line.contains(':') {
        target matches Some(Target::Address(addr)) && addr@ == line
    } else {
        target matches Some(Target::Host(host, port)) && host@ == line && port == DEFAULT_PORT
    }
}

fn to_lower(c: char) -> (result: char)
    ensures
        result == lower(c),
{
    if 'A' <= c && c <= 'Z' {
        ((c as u8) + 32) as char
    } else {
        c
    }
}

/// Tells whether a line reads as a word.
fn line_reads(line: &str, word: &str) -> (result: bool)
    ensures
        result == reads(line@, word@),
{
    let len: usize = line.unicode_len();
    if len != word.unicode_len() {
        return false;
    }
    let ghost lowered = line@.map_values(|c: char| lower(c));
    let mut i: usize = 0;
    while i < len
        invariant
            i <= len == line@.len() == word@.len(),
            lowered == line@.map_values(|c: char| lower(c)),
            forall|j: int| 0 <= j < i ==> lowered[j] == word@[j],
        decreases len - i,
    {
        if to_lower(line.get_char(i)) != word.get_char(i) {
            assert(lowered[i as int] != word@[i as int]);
            return false;
        }
        i = i + 1;
    }
    assert(lowered =~= word@);
    true
}

/// Tells whether a sign stands in a line.
fn line_contains(line: &str, c: char) -> (result: bool)
    ensures
        result == line@.contains(c),
{
    let len: usize = line.unicode_len();
    let mut i: usize = 0;
    while i < len
        invariant
            i <= len == line@.len(),
            forall|j: int| 0 <= j < i ==> line@[j] != c,
        decreases len - i,
    {
        if line.get_char(i) == c {
            return true;
        }
        i = i + 1;
    }
    false
}

/// Reads what a line names.
fn read_target(line: String) -> (target: Option<Target>)
    ensures
        names(line@, target),
{
    if line.as_str().is_empty() {
        None
    } else if line_contains(line.as_str(), ':') {
        Some(Target::Address(line))
    } else {
        Some(Target::Host(line, DEFAULT_PORT))
    }
}

/// Where the dialogue stands.
#[derive(Debug)]
pub struct Ui {
    pub own_key: Vec<u8>,
    pub waiting: Option<WaitingPeer>,
    pub connecting: bool,
}

impl Ui {
    /// The start of the dialogue.
    pub fn new(own_key: Vec<u8>) -> (ui: Self)
        ensures
            ui.own_key == own_key,
            ui.waiting is None,
            !ui.connecting,
    {
        Ui { own_key, waiting: None, connecting: false }
    }

    /// Tells what to ask the user.
    pub fn prompt(&self) -> (prompt: Prompt<'_>)
        ensures
            prompt == match self.waiting {
                Some(peer) => Prompt::AcceptPeer(&peer),
                None => if self.connecting {
                    Prompt::StopConnecting
                } else {
                    Prompt::EnterHost
                },
            },
    {
        match &self.waiting {
            Some(peer) => Prompt::AcceptPeer(peer),
            None => if self.connecting {
                Prompt::StopConnecting
            } else {
                Prompt::EnterHost
            },
        }
    }

    /// Takes in what the user entered.
    pub fn input(&mut self, line: String) -> (action: UiAction)
        ensures
            final(self).own_key == old(self).own_key,
            if old(self).waiting is Some {
                &&& final(self).connecting == old(self).connecting
                &&& if is_yes(line@) {
                    action == UiAction::AcceptPeer && final(self).waiting is None
                } else if is_no(line@) {
                    action == UiAction::RefusePeer && final(self).waiting is None
                } else {
                    action == UiAction::Nothing && final(self).waiting == old(self).waiting
                }
            } else {
                &&& final(self).waiting is None
                &&& final(self).connecting == (line@.len() > 0)
                &&& action matches UiAction::Connect { stop, target } && stop
                    == old(self).connecting && names(line@, target)
                &&& line@.len() == 0 ==> action->target is None
                &&& line@.contains(':') ==> (action->target matches Some(Target::Address(addr))
                    && addr@ == line@)
                &&& line@.len() > 0 && !line@.contains(':') ==> (
                action->target matches Some(Target::Host(host, port)) && host@ == line@ && port
                    == 25566)
            },
    {
        if self.waiting.is_some() {
            let word = line.as_str();
            let yes = line_reads(word, "y") || line_reads(word, "yes") || word.is_empty();
            let no = line_reads(word, "n") || line_reads(word, "no");
            if yes {
                self.waiting = None;
                UiAction::AcceptPeer
            } else if no {
                self.waiting = None;
                UiAction::RefusePeer
            } else {
                UiAction::Nothing
            }
        } else {
            let stop = self.connecting;
            let target = read_target(line);
            self.connecting = target.is_some();
            UiAction::Connect { stop, target }
        }
    }

    /// Takes in that a relay asks to be let in.
    pub fn accept_connection(&mut self, peer: WaitingPeer) -> (action: UiAction)
        ensures
            final(self).own_key == old(self).own_key,
            final(self).connecting == old(self).connecting,
            if peer.key@ == old(self).own_key@ {
                action == UiAction::RefuseSelf && final(self).waiting == old(self).waiting
            } else {
                action == UiAction::Wait && final(self).waiting == Some(peer)
            },
    {
        if same_bytes(peer.key.as_slice(), self.own_key.as_slice()) {
            UiAction::RefuseSelf
        } else {
            self.waiting = Some(peer);
            UiAction::Wait
        }
    }
}

/// No line both lets a relay in and keeps it out.
pub proof fn yes_is_not_no(line: Seq<char>)
    ensures
        !(is_yes(line) && is_no(line)),
{
    reveal_strlit("y");
    reveal_strlit("yes");
    reveal_strlit("n");
    reveal_strlit("no");
    let lowered = line.map_values(|c: char| lower(c));
    assert(lowered.len() == line.len());
    if is_yes(line) && is_no(line) {
        assert(lowered[0] == 'n');
    }
}

/// Only the letters from A to Z change, each to its small letter.
pub proof fn lowering(c: char)
    ensures
        0x41 <= c as u32 <= 0x5a ==> lower(c) as u32 == c as u32 + 32,
        !(0x41 <= c as u32 <= 0x5a) ==> lower(c) == c,
{
}

/// A relay is let in by an empty line, by `y` and by `yes`, and kept out by `n` and by `no`, in
/// large or small letters, and by nothing else.
pub proof fn answering(line: Seq<char>)
    ensures
        is_yes(line) <==> {
            ||| line.len() == 0
            ||| line.len() == 1 && (line[0] == 'y' || line[0] == 'Y')
            ||| line.len() == 3 && (line[0] == 'y' || line[0] == 'Y') && (line[1] == 'e' || line[1]
                == 'E') && (line[2] == 's' || line[2] == 'S')
        },
        is_no(line) <==> {
            ||| line.len() == 1 && (line[0] == 'n' || line[0] == 'N')
            ||| line.len() == 2 && (line[0] == 'n' || line[0] == 'N') && (line[1] == 'o' || line[1]
                == 'O')
        },
{
    reveal_strlit("y");
    reveal_strlit("yes");
    reveal_strlit("n");
    reveal_strlit("no");
    let lowered = line.map_values(|c: char| lower(c));
    assert(lowered.len() == line.len());
    if line.len() == 1 {
        assert(lowered =~= "y"@ <==> lowered[0] == 'y');
        assert(lowered =~= "n"@ <==> lowered[0] == 'n');
    }
    if line.len() == 2 {
        assert(lowered =~= "no"@ <==> lowered[0] == 'n' && lowered[1] == 'o');
    }
    if line.len() == 3 {
        assert(lowered =~= "yes"@ <==> lowered[0] == 'y' && lowered[1] == 'e' && lowered[2] == 's');
    }
}

/// An empty line names nothing to connect to. A line with a colon is an address as it stands, and
/// any other line is a host at the default port.
pub proof fn naming_a_target(line: Seq<char>, target: Option<Target>)
    requires
        names(line, target),
    ensures
        line.len() == 0 <==> target is None,
        line.len() > 0 && (exists|i: int| 0 <= i < line.len() && line[i] == ':') <==> (
        target matches Some(Target::Address(addr))),
        line.len() > 0 && (forall|i: int| 0 <= i < line.len() ==> line[i] != ':') <==> (
        target matches Some(Target::Host(host, port))),
        target matches Some(Target::Address(addr)) ==> addr@ == line,
        target matches Some(Target::Host(host, port)) ==> host@ == line && port == 25566,
{
}

} // verus!
