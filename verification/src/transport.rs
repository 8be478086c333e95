//! Media transport: commands, capabilities, and how commands are delivered.

use vstd::prelude::*;
use vstd::slice::slice_subrange;

use crate::cache;
use crate::cache::AdapterCache;

verus! {

/// Transport commands accepted by [`transport_send`].
#[derive(Debug, Clone, Copy, PartialEq, Eq, Hash, Structural)]
pub enum TransportCommand {
    PlayPause,
    Next,
    Previous,
    Like,
    Dislike,
}

/// Unknown MediaRemote command code.
#[derive(Debug, Clone, Copy, PartialEq, Eq, Structural)]
pub struct UnknownCommand(pub u32);

/// Media transport capabilities of the current system media session.
///
/// Secondary commands are on offer where command discovery proves that they are
/// both supported and enabled for the active player. Where discovery reports
/// nothing at all, a staged adapter stands in for it with the standard commands.
#[derive(Debug, Clone, Copy, PartialEq, Eq, Structural)]
pub struct Capabilities {
    pub play_pause: bool,
    pub previous: bool,
    pub next: bool,
    pub like: bool,
    pub dislike: bool,
}

// --------------------------------------------------------------- commands

/// The `MRMediaRemoteCommand` value of a command.
pub open spec fn command_code(command: TransportCommand) -> u32 {
    match command {
        TransportCommand::PlayPause => 2,
        TransportCommand::Next => 4,
        TransportCommand::Previous => 5,
        TransportCommand::Like => 106,
        TransportCommand::Dislike => 107,
    }
}

/// The command of a `MRMediaRemoteCommand` value.
pub open spec fn command_of(code: u32) -> Result<TransportCommand, UnknownCommand> {
    if code == 2 {
        Ok(TransportCommand::PlayPause)
    } else if code == 4 {
        Ok(TransportCommand::Next)
    } else if code == 5 {
        Ok(TransportCommand::Previous)
    } else if code == 106 {
        Ok(TransportCommand::Like)
    } else if code == 107 {
        Ok(TransportCommand::Dislike)
    } else {
        Err(UnknownCommand(code))
    }
}

impl TransportCommand {
    /// Zero-based `MRMediaRemoteCommand` value sent to MediaRemote.
    pub fn code(self) -> (res: u32)
        ensures
            res == command_code(self),
    {
        match self {
            TransportCommand::PlayPause => 2,
            TransportCommand::Next => 4,
            TransportCommand::Previous => 5,
            TransportCommand::Like => 106,
            TransportCommand::Dislike => 107,
        }
    }
}

impl TryFrom<u32> for TransportCommand {
    type Error = UnknownCommand;

    fn try_from(code: u32) -> (res: Result<Self, UnknownCommand>) {
        match code {
            2 => Ok(TransportCommand::PlayPause),
            4 => Ok(TransportCommand::Next),
            5 => Ok(TransportCommand::Previous),
            106 => Ok(TransportCommand::Like),
            107 => Ok(TransportCommand::Dislike),
            other => Err(UnknownCommand(other)),
        }
    }
}

impl vstd::std_specs::convert::TryFromSpecImpl<u32> for TransportCommand {
    open spec fn obeys_try_from_spec() -> bool {
        true
    }

    open spec fn try_from_spec(code: u32) -> Result<Self, UnknownCommand> {
        command_of(code)
    }
}

/// A command is found again under its code, and under no other.
pub proof fn law_commands_roundtrip(command: TransportCommand, code: u32)
    ensures
        command_of(command_code(command)) == Ok::<TransportCommand, UnknownCommand>(command),
        command_of(code) == Ok::<TransportCommand, UnknownCommand>(command) <==> code
            == command_code(command),
{
}

/// A code that belongs to no command is handed back.
pub proof fn law_unknown_codes_are_handed_back(code: u32)
    requires
        forall|command: TransportCommand| code != #[trigger] command_code(command),
    ensures
        command_of(code) == Err::<TransportCommand, UnknownCommand>(UnknownCommand(code)),
{
    assert(code != command_code(TransportCommand::PlayPause));
    assert(code != command_code(TransportCommand::Next));
    assert(code != command_code(TransportCommand::Previous));
    assert(code != command_code(TransportCommand::Like));
    assert(code != command_code(TransportCommand::Dislike));
}

// ----------------------------------------------------------- capabilities

/// The capabilities of a session: nothing without a way to send; with one,
/// play/pause always, and every other command where discovery reports it. Where
/// discovery reports nothing at all, a staged adapter offers previous and next.
pub open spec fn session_capabilities(
    send_available: bool,
    enabled_codes: Seq<u32>,
    adapter_available: bool,
) -> Capabilities {
    let enabled = |command: TransportCommand| enabled_codes.contains(command_code(command));
    let fallback = adapter_available && enabled_codes.len() == 0;
    Capabilities {
        play_pause: send_available,
        previous: send_available && (enabled(TransportCommand::Previous) || fallback),
        next: send_available && (enabled(TransportCommand::Next) || fallback),
        like: send_available && enabled(TransportCommand::Like),
        dislike: send_available && enabled(TransportCommand::Dislike),
    }
}

/// Whether the code is among the given ones.
fn contains_code(codes: &[u32], code: u32) -> (res: bool)
    ensures
        res == codes@.contains(code),
{
    let mut i: usize = 0;
    while i < codes.len()
        invariant
            i <= codes@.len(),
            forall|j: int| 0 <= j < i ==> codes@[j] != code,
        decreases codes@.len() - i,
    {
        if codes[i] == code {
            return true;
        }
        i += 1;
    }
    false
}

/// Resolves transport capabilities. Direct MediaRemote discovery is
/// authoritative where it reports any command; the staged adapter is the
/// entitled fallback on modern macOS and accepts the standard play/pause, previous, and next
/// command contract used by Music, Spotify, and browser media sessions.
pub fn resolve_capabilities(
    send_available: bool,
    enabled_codes: &[u32],
    adapter_available: bool,
) -> (res: Capabilities)
    ensures
        res == session_capabilities(send_available, enabled_codes@, adapter_available),
{
    let fallback = adapter_available && enabled_codes.len() == 0;
    Capabilities {
        play_pause: send_available,
        previous: send_available && (contains_code(
            enabled_codes,
            TransportCommand::Previous.code(),
        ) || fallback),
        next: send_available && (contains_code(enabled_codes, TransportCommand::Next.code())
            || fallback),
        like: send_available && contains_code(enabled_codes, TransportCommand::Like.code()),
        dislike: send_available && contains_code(enabled_codes, TransportCommand::Dislike.code()),
    }
}

/// Room for enabled-command discovery; MediaRemote's command set is far smaller
/// than this.
pub const COMMAND_CODE_CAPACITY: u32 = 32;

/// Interprets the native layer's answer on whether it delivers transport
/// commands.
pub fn transport_available(status: i32) -> (res: bool)
    ensures
        res == (status != 0),
{
    status != 0
}

/// The codes that discovery wrote into its buffer, of which it reports the
/// count: none for a negative count, no more than the buffer holds.
pub open spec fn discovered_codes(buffer: Seq<u32>, count: i32) -> Seq<u32> {
    if count < 0 {
        Seq::empty()
    } else if count > buffer.len() {
        buffer
    } else {
        buffer.take(count as int)
    }
}

/// Reads transport capabilities for the current system media session from
/// whether the adapter is staged, the native layer's answer on transport
/// delivery, and the buffer and count of its command discovery. The staged
/// adapter restores the standard three-command contract on modern macOS where
/// direct command discovery is entitlement-restricted.
pub fn transport_capabilities(
    adapter_available: bool,
    transport_status: i32,
    codes: &[u32],
    count: i32,
) -> (res: Capabilities)
    ensures
        res == session_capabilities(
            transport_status != 0 || adapter_available,
            discovered_codes(codes@, count),
            adapter_available,
        ),
{
    let send_available = transport_available(transport_status) || adapter_available;
    let used: usize = if count < 0 {
        0
    } else if count as u64 > codes.len() as u64 {
        codes.len()
    } else {
        count as usize
    };
    assert(codes@.subrange(0, used as int) == discovered_codes(codes@, count));
    resolve_capabilities(send_available, slice_subrange(codes, 0, used), adapter_available)
}

/// Without a way to send, nothing is on offer.
pub proof fn law_capabilities_require_transport(codes: Seq<u32>, adapter_available: bool)
    ensures
        session_capabilities(false, codes, adapter_available) == (Capabilities {
            play_pause: false,
            previous: false,
            next: false,
            like: false,
            dislike: false,
        }),
{
}

/// Every secondary command on offer was discovered, or is one of the two that a
/// staged adapter offers where discovery reported nothing.
pub proof fn law_secondary_commands_are_discovered(
    send_available: bool,
    codes: Seq<u32>,
    adapter_available: bool,
)
    ensures
        ({
            let capabilities = session_capabilities(send_available, codes, adapter_available);
            &&& capabilities.previous ==> codes.contains(5) || (adapter_available && codes.len() == 0)
            &&& capabilities.next ==> codes.contains(4) || (adapter_available && codes.len() == 0)
            &&& capabilities.like ==> codes.contains(106)
            &&& capabilities.dislike ==> codes.contains(107)
        }),
{
}

/// Where discovery reports any command, it is authoritative: the adapter makes no
/// difference to what is on offer.
pub proof fn law_discovery_is_authoritative(
    send_available: bool,
    codes: Seq<u32>,
    adapter_available: bool,
)
    requires
        codes.len() > 0,
    ensures
        session_capabilities(send_available, codes, adapter_available) == session_capabilities(
            send_available,
            codes,
            false,
        ),
{
}

/// Where discovery reports nothing, a staged adapter offers play/pause, previous
/// and next, and no rating.
pub proof fn law_adapter_restores_standard_commands()
    ensures
        session_capabilities(true, Seq::<u32>::empty(), true) == (Capabilities {
            play_pause: true,
            previous: true,
            next: true,
            like: false,
            dislike: false,
        }),
{
}

// --------------------------------------------------------------- delivery

/// Delivers through the adapter where it did, and directly otherwise. The
/// direct way is not taken after the adapter succeeded.
pub fn resolve_transport_send<F: FnOnce() -> bool>(
    adapter_result: Option<bool>,
    direct_send: F,
) -> (res: bool)
    requires
        adapter_result != Some(true) ==> direct_send.requires(()),
    ensures
        if adapter_result == Some(true) {
            res
        } else {
            direct_send.ensures((), res)
        },
{
    match adapter_result {
        Some(true) => true,
        Some(false) | None => direct_send(),
    }
}

/// Sends a transport command, through the adapter first and directly after it.
/// Returns `false` when no send path is available or delivery failed.
///
/// `adapter_send` and `direct_send` take the code of the command. The adapter
/// answers with nothing where none is staged or it could not be started, the
/// native layer with zero where it did not deliver. A command that was delivered
/// outdates the adapter's answer in the cache.
pub fn transport_send<A: FnOnce(u32) -> Option<bool>, D: FnOnce(u32) -> i32>(
    cache: &mut AdapterCache,
    command: TransportCommand,
    adapter_send: A,
    direct_send: D,
) -> (res: bool)
    requires
        adapter_send.requires((command_code(command),)),
        forall|adapter_result: Option<bool>| #[trigger]
            adapter_send.ensures((command_code(command),), adapter_result) && adapter_result
                != Some(true) ==> direct_send.requires((command_code(command),)),
    ensures
        exists|adapter_result: Option<bool>|
            {
                &&& #[trigger] adapter_send.ensures((command_code(command),), adapter_result)
                &&& if adapter_result == Some(true) {
                    res
                } else {
                    exists|status: i32|
                        {
                            &&& #[trigger] direct_send.ensures((command_code(command),), status)
                            &&& res == (status != 0)
                        }
                }
            },
        cache::is_settled(*old(cache), *final(cache), res),
{
    let code = command.code();
    let adapter_result = adapter_send(code);
    let direct = || -> (sent: bool)
        requires
            direct_send.requires((code,)),
        ensures
            exists|status: i32|
                #[trigger] direct_send.ensures((code,), status) && sent == (status != 0),
        { direct_send(code) != 0 };
    let sent = resolve_transport_send(adapter_result, direct);
    cache::settle_delivery(cache, sent);
    sent
}

} // verus!
