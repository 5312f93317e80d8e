//! The kernel's Bluetooth management protocol: framing commands and reading replies.
use vstd::prelude::*;
use crate::text;

verus! {

/// What the kernel reports about a controller.
#[derive(Clone, Copy, Debug, PartialEq, Eq, Structural)]
pub struct ControllerInfo {
    /// The manufacturer's company identifier.
    pub manufacturer: u16,
    /// The HCI version byte.
    pub hci_version: u8,
}

/// Why a controller's address or power could not be changed.
#[derive(Debug)]
#[non_exhaustive]
pub enum SetAddressError {
    /// The platform has no management socket.
    Unsupported,
    /// The socket failed, or no reply came.
    Io(String),
    /// The kernel refused the command with this status.
    Command(u8),
}

/// What a [`SetAddressError`] says.
pub enum SetAddressErrorView {
    Unsupported,
    Io(Seq<char>),
    Command(u8),
}

impl View for SetAddressError {
    type V = SetAddressErrorView;

    open spec fn view(&self) -> SetAddressErrorView {
        match self {
            SetAddressError::Unsupported => SetAddressErrorView::Unsupported,
            SetAddressError::Io(e) => SetAddressErrorView::Io(e@),
            SetAddressError::Command(s) => SetAddressErrorView::Command(*s),
        }
    }
}

/// The words for a management status.
pub open spec fn status_words(status: u8) -> Seq<char> {
    if status == 0x00 {
        "success"@
    } else if status == 0x01 {
        "unknown command"@
    } else if status == 0x02 {
        "not connected"@
    } else if status == 0x03 {
        "failed"@
    } else if status == 0x04 {
        "connect failed"@
    } else if status == 0x05 {
        "authentication failed"@
    } else if status == 0x06 {
        "not paired"@
    } else if status == 0x07 {
        "no resources"@
    } else if status == 0x08 {
        "timeout"@
    } else if status == 0x09 {
        "already connected"@
    } else if status == 0x0A {
        "busy"@
    } else if status == 0x0B {
        "rejected (is the adapter still powered on?)"@
    } else if status == 0x0C {
        "not supported (controller cannot change its address)"@
    } else if status == 0x0D {
        "invalid parameters"@
    } else if status == 0x0E {
        "disconnected"@
    } else if status == 0x0F {
        "not powered"@
    } else if status == 0x10 {
        "cancelled"@
    } else if status == 0x11 {
        "invalid index (no such controller)"@
    } else if status == 0x12 {
        "rf-killed"@
    } else if status == 0x13 {
        "already paired"@
    } else if status == 0x14 {
        "permission denied (need CAP_NET_ADMIN)"@
    } else {
        "unknown status"@
    }
}

impl SetAddressErrorView {
    /// The message shown for an error.
    pub open spec fn message(self) -> Seq<char> {
        match self {
            SetAddressErrorView::Unsupported => {
                "setting the controller address is only supported on Linux"@
            },
            SetAddressErrorView::Io(e) => "mgmt socket I/O error: "@ + e,
            SetAddressErrorView::Command(s) => "mgmt command failed: "@ + status_words(s)
                + " (0x"@ + text::byte_lower(s) + ")"@,
        }
    }
}

impl SetAddressError {
    /// The words for a management status.
    pub fn status_str(status: u8) -> (r: &'static str)
        ensures
            r@ == status_words(status),
    {
        match status {
            0x00 => "success",
            0x01 => "unknown command",
            0x02 => "not connected",
            0x03 => "failed",
            0x04 => "connect failed",
            0x05 => "authentication failed",
            0x06 => "not paired",
            0x07 => "no resources",
            0x08 => "timeout",
            0x09 => "already connected",
            0x0A => "busy",
            0x0B => "rejected (is the adapter still powered on?)",
            0x0C => "not supported (controller cannot change its address)",
            0x0D => "invalid parameters",
            0x0E => "disconnected",
            0x0F => "not powered",
            0x10 => "cancelled",
            0x11 => "invalid index (no such controller)",
            0x12 => "rf-killed",
            0x13 => "already paired",
            0x14 => "permission denied (need CAP_NET_ADMIN)",
            _ => "unknown status",
        }
    }

    /// The message shown for the error.
    pub fn to_string(&self) -> (r: String)
        ensures
            r@ == self@.message(),
    {
        match self {
            SetAddressError::Unsupported => {
                "setting the controller address is only supported on Linux".to_owned()
            },
            SetAddressError::Io(e) => {
                let mut t = "mgmt socket I/O error: ".to_owned();
                t.append(e.as_str());
                t
            },
            SetAddressError::Command(s) => {
                let mut t = "mgmt command failed: ".to_owned();
                t.append(SetAddressError::status_str(*s));
                t.append(" (0x");
                t.append(text::byte_text(*s, false).as_str());
                t.append(")");
                t
            },
        }
    }
}

/// Read Controller Information.
pub const MGMT_OP_READ_INFO: u16 = 0x0004;

/// Set Powered.
pub const MGMT_OP_SET_POWERED: u16 = 0x0005;

/// Set Public Address.
pub const MGMT_OP_SET_PUBLIC_ADDRESS: u16 = 0x0039;

/// Command Complete.
pub const MGMT_EV_CMD_COMPLETE: u16 = 0x0001;

/// Command Status.
pub const MGMT_EV_CMD_STATUS: u16 = 0x0002;

/// How many replies are read before giving up on a command.
pub const MGMT_READS: u8 = 16;

/// A 16-bit number as two bytes, least significant first.
pub open spec fn le16(v: nat) -> Seq<u8> {
    seq![(v % 256) as u8, (v / 256 % 256) as u8]
}

/// The 16-bit number that two bytes spell, least significant first.
pub open spec fn from_le16(low: u8, high: u8) -> u16 {
    (low + 256 * high) as u16
}

/// A frame: code, controller index and length, each two bytes, then the parameters.
pub open spec fn frame(code: u16, index: u16, params: Seq<u8>) -> Seq<u8> {
    le16(code as nat) + le16(index as nat) + le16(params.len()) + params
}

fn push_le16(out: &mut Vec<u8>, v: u16)
    ensures
        final(out)@ == old(out)@ + le16(v as nat),
{
    let ghost before = out@;
    out.push((v % 256) as u8);
    out.push((v / 256) as u8);
    assert(out@ =~= before + le16(v as nat));
}

/// The bytes of a command: a header and the parameters.
pub fn encode_command(opcode: u16, index: u16, params: &[u8]) -> (r: Vec<u8>)
    ensures
        r@ == frame(opcode, index, params@),
{
    let mut cmd: Vec<u8> = Vec::new();
    push_le16(&mut cmd, opcode);
    push_le16(&mut cmd, index);
    let n: u16 = (params.len() % 0x1_0000) as u16;
    push_le16(&mut cmd, n);
    assert(le16(n as nat) =~= le16(params@.len()));
    cmd.extend_from_slice(params);
    assert(cmd@ =~= frame(opcode, index, params@));
    cmd
}

/// An address in the byte order of the wire: least significant first.
pub fn bdaddr_le(addr: [u8; 6]) -> (r: [u8; 6])
    ensures
        r@ == addr@.reverse(),
{
    let r = [addr[5], addr[4], addr[3], addr[2], addr[1], addr[0]];
    assert(r@ =~= addr@.reverse());
    r
}

/// Reversing the byte order twice gives the address back.
pub proof fn byte_order_is_an_involution(addr: Seq<u8>)
    ensures
        addr.reverse().reverse() == addr,
{
    assert(addr.reverse().reverse() =~= addr);
}

/// The fields of a frame read back as they were written.
pub proof fn frame_reads_back(code: u16, index: u16, params: Seq<u8>)
    requires
        params.len() <= u16::MAX,
    ensures
        frame(code, index, params).len() == 6 + params.len(),
        from_le16(frame(code, index, params)[0], frame(code, index, params)[1]) == code,
        from_le16(frame(code, index, params)[2], frame(code, index, params)[3]) == index,
        from_le16(frame(code, index, params)[4], frame(code, index, params)[5]) == params.len(),
        frame(code, index, params).skip(6) == params,
{
    let f = frame(code, index, params);
    assert(f.skip(6) =~= params);
}

/// The command that asks about a controller.
pub fn read_info_command(index: u16) -> (r: Vec<u8>)
    ensures
        r@ == frame(MGMT_OP_READ_INFO, index, Seq::empty()),
{
    let none: Vec<u8> = Vec::new();
    encode_command(MGMT_OP_READ_INFO, index, none.as_slice())
}

/// The command that powers a controller on or off.
pub fn set_powered_command(index: u16, on: bool) -> (r: Vec<u8>)
    ensures
        r@ == frame(
            MGMT_OP_SET_POWERED,
            index,
            seq![
                if on {
                    1u8
                } else {
                    0u8
                },
            ],
        ),
{
    let flag: u8 = if on {
        1
    } else {
        0
    };
    let mut params: Vec<u8> = Vec::new();
    params.push(flag);
    assert(params@ =~= seq![flag]);
    encode_command(MGMT_OP_SET_POWERED, index, params.as_slice())
}

/// The command that stages a public address, given most significant octet first.
pub fn set_public_address_command(index: u16, addr: [u8; 6]) -> (r: Vec<u8>)
    ensures
        r@ == frame(MGMT_OP_SET_PUBLIC_ADDRESS, index, addr@.reverse()),
{
    let wire = bdaddr_le(addr);
    encode_command(MGMT_OP_SET_PUBLIC_ADDRESS, index, wire.as_slice())
}

/// The commands that make a controller present an address, in order, each with its
/// opcode: off, stage the address, on.
pub fn spoof_commands(index: u16, addr: [u8; 6]) -> (r: Vec<(u16, Vec<u8>)>)
    ensures
        r@.len() == 3,
        r@[0].0 == MGMT_OP_SET_POWERED,
        r@[0].1@ == frame(MGMT_OP_SET_POWERED, index, seq![0u8]),
        r@[1].0 == MGMT_OP_SET_PUBLIC_ADDRESS,
        r@[1].1@ == frame(MGMT_OP_SET_PUBLIC_ADDRESS, index, addr@.reverse()),
        r@[2].0 == MGMT_OP_SET_POWERED,
        r@[2].1@ == frame(MGMT_OP_SET_POWERED, index, seq![1u8]),
{
    let mut r: Vec<(u16, Vec<u8>)> = Vec::new();
    r.push((MGMT_OP_SET_POWERED, set_powered_command(index, false)));
    r.push((MGMT_OP_SET_PUBLIC_ADDRESS, set_public_address_command(index, addr)));
    r.push((MGMT_OP_SET_POWERED, set_powered_command(index, true)));
    r
}

/// The parameters of an event, where the reply holds all of them.
pub open spec fn event_params(reply: Seq<u8>) -> Option<Seq<u8>> {
    if reply.len() < 6 {
        None
    } else {
        let n = from_le16(reply[4], reply[5]) as int;
        if 6 + n > reply.len() {
            None
        } else {
            Some(reply.subrange(6, 6 + n))
        }
    }
}

/// The code of an event.
pub open spec fn event_code(reply: Seq<u8>) -> u16 {
    from_le16(reply[0], reply[1])
}

/// What a reply says of a request for information: nothing, or the answer to it.
pub open spec fn info_answer(reply: Seq<u8>) -> Option<Option<ControllerInfo>> {
    if reply.len() < 6 {
        Some(None)
    } else {
        match event_params(reply) {
            None => None,
            Some(p) => if event_code(reply) == MGMT_EV_CMD_COMPLETE && p.len() >= 3 && from_le16(
                p[0],
                p[1],
            ) == MGMT_OP_READ_INFO {
                if p[2] != 0 || p.len() < 12 {
                    Some(None)
                } else {
                    Some(
                        Some(
                            ControllerInfo {
                                manufacturer: from_le16(p[10], p[11]),
                                hci_version: p[9],
                            },
                        ),
                    )
                }
            } else {
                None
            },
        }
    }
}

/// The words for a reply that is too short or did not come.
pub open spec fn short_reply() -> SetAddressErrorView {
    SetAddressErrorView::Io("short or timed-out mgmt reply"@)
}

/// The words for a command that was never answered.
pub open spec fn no_answer() -> SetAddressErrorView {
    SetAddressErrorView::Io("no mgmt command-complete for the requested opcode"@)
}

/// What a reply says of a command: nothing, or how it went.
pub open spec fn command_answer(opcode: u16, reply: Seq<u8>) -> Option<
    Result<(), SetAddressErrorView>,
> {
    if reply.len() < 6 {
        Some(Err(short_reply()))
    } else {
        match event_params(reply) {
            None => None,
            Some(p) => if (event_code(reply) == MGMT_EV_CMD_COMPLETE || event_code(reply)
                == MGMT_EV_CMD_STATUS) && p.len() >= 3 && from_le16(p[0], p[1]) == opcode {
                if p[2] == 0 {
                    Some(Ok(()))
                } else {
                    Some(Err(SetAddressErrorView::Command(p[2])))
                }
            } else {
                None
            },
        }
    }
}

/// A completed command is recognised, with its status, whatever it carries beyond it.
pub proof fn completion_is_recognised(opcode: u16, index: u16, status: u8, rest: Seq<u8>)
    requires
        3 + rest.len() <= u16::MAX,
    ensures
        command_answer(
            opcode,
            frame(MGMT_EV_CMD_COMPLETE, index, le16(opcode as nat).push(status) + rest),
        ) == Some(
            if status == 0 {
                Ok::<(), SetAddressErrorView>(())
            } else {
                Err(SetAddressErrorView::Command(status))
            },
        ),
{
    let p = le16(opcode as nat).push(status) + rest;
    let f = frame(MGMT_EV_CMD_COMPLETE, index, p);
    frame_reads_back(MGMT_EV_CMD_COMPLETE, index, p);
    assert(f.subrange(6, (6 + p.len()) as int) =~= p);
}

/// Two bytes as a number, least significant first.
fn word(low: u8, high: u8) -> (r: u16)
    ensures
        r == from_le16(low, high),
{
    low as u16 + 256 * (high as u16)
}

/// What to do after a reply to a request for information.
#[derive(Clone, Copy, Debug, PartialEq, Eq)]
pub enum InfoStep {
    /// Read another reply.
    More,
    /// Stop with this answer.
    Done(Option<ControllerInfo>),
}

/// Waits for the answer to a request for information, over a limited number of replies.
#[derive(Clone, Copy, Debug)]
pub struct InfoWait {
    /// How many replies may still be read.
    pub left: u8,
}

impl InfoWait {
    /// A fresh wait.
    pub fn new() -> (r: InfoWait)
        ensures
            r.left == MGMT_READS,
    {
        InfoWait { left: MGMT_READS }
    }

    /// Takes in a reply. Without an answer in it the wait goes on, up to the limit.
    pub fn on_reply(&mut self, reply: &[u8]) -> (r: InfoStep)
        requires
            old(self).left >= 1,
        ensures
            final(self).left == old(self).left - 1,
            r == match info_answer(reply@) {
                Some(answer) => InfoStep::Done(answer),
                None => if old(self).left == 1 {
                    InfoStep::Done(None)
                } else {
                    InfoStep::More
                },
            },
    {
        self.left = self.left - 1;
        if reply.len() < 6 {
            return InfoStep::Done(None);
        }
        let code: u16 = word(reply[0], reply[1]);
        let n: usize = word(reply[4], reply[5]) as usize;
        if n <= reply.len() - 6 && code == MGMT_EV_CMD_COMPLETE && n >= 3 {
            assert(event_params(reply@)->0 =~= reply@.subrange(6, 6 + n));
            let opcode: u16 = word(reply[6], reply[7]);
            if opcode == MGMT_OP_READ_INFO {
                if reply[8] != 0 || n < 12 {
                    return InfoStep::Done(None);
                }
                return InfoStep::Done(
                    Some(
                        ControllerInfo {
                            manufacturer: word(reply[16], reply[17]),
                            hci_version: reply[15],
                        },
                    ),
                );
            }
        }
        if self.left == 0 {
            InfoStep::Done(None)
        } else {
            InfoStep::More
        }
    }
}

/// What to do after a reply to a command.
#[derive(Debug)]
pub enum CommandStep {
    /// Read another reply.
    More,
    /// Stop with this result.
    Done(Result<(), SetAddressError>),
}

/// The result of a command as plain values.
pub open spec fn outcome_view(r: Result<(), SetAddressError>) -> Result<(), SetAddressErrorView> {
    match r {
        Ok(u) => Ok(u),
        Err(e) => Err(e@),
    }
}

/// Waits for the answer to a command, over a limited number of replies.
#[derive(Clone, Copy, Debug)]
pub struct CommandWait {
    /// The command waited for.
    pub opcode: u16,
    /// How many replies may still be read.
    pub left: u8,
}

impl CommandWait {
    /// A fresh wait for a command.
    pub fn new(opcode: u16) -> (r: CommandWait)
        ensures
            r.opcode == opcode,
            r.left == MGMT_READS,
    {
        CommandWait { opcode, left: MGMT_READS }
    }

    /// Takes in a reply. Without an answer in it the wait goes on, up to the limit.
    pub fn on_reply(&mut self, reply: &[u8]) -> (r: CommandStep)
        requires
            old(self).left >= 1,
        ensures
            final(self).opcode == old(self).opcode,
            final(self).left == old(self).left - 1,
            match command_answer(old(self).opcode, reply@) {
                Some(answer) => r matches CommandStep::Done(done) && outcome_view(done) == answer,
                None => if old(self).left == 1 {
                    r matches CommandStep::Done(done) && outcome_view(done) == Err::<
                        (),
                        SetAddressErrorView,
                    >(no_answer())
                } else {
                    r is More
                },
            },
    {
        self.left = self.left - 1;
        if reply.len() < 6 {
            return CommandStep::Done(
                Err(SetAddressError::Io("short or timed-out mgmt reply".to_owned())),
            );
        }
        let code: u16 = word(reply[0], reply[1]);
        let n: usize = word(reply[4], reply[5]) as usize;
        if n <= reply.len() - 6 && (code == MGMT_EV_CMD_COMPLETE || code == MGMT_EV_CMD_STATUS)
            && n >= 3 {
            assert(event_params(reply@)->0 =~= reply@.subrange(6, 6 + n));
            let opcode: u16 = word(reply[6], reply[7]);
            let status: u8 = reply[8];
            if opcode == self.opcode {
                if status == 0 {
                    return CommandStep::Done(Ok(()));
                }
                return CommandStep::Done(Err(SetAddressError::Command(status)));
            }
        }
        if self.left == 0 {
            CommandStep::Done(
                Err(
                    SetAddressError::Io(
                        "no mgmt command-complete for the requested opcode".to_owned(),
                    ),
                ),
            )
        } else {
            CommandStep::More
        }
    }
}

/// How many commands a change of address takes.
pub const SPOOF_COMMANDS: usize = 3;

/// What to do after a command of a change of address.
#[derive(Debug)]
pub enum SpoofProgress {
    /// Send the command at this place.
    Next(usize),
    /// Stop with this result.
    Done(Result<(), SetAddressError>),
}

/// Decides what follows the `done`th command of a change of address: the first that fails
/// ends the change with its error, and the last ends it well.
pub fn after_spoof_command(done: usize, result: Result<(), SetAddressError>) -> (r: SpoofProgress)
    ensures
        r == match result {
            Ok(_) => if done < SPOOF_COMMANDS {
                SpoofProgress::Next(done)
            } else {
                SpoofProgress::Done(Ok(()))
            },
            Err(e) => SpoofProgress::Done(Err(e)),
        },
{
    match result {
        Ok(_) => {
            if done < SPOOF_COMMANDS {
                SpoofProgress::Next(done)
            } else {
                SpoofProgress::Done(Ok(()))
            }
        },
        Err(e) => SpoofProgress::Done(Err(e)),
    }
}

} // verus!
