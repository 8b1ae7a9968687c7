//! The messages between the monitor and a page fault handler.

use vstd::prelude::*;

use super::page::PAGE_SIZE;

verus! {

/// The number that eight bytes hold, most significant byte first.
pub open spec fn be_value(bytes: Seq<u8>) -> int
    recommends
        bytes.len() == 8,
{
    bytes[0] * 0x100_0000_0000_0000 + bytes[1] * 0x1_0000_0000_0000 + bytes[2] * 0x100_0000_0000
        + bytes[3] * 0x1_0000_0000 + bytes[4] * 0x100_0000 + bytes[5] * 0x1_0000 + bytes[6] * 0x100
        + bytes[7]
}

/// The eight bytes of a number, most significant first.
pub open spec fn be_bytes(value: u64) -> Seq<u8> {
    seq![
        (value / 0x100_0000_0000_0000) as u8,
        (value / 0x1_0000_0000_0000 % 0x100) as u8,
        (value / 0x100_0000_0000 % 0x100) as u8,
        (value / 0x1_0000_0000 % 0x100) as u8,
        (value / 0x100_0000 % 0x100) as u8,
        (value / 0x1_0000 % 0x100) as u8,
        (value / 0x100 % 0x100) as u8,
        (value % 0x100) as u8,
    ]
}

/// Reads a number from eight bytes.
pub fn read_be(bytes: &[u8]) -> (value: u64)
    requires
        bytes@.len() == 8,
    ensures
        value == be_value(bytes@),
{
    bytes[0] as u64 * 0x100_0000_0000_0000 + bytes[1] as u64 * 0x1_0000_0000_0000 + bytes[2] as u64
        * 0x100_0000_0000 + bytes[3] as u64 * 0x1_0000_0000 + bytes[4] as u64 * 0x100_0000
        + bytes[5] as u64 * 0x1_0000 + bytes[6] as u64 * 0x100 + bytes[7] as u64
}

/// Appends the eight bytes of a number.
fn append_be(bytes: &mut Vec<u8>, value: u64)
    ensures
        final(bytes)@ == old(bytes)@ + be_bytes(value),
{
    bytes.push((value / 0x100_0000_0000_0000) as u8);
    bytes.push((value / 0x1_0000_0000_0000 % 0x100) as u8);
    bytes.push((value / 0x100_0000_0000 % 0x100) as u8);
    bytes.push((value / 0x1_0000_0000 % 0x100) as u8);
    bytes.push((value / 0x100_0000 % 0x100) as u8);
    bytes.push((value / 0x1_0000 % 0x100) as u8);
    bytes.push((value / 0x100 % 0x100) as u8);
    bytes.push((value % 0x100) as u8);
    assert(bytes@ =~= old(bytes)@ + be_bytes(value));
}

/// What a message on the monitor's socket is.
#[derive(Clone, Copy, Debug, PartialEq, Eq, Structural)]
pub enum MessageKind {
    /// The mappings of a new machine, with the descriptors for it.
    NewConnection,
    /// A fault, on the page frame of this number.
    Gfn(u64),
    /// Neither.
    Malformed,
}

/// The number of the page frame that a guest physical address lies in.
pub open spec fn frame_of(gpa: int) -> int {
    gpa / PAGE_SIZE as int
}

/// Tells what a message is from the first descriptor that came with it, zero for none, and its
/// bytes: with a descriptor it is about a new machine, and without one it is a fault, the bytes
/// being a guest physical address.
pub fn classify_message(first_fd: i32, bytes: &[u8]) -> (kind: MessageKind)
    ensures
        kind == if first_fd != 0 {
            MessageKind::NewConnection
        } else if bytes@.len() == 8 {
            MessageKind::Gfn(frame_of(be_value(bytes@)) as u64)
        } else {
            MessageKind::Malformed
        },
        kind is NewConnection <==> first_fd != 0,
        kind is Gfn <==> first_fd == 0 && bytes@.len() == 8,
        kind matches MessageKind::Gfn(gfn) ==> gfn * 4096 <= be_value(bytes@) < (gfn + 1) * 4096,
{
    if first_fd != 0 {
        MessageKind::NewConnection
    } else if bytes.len() == 8 {
        MessageKind::Gfn(read_be(bytes) / PAGE_SIZE)
    } else {
        MessageKind::Malformed
    }
}

/// The number of the page frame that an asynchronous page fault is about: the low half of the
/// event is the guest physical address.
pub fn async_fault_frame(event: u64) -> (gfn: u64)
    ensures
        gfn == frame_of(event as int % 0x1_0000_0000),
        gfn * 4096 <= event as int % 0x1_0000_0000 < (gfn + 1) * 4096,
{
    assert(event & 0xffff_ffff == event % 0x1_0000_0000) by (bit_vector);
    (event & 0xffff_ffff) / PAGE_SIZE
}

/// What a descriptor that was polled asks for.
#[derive(Clone, Copy, Debug, PartialEq, Eq, Structural)]
pub enum Ready {
    /// The other side has gone.
    Hangup,
    /// Nothing.
    Idle,
    /// A message of the monitor is to be read.
    Message,
    /// An asynchronous page fault is to be read.
    AsyncFault,
    /// A machine's descriptor has a fault to report.
    Event,
}

/// Tells what a descriptor asks for from whether the other side has gone and whether there is
/// something to read.
pub fn dispatch(hangup: bool, readable: bool, fd: i32, stream_fd: i32, apf_fd: i32) -> (ready: Ready)
    ensures
        ready == if hangup {
            Ready::Hangup
        } else if !readable {
            Ready::Idle
        } else if fd == stream_fd {
            Ready::Message
        } else if fd == apf_fd {
            Ready::AsyncFault
        } else {
            Ready::Event
        },
{
    if hangup {
        Ready::Hangup
    } else if !readable {
        Ready::Idle
    } else if fd == stream_fd {
        Ready::Message
    } else if fd == apf_fd {
        Ready::AsyncFault
    } else {
        Ready::Event
    }
}

/// How many descriptors are still to be served, of the `ready_count` that the poll counted, after
/// one that asks for something or not.
pub fn ready_left(ready_count: i32, ready: Ready) -> (left: i32)
    requires
        ready_count > 0,
    ensures
        left == if ready == Ready::Idle || ready == Ready::Hangup {
            ready_count as int
        } else {
            ready_count - 1
        },
{
    match ready {
        Ready::Idle | Ready::Hangup => ready_count,
        Ready::Message | Ready::AsyncFault | Ready::Event => ready_count - 1,
    }
}

/// Whether the monitor's socket is polled no longer after a message: it has brought a new machine
/// and has been closed on the other side, for reading or altogether.
pub fn skips_stream(new_connection: bool, read_hangup: bool, hangup: bool) -> (skip: bool)
    ensures
        skip == (new_connection && (read_hangup || hangup)),
{
    new_connection && (read_hangup || hangup)
}

/// A reply: an acknowledgement, which for an asynchronous fault is the event itself, and the guest
/// memory that has been filled.
pub fn encode_reply(ack: u64, gpa: u64, len: u64) -> (bytes: Vec<u8>)
    ensures
        bytes@ == be_bytes(ack) + be_bytes(gpa) + be_bytes(len),
{
    let mut bytes: Vec<u8> = Vec::new();
    append_be(&mut bytes, ack);
    append_be(&mut bytes, gpa);
    append_be(&mut bytes, len);
    assert(bytes@ =~= be_bytes(ack) + be_bytes(gpa) + be_bytes(len));
    bytes
}

} // verus!
