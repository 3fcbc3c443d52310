//! The control protocol of a console with several ports.
//!
//! Guest and device exchange messages of eight bytes, which some events
//! extend by a payload. The guest announces that it is ready; the device
//! answers with one message for each port. The guest announces each port
//! that it has set up; the device answers with what it knows of that port.
//! Either side tells the other when it opens or closes a port.

use crate::hostmem::{
    copy_result, gathered, iov_from_buf_direct, iov_prefix_len, iov_total_len,
    lemma_copy_keeps_len, lemma_prefix_len_grows, mapped, piece_len, piece_start, pieces_mapped, scattered, Iovec,
};
use crate::serial::{
    find_port_by_nr, has_port, place_of_port, ChardevStatus, SerialPort,
};
use crate::virtio::{
    as_iovecs, chain_len, gpa_hva_iovec_map, iov_to_buf, Element, VirtioError,
};
use crate::wire::{
    le_bytes_u16, le_bytes_u32, le_u16, le_u32, lemma_le_u16_round_trip,
    lemma_le_u32_round_trip, put_le_u16, put_le_u32, read_le_u16, read_le_u32,
};
use vstd::prelude::*;
use vstd::slice::{slice_subrange, slice_to_vec};
use vstd::utf8::encode_utf8;

verus! {

/// The guest is ready to receive control messages.
pub const VIRTIO_CONSOLE_DEVICE_READY: u16 = 0;

/// The device announces a port.
pub const VIRTIO_CONSOLE_PORT_ADD: u16 = 1;

/// The device withdraws a port.
pub const VIRTIO_CONSOLE_PORT_REMOVE: u16 = 2;

/// The guest has set up a port that the device announced.
pub const VIRTIO_CONSOLE_PORT_READY: u16 = 3;

/// The device names a port as a console.
pub const VIRTIO_CONSOLE_CONSOLE_PORT: u16 = 4;

/// The device tells a new console size.
pub const VIRTIO_CONSOLE_RESIZE: u16 = 5;

/// Either side opens or closes a port.
pub const VIRTIO_CONSOLE_PORT_OPEN: u16 = 6;

/// The device tells the name of a port.
pub const VIRTIO_CONSOLE_PORT_NAME: u16 = 7;

/// Size of a control message without payload.
pub const CONTROL_SIZE: usize = 8;

/// A control message without its payload.
#[derive(Debug, Clone, Copy, PartialEq, Eq)]
pub struct VirtioConsoleControl {
    /// Number of the port that the message is about.
    pub id: u32,
    /// What happened.
    pub event: u16,
    /// More about what happened.
    pub value: u16,
}

/// A control message on the wire: the port number in four bytes, the event
/// and the value in two each, all with the lowest byte first.
pub open spec fn control_bytes(ctrl: VirtioConsoleControl) -> Seq<u8> {
    le_bytes_u32(ctrl.id) + le_bytes_u16(ctrl.event) + le_bytes_u16(ctrl.value)
}

/// The control message that the first eight of `bytes` stand for.
pub open spec fn control_of_bytes(bytes: Seq<u8>) -> VirtioConsoleControl {
    VirtioConsoleControl {
        id: le_u32(bytes.subrange(0, 4)) as u32,
        event: le_u16(bytes.subrange(4, 6)) as u16,
        value: le_u16(bytes.subrange(6, 8)) as u16,
    }
}

/// The bytes of a control message stand for that message, whatever follows
/// them.
pub proof fn lemma_control_round_trip(ctrl: VirtioConsoleControl, extra: Seq<u8>)
    ensures
        control_bytes(ctrl).len() == CONTROL_SIZE,
        control_of_bytes(control_bytes(ctrl) + extra) == ctrl,
{
    lemma_le_u32_round_trip(ctrl.id);
    lemma_le_u16_round_trip(ctrl.event);
    lemma_le_u16_round_trip(ctrl.value);
    lemma_control_parts(
        le_bytes_u32(ctrl.id),
        le_bytes_u16(ctrl.event),
        le_bytes_u16(ctrl.value),
        extra,
    );
}

proof fn lemma_control_parts(id: Seq<u8>, event: Seq<u8>, value: Seq<u8>, extra: Seq<u8>)
    requires
        id.len() == 4,
        event.len() == 2,
        value.len() == 2,
    ensures
        ({
            let all = id + event + value + extra;
            &&& (id + event + value).len() == 8
            &&& all.subrange(0, 4) == id
            &&& all.subrange(4, 6) == event
            &&& all.subrange(6, 8) == value
        }),
{
    let all = id + event + value + extra;
    assert(all.subrange(0, 4) =~= id);
    assert(all.subrange(4, 6) =~= event);
    assert(all.subrange(6, 8) =~= value);
}

impl VirtioConsoleControl {
    /// The message on the wire.
    pub fn as_bytes(&self) -> (bytes: Vec<u8>)
        ensures
            bytes@ == control_bytes(*self),
            bytes@.len() == CONTROL_SIZE,
    {
        let mut bytes: Vec<u8> = Vec::new();
        put_le_u32(&mut bytes, self.id);
        put_le_u16(&mut bytes, self.event);
        put_le_u16(&mut bytes, self.value);
        bytes
    }

    /// The message that `bytes` begin with; none if they are fewer than a
    /// message has.
    pub fn from_bytes(bytes: &[u8]) -> (ctrl: Option<Self>)
        ensures
            ctrl == (if bytes@.len() >= CONTROL_SIZE {
                Some(control_of_bytes(bytes@))
            } else {
                None
            }),
    {
        if bytes.len() < CONTROL_SIZE {
            return None;
        }
        let id: u32 = read_le_u32(slice_subrange(bytes, 0, 4));
        let event: u16 = read_le_u16(slice_subrange(bytes, 4, 6));
        let value: u16 = read_le_u16(slice_subrange(bytes, 6, 8));
        Some(VirtioConsoleControl { id, event, value })
    }
}

/// A control message that the device sends, with its payload.
#[derive(Debug, Clone, PartialEq, Eq)]
pub struct ControlMsg {
    pub ctrl: VirtioConsoleControl,
    pub extra: Vec<u8>,
}

/// What a control message says.
pub struct ControlMsgView {
    pub ctrl: VirtioConsoleControl,
    pub extra: Seq<u8>,
}

impl View for ControlMsg {
    type V = ControlMsgView;

    open spec fn view(&self) -> ControlMsgView {
        ControlMsgView { ctrl: self.ctrl, extra: self.extra@ }
    }
}

/// What each of several control messages says.
pub open spec fn msg_views(msgs: Seq<ControlMsg>) -> Seq<ControlMsgView> {
    Seq::new(msgs.len(), |i: int| msgs[i]@)
}

/// A message without payload.
pub open spec fn plain_msg(id: u32, event: u16, value: u16) -> ControlMsgView {
    ControlMsgView { ctrl: VirtioConsoleControl { id, event, value }, extra: Seq::empty() }
}

/// The message that tells the name of port `id`: the name as UTF-8, closed
/// by a zero byte.
pub open spec fn name_msg(id: u32, name: Seq<char>) -> ControlMsgView {
    ControlMsgView {
        ctrl: VirtioConsoleControl { id, event: VIRTIO_CONSOLE_PORT_NAME, value: 1 },
        extra: encode_utf8(name) + seq![0u8],
    }
}

/// A control message on the wire: the message, then its payload.
pub open spec fn msg_bytes(msg: ControlMsgView) -> Seq<u8> {
    control_bytes(msg.ctrl) + msg.extra
}

impl ControlMsg {
    /// A message without payload.
    pub fn send_control_event(id: u32, event: u16, value: u16) -> (msg: Self)
        ensures
            msg@ == plain_msg(id, event, value),
    {
        ControlMsg { ctrl: VirtioConsoleControl { id, event, value }, extra: Vec::new() }
    }

    /// The message on the wire.
    pub fn as_bytes(&self) -> (bytes: Vec<u8>)
        ensures
            bytes@ == msg_bytes(self@),
    {
        pack_control_msg(self.ctrl.id, self.ctrl.event, self.ctrl.value, self.extra.as_slice())
    }
}

/// Packs a control message and its payload as they go on the wire.
pub fn pack_control_msg(id: u32, event: u16, value: u16, extra: &[u8]) -> (bytes: Vec<u8>)
    ensures
        bytes@ == control_bytes(VirtioConsoleControl { id, event, value }) + extra@,
        bytes@.len() == CONTROL_SIZE + extra@.len(),
{
    let ctrl = VirtioConsoleControl { id, event, value };
    let mut bytes: Vec<u8> = ctrl.as_bytes();
    let n: usize = extra.len();
    let mut i: usize = 0;
    while i < n
        invariant
            i <= n,
            n == extra@.len(),
            bytes@ == control_bytes(ctrl) + extra@.take(i as int),
        decreases n - i,
    {
        bytes.push(extra[i]);
        i += 1;
        proof {
            assert(bytes@ =~= control_bytes(ctrl) + extra@.take(i as int));
        }
    }
    proof {
        assert(extra@.take(n as int) =~= extra@);
    }
    bytes
}

/// What the device answers when the guest has set up `port`: that the port
/// is a console, if it is one; its name, if it has one; and that its host
/// side is open, if it is.
pub open spec fn port_ready_replies(port: SerialPort) -> Seq<ControlMsgView> {
    (if port.is_console {
        seq![plain_msg(port.nr, VIRTIO_CONSOLE_CONSOLE_PORT, 1)]
    } else {
        Seq::empty()
    }) + (match port.name {
        Some(name) => seq![name_msg(port.nr, name@)],
        None => Seq::empty(),
    }) + (if port.host_connected {
        seq![plain_msg(port.nr, VIRTIO_CONSOLE_PORT_OPEN, 1)]
    } else {
        Seq::empty()
    })
}

/// What the device answers to the control message `ctrl` of the guest.
///
/// To the guest being ready it answers with the announcement of every port,
/// in the order in which the device holds them. To a port being ready it
/// answers with what it knows of that port. It answers nothing to a message
/// whose value is 0 where the value must say yes, to a message about a port
/// that it does not have, and to any other event.
pub open spec fn control_replies(ports: Seq<SerialPort>, ctrl: VirtioConsoleControl) -> Seq<
    ControlMsgView,
> {
    if ctrl.event == VIRTIO_CONSOLE_DEVICE_READY {
        if ctrl.value == 0 {
            Seq::empty()
        } else {
            Seq::new(ports.len(), |i: int| plain_msg(ports[i].nr, VIRTIO_CONSOLE_PORT_ADD, 1))
        }
    } else if !has_port(ports, ctrl.id) {
        Seq::empty()
    } else if ctrl.event == VIRTIO_CONSOLE_PORT_READY && ctrl.value != 0 {
        port_ready_replies(ports[place_of_port(ports, ctrl.id)])
    } else {
        Seq::empty()
    }
}

/// The ports after the control message `ctrl` of the guest: when the guest
/// opens or closes a port that the device has, the first port with that
/// number takes note; nothing else changes anything.
pub open spec fn control_ports(ports: Seq<SerialPort>, ctrl: VirtioConsoleControl) -> Seq<
    SerialPort,
> {
    if ctrl.event == VIRTIO_CONSOLE_PORT_OPEN && has_port(ports, ctrl.id) {
        let at = place_of_port(ports, ctrl.id);
        ports.update(at, SerialPort { guest_connected: ctrl.value != 0, ..ports[at] })
    } else {
        ports
    }
}

fn port_ready_msgs(port: &SerialPort) -> (msgs: Vec<ControlMsg>)
    ensures
        msg_views(msgs@) == port_ready_replies(*port),
{
    let mut msgs: Vec<ControlMsg> = Vec::new();
    if port.is_console {
        msgs.push(ControlMsg::send_control_event(port.nr, VIRTIO_CONSOLE_CONSOLE_PORT, 1));
    }
    match &port.name {
        Some(name) => {
            let mut extra: Vec<u8> = slice_to_vec(name.as_str().as_bytes());
            extra.push(0);
            proof {
                assert(extra@ =~= encode_utf8(name@) + seq![0u8]);
            }
            msgs.push(
                ControlMsg {
                    ctrl: VirtioConsoleControl {
                        id: port.nr,
                        event: VIRTIO_CONSOLE_PORT_NAME,
                        value: 1,
                    },
                    extra,
                },
            );
        },
        None => {},
    }
    if port.host_connected {
        msgs.push(ControlMsg::send_control_event(port.nr, VIRTIO_CONSOLE_PORT_OPEN, 1));
    }
    proof {
        assert(msg_views(msgs@) =~= port_ready_replies(*port));
    }
    msgs
}

/// Deals with one control message of the guest: updates the ports and
/// returns the messages that the device sends in answer, in order.
pub fn handle_control_message(ports: &mut Vec<SerialPort>, ctrl: &VirtioConsoleControl) -> (msgs:
    Vec<ControlMsg>)
    ensures
        msg_views(msgs@) == control_replies(old(ports)@, *ctrl),
        final(ports)@ == control_ports(old(ports)@, *ctrl),
{
    if ctrl.event == VIRTIO_CONSOLE_DEVICE_READY {
        let mut msgs: Vec<ControlMsg> = Vec::new();
        if ctrl.value == 0 {
            proof {
                assert(msg_views(msgs@) =~= control_replies(ports@, *ctrl));
            }
            return msgs;
        }
        let n: usize = ports.len();
        let mut i: usize = 0;
        while i < n
            invariant
                i <= n,
                n == ports@.len(),
                ports@ == old(ports)@,
                msgs@.len() == i,
                msg_views(msgs@) == Seq::new(
                    i as nat,
                    |j: int| plain_msg(ports@[j].nr, VIRTIO_CONSOLE_PORT_ADD, 1),
                ),
            decreases n - i,
        {
            let ghost sent = msgs@;
            msgs.push(ControlMsg::send_control_event(ports[i].nr, VIRTIO_CONSOLE_PORT_ADD, 1));
            i += 1;
            proof {
                let want = Seq::new(
                    i as nat,
                    |j: int| plain_msg(ports@[j].nr, VIRTIO_CONSOLE_PORT_ADD, 1),
                );
                assert forall|j: int| 0 <= j < i implies msg_views(msgs@)[j] == want[j] by {
                    if j < i - 1 {
                        assert(msgs@[j] == sent[j]);
                        assert(msg_views(sent)[j] == sent[j]@);
                    }
                }
                assert(msg_views(msgs@) =~= want);
            }
        }
        return msgs;
    }
    let at: usize = match find_port_by_nr(ports, ctrl.id) {
        Some(at) => at,
        None => {
            let msgs: Vec<ControlMsg> = Vec::new();
            proof {
                assert(msg_views(msgs@) =~= control_replies(ports@, *ctrl));
            }
            return msgs;
        },
    };
    if ctrl.event == VIRTIO_CONSOLE_PORT_READY {
        if ctrl.value == 0 {
            let msgs: Vec<ControlMsg> = Vec::new();
            proof {
                assert(msg_views(msgs@) =~= control_replies(ports@, *ctrl));
            }
            return msgs;
        }
        port_ready_msgs(&ports[at])
    } else if ctrl.event == VIRTIO_CONSOLE_PORT_OPEN {
        ports[at].guest_connected = ctrl.value != 0;
        let msgs: Vec<ControlMsg> = Vec::new();
        proof {
            assert(msg_views(msgs@) =~= control_replies(old(ports)@, *ctrl));
            assert(ports@ =~= control_ports(old(ports)@, *ctrl));
        }
        msgs
    } else {
        let msgs: Vec<ControlMsg> = Vec::new();
        proof {
            assert(msg_views(msgs@) =~= control_replies(ports@, *ctrl));
        }
        msgs
    }
}

impl SerialPort {
    /// Takes note of what the character device tells of its host side, and
    /// returns the message that tells the guest. A device that closes is
    /// noted as closed, and the guest is told, even where it was told
    /// before. A device that opens is noted as open, and the guest is told,
    /// unless the host side was open already. Without a way to the control
    /// queues nothing is told.
    pub fn chardev_notify(&mut self, status: ChardevStatus) -> (msg: Option<ControlMsg>)
        ensures
            *final(self) == (SerialPort { host_connected: status is Open, ..*old(self) }),
            msg is Some <==> old(self).ctrl_attached && !(status is Open && old(
                self,
            ).host_connected),
            msg matches Some(m) ==> m@ == plain_msg(
                old(self).nr,
                VIRTIO_CONSOLE_PORT_OPEN,
                if status is Open {
                    1u16
                } else {
                    0u16
                },
            ),
    {
        let value: u16 = match status {
            ChardevStatus::Close => {
                self.host_connected = false;
                0
            },
            ChardevStatus::Open => {
                if self.host_connected {
                    return None;
                }
                self.host_connected = true;
                1
            },
        };
        if self.ctrl_attached {
            Some(ControlMsg::send_control_event(self.nr, VIRTIO_CONSOLE_PORT_OPEN, value))
        } else {
            None
        }
    }
}

/// A number of bytes as a 64-bit count, which stops at the largest count
/// there is.
pub open spec fn counted(n: nat) -> u64 {
    if n <= u64::MAX {
        n as u64
    } else {
        u64::MAX
    }
}

/// How sending a control message of `len` bytes into the buffers of `elem`
/// ends. With an empty queue nothing is sent, which is no failure: the guest
/// is expected to keep buffers posted. A buffer outside guest memory and
/// buffers too small for the message are failures. Otherwise the message is
/// sent, and the chain counts as used with the length of the message.
pub open spec fn control_send_result(size: nat, base: u64, elem: Element, len: nat) -> Result<
    Option<u32>,
    VirtioError,
> {
    if elem.desc_num == 0 {
        Ok(None)
    } else {
        let room = chain_len(elem.in_iovec@);
        match copy_result(size, base, as_iovecs(elem.in_iovec@), room) {
            Err(e) => Err(VirtioError::Mem(e)),
            Ok(_) => if room < len {
                Err(VirtioError::InvalidLength { got: counted(room), expected: len as u64 })
            } else {
                Ok(Some(len as u32))
            },
        }
    }
}

/// Guest memory after sending the control message `msg` into the buffers of
/// `elem`: a message that is sent lies in the buffers, in order; a message
/// that is not sent leaves no trace.
pub open spec fn control_send_mem(mem: Seq<u8>, base: u64, elem: Element, msg: Seq<u8>) -> Seq<u8> {
    match control_send_result(mem.len(), base, elem, msg.len()) {
        Ok(Some(_)) => scattered(
            mem,
            base,
            as_iovecs(elem.in_iovec@),
            msg,
            elem.in_iovec@.len(),
        ),
        _ => mem,
    }
}

/// Ranges that lie inside the window as a whole can take their share of any
/// buffer.
pub proof fn lemma_mapped_for_any_buffer(size: nat, base: u64, iovec: Seq<Iovec>, buf_len: nat)
    requires
        pieces_mapped(size, base, iovec, iov_total_len(iovec), iovec.len()),
    ensures
        pieces_mapped(size, base, iovec, buf_len, iovec.len()),
        buf_len <= iov_total_len(iovec) ==> piece_start(iovec, iovec.len(), buf_len) == buf_len,
{
    let total = iov_total_len(iovec);
    assert forall|i: int| 0 <= i < iovec.len() implies mapped(
        size,
        base,
        #[trigger] iovec[i].iov_base,
        piece_len(iovec, i as nat, buf_len),
    ) by {
        lemma_prefix_len_grows(iovec, i as nat, iovec.len());
        lemma_prefix_len_grows(iovec, (i + 1) as nat, iovec.len());
        assert(iov_prefix_len(iovec, (i + 1) as nat) == iov_prefix_len(iovec, i as nat)
            + iovec[i].iov_len);
        assert(piece_len(iovec, i as nat, total) == iovec[i].iov_len);
        assert(piece_len(iovec, i as nat, buf_len) <= iovec[i].iov_len);
        assert(mapped(size, base, iovec[i].iov_base, piece_len(iovec, i as nat, total)));
    }
}

/// Sends a control message to the guest, into the buffers of the chain
/// `elem` that was taken from the control queue that runs to the guest.
/// Returns the length with which the chain is to be marked as used, or
/// nothing where the queue was empty.
pub fn send_input_control_msg(
    mem: &mut [u8],
    base: u64,
    elem: &Element,
    id: u32,
    event: u16,
    value: u16,
    extra: &[u8],
) -> (r: Result<Option<u32>, VirtioError>)
    requires
        CONTROL_SIZE + extra@.len() <= u32::MAX,
    ensures
        r == control_send_result(
            old(mem)@.len(),
            base,
            *elem,
            (CONTROL_SIZE + extra@.len()) as nat,
        ),
        final(mem)@ == control_send_mem(
            old(mem)@,
            base,
            *elem,
            control_bytes(VirtioConsoleControl { id, event, value }) + extra@,
        ),
{
    if elem.desc_num == 0 {
        return Ok(None);
    }
    let (in_size, ranges) = match gpa_hva_iovec_map(mem.len(), base, elem.in_iovec.as_slice()) {
        Ok(mapped) => mapped,
        Err(e) => {
            return Err(e);
        },
    };
    let len: usize = CONTROL_SIZE + extra.len();
    if in_size < len as u64 {
        return Err(VirtioError::InvalidLength { got: in_size, expected: len as u64 });
    }
    let msg_data: Vec<u8> = pack_control_msg(id, event, value, extra);
    proof {
        lemma_mapped_for_any_buffer(mem@.len(), base, ranges@, len as nat);
    }
    match iov_from_buf_direct(mem, base, ranges.as_slice(), msg_data.as_slice()) {
        Ok(size) => {
            if size != len {
                return Err(VirtioError::InvalidLength { got: size as u64, expected: len as u64 });
            }
        },
        Err(e) => {
            return Err(VirtioError::Mem(e));
        },
    }
    Ok(Some(len as u32))
}

/// The control message that the guest sent in the buffers of `elem`: the
/// first eight bytes of the buffers. A chain with fewer bytes holds no
/// message. A chain with a buffer outside guest memory, among those that the
/// eight bytes come from, cannot be read at all.
pub open spec fn control_request(mem: Seq<u8>, base: u64, elem: Element) -> Result<
    Option<VirtioConsoleControl>,
    VirtioError,
> {
    let blank = Seq::new(CONTROL_SIZE as nat, |i: int| 0u8);
    match copy_result(mem.len(), base, as_iovecs(elem.out_iovec@), CONTROL_SIZE as nat) {
        Err(e) => Err(VirtioError::Mem(e)),
        Ok(n) => if n < CONTROL_SIZE {
            Ok(None)
        } else {
            Ok(
                Some(
                    control_of_bytes(
                        gathered(
                            mem,
                            base,
                            as_iovecs(elem.out_iovec@),
                            blank,
                            elem.out_iovec@.len(),
                        ),
                    ),
                ),
            )
        },
    }
}

/// What became of one chain of the control queue that runs to the device.
#[derive(Debug, Clone, PartialEq, Eq)]
pub struct ControlStep {
    /// The messages that the device sends in answer, in order.
    pub answers: Vec<ControlMsg>,
    /// The length with which the chain is to be marked as used.
    pub used_len: u32,
    /// Whether the chain was too short for a control message. Such a chain
    /// is handed back like any other, and the device stays in service.
    pub rejected: bool,
}

/// Deals with one chain `elem` that the guest posted on the control queue
/// that runs to the device: reads the control message in it, updates the
/// ports and returns the messages that the device sends in answer. Returns
/// nothing where the queue was empty. A chain that is too short for a
/// message is rejected: nothing changes and nothing is answered. Either way
/// the chain is to be marked as used with length 0. Only a chain that cannot
/// be read is a failure.
pub fn output_control_internal(
    ports: &mut Vec<SerialPort>,
    mem: &[u8],
    base: u64,
    elem: &Element,
) -> (r: Result<Option<ControlStep>, VirtioError>)
    ensures
        elem.desc_num == 0 ==> r == Ok::<Option<ControlStep>, VirtioError>(None) && final(ports)@
            == old(ports)@,
        elem.desc_num != 0 ==> match control_request(mem@, base, *elem) {
            Err(e) => r == Err::<Option<ControlStep>, VirtioError>(e) && final(ports)@ == old(
                ports,
            )@,
            Ok(None) => {
                &&& r matches Ok(Some(step))
                &&& r->Ok_0->Some_0.rejected
                &&& r->Ok_0->Some_0.used_len == 0
                &&& r->Ok_0->Some_0.answers@.len() == 0
                &&& final(ports)@ == old(ports)@
            },
            Ok(Some(ctrl)) => {
                &&& r matches Ok(Some(step))
                &&& !r->Ok_0->Some_0.rejected
                &&& r->Ok_0->Some_0.used_len == 0
                &&& msg_views(r->Ok_0->Some_0.answers@) == control_replies(old(ports)@, ctrl)
                &&& final(ports)@ == control_ports(old(ports)@, ctrl)
            },
        },
{
    if elem.desc_num == 0 {
        return Ok(None);
    }
    let mut req: Vec<u8> = vec![0u8; CONTROL_SIZE];
    proof {
        assert(req@ =~= Seq::new(CONTROL_SIZE as nat, |i: int| 0u8));
    }
    let size: usize = match iov_to_buf(mem, base, elem.out_iovec.as_slice(), req.as_mut_slice()) {
        Ok(size) => size,
        Err(e) => {
            return Err(e);
        },
    };
    proof {
        lemma_copy_keeps_len(
            mem@,
            base,
            as_iovecs(elem.out_iovec@),
            Seq::new(CONTROL_SIZE as nat, |i: int| 0u8),
            elem.out_iovec@.len(),
        );
    }
    if size < CONTROL_SIZE {
        return Ok(Some(ControlStep { answers: Vec::new(), used_len: 0, rejected: true }));
    }
    match VirtioConsoleControl::from_bytes(req.as_slice()) {
        Some(ctrl) => {
            let answers: Vec<ControlMsg> = handle_control_message(ports, &ctrl);
            Ok(Some(ControlStep { answers, used_len: 0, rejected: false }))
        },
        None => Ok(Some(ControlStep { answers: Vec::new(), used_len: 0, rejected: true })),
    }
}

} // verus!
