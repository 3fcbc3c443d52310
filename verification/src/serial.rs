//! The virtio console device: its ports, its feature negotiation, its
//! configuration space, the layout of its queues and its saved state.
//!
//! A console with N ports has 2N+2 queues. Queues 0 and 1 carry the data of
//! port 0, queues 2 and 3 the control messages, and queues 2k and 2k+1, from
//! k = 2 on, the data of port k-1; of each pair the first queue runs from host
//! to guest and the second from guest to host.
//!
//! The device itself is here; [`control`] holds the control protocol and
//! [`port`] the data path of a port.

pub mod control;
pub mod port;

use crate::virtio::{
    acknowledged, feature_page, read_config_default, read_u32, write_u64, VirtioBase, VirtioError,
    DEFAULT_VIRTQUEUE_SIZE, VIRTIO_CONSOLE_F_MULTIPORT, VIRTIO_CONSOLE_F_SIZE, VIRTIO_F_VERSION_1,
    VIRTIO_TYPE_CONSOLE,
};
use crate::wire::{
    le_bytes_u16, le_bytes_u32, le_bytes_u64, le_u16, le_u32, le_u64, lemma_le_u16_round_trip,
    lemma_le_u32_round_trip, lemma_le_u64_round_trip, put_le_u16, put_le_u32, put_le_u64,
    read_le_u16, read_le_u32, read_le_u64,
};
use vstd::prelude::*;
use vstd::slice::slice_subrange;

verus! {

/// What stands behind a character device on the host.
#[derive(Debug, Clone, Copy, PartialEq, Eq)]
pub enum ChardevType {
    Stdio,
    Pty,
    Socket,
    File,
}

/// What a character device tells of its host side.
#[derive(Debug, Clone, Copy, PartialEq, Eq)]
pub enum ChardevStatus {
    Close,
    Open,
}

/// Where a device sits on the PCI bus.
#[derive(Debug, PartialEq, Eq)]
pub struct PciBdf {
    pub bus: String,
    pub addr: (u8, u8),
}

/// How the user configured the console device.
#[derive(Debug, PartialEq, Eq)]
pub struct VirtioSerialInfo {
    pub id: String,
    pub pci_bdf: Option<PciBdf>,
    pub multifunction: bool,
    pub max_ports: u32,
}

/// How the user configured one port.
#[derive(Debug, Clone, PartialEq, Eq)]
pub struct VirtioSerialPort {
    pub id: String,
    pub backend: ChardevType,
    pub nr: u32,
    pub is_console: bool,
}

/// One port of the console: a channel between a character device on the host
/// and the guest, known to both by its number.
#[derive(Debug, Clone, PartialEq, Eq)]
pub struct SerialPort {
    pub name: Option<String>,
    /// Number of the port.
    pub nr: u32,
    /// Whether the port is a console.
    pub is_console: bool,
    /// Whether the guest has opened the port.
    pub guest_connected: bool,
    /// Whether the host side of the port is open.
    pub host_connected: bool,
    /// Whether the data queues of the port are wired up.
    pub activated: bool,
    /// Whether the port can reach the control queues.
    pub ctrl_attached: bool,
}

impl SerialPort {
    /// A port as configured. The guest has not opened it yet. Its host side
    /// counts as open if the port is a console or if a pseudo-terminal stands
    /// behind it, which is open from the start.
    pub fn new(port_cfg: VirtioSerialPort) -> (port: Self)
        ensures
            port.name == Some(port_cfg.id),
            port.nr == port_cfg.nr,
            port.is_console == port_cfg.is_console,
            !port.guest_connected,
            port.host_connected == (port_cfg.is_console || port_cfg.backend is Pty),
            !port.activated,
            !port.ctrl_attached,
    {
        let is_pty: bool = match port_cfg.backend {
            ChardevType::Pty => true,
            _ => false,
        };
        let host_connected: bool = port_cfg.is_console || is_pty;
        SerialPort {
            name: Some(port_cfg.id),
            nr: port_cfg.nr,
            is_console: port_cfg.is_console,
            guest_connected: false,
            host_connected,
            activated: false,
            ctrl_attached: false,
        }
    }

    /// Prepares the port for use: until its queues are wired up it takes no
    /// input.
    pub fn realize(&mut self)
        ensures
            *final(self) == (SerialPort { activated: false, ..*old(self) }),
    {
        self.activated = false;
    }

    /// Marks the data queues of the port as wired up.
    pub fn activate(&mut self)
        ensures
            *final(self) == (SerialPort { activated: true, ..*old(self) }),
    {
        self.activated = true;
    }

    /// Takes the port out of service: its queues are gone, the guest no
    /// longer counts as connected, and the control queues are out of reach.
    pub fn deactivate(&mut self)
        ensures
            *final(self) == (SerialPort {
                activated: false,
                guest_connected: false,
                ctrl_attached: false,
                ..*old(self)
            }),
    {
        self.activated = false;
        self.guest_connected = false;
        self.ctrl_attached = false;
    }
}

/// Whether some port has the number `nr`.
pub open spec fn has_port(ports: Seq<SerialPort>, nr: u32) -> bool {
    exists|i: int| 0 <= i < ports.len() && (#[trigger] ports[i]).nr == nr
}

/// Whether place `i` holds the first port with the number `nr`.
pub open spec fn first_port_with_nr(ports: Seq<SerialPort>, nr: u32, i: int) -> bool {
    &&& 0 <= i < ports.len()
    &&& ports[i].nr == nr
    &&& forall|j: int| 0 <= j < i ==> (#[trigger] ports[j]).nr != nr
}

/// The place of the first port with the number `nr`.
pub open spec fn place_of_port(ports: Seq<SerialPort>, nr: u32) -> int {
    choose|i: int| first_port_with_nr(ports, nr, i)
}

/// The first port with the number `nr`, if there is one.
pub open spec fn port_by_nr(ports: Seq<SerialPort>, nr: u32) -> Option<usize> {
    if has_port(ports, nr) {
        Some(place_of_port(ports, nr) as usize)
    } else {
        None
    }
}

/// A place that holds a port with the number is the first such place if none
/// before it holds one.
pub proof fn lemma_place_of_port(ports: Seq<SerialPort>, nr: u32, i: int)
    requires
        first_port_with_nr(ports, nr, i),
    ensures
        has_port(ports, nr),
        place_of_port(ports, nr) == i,
{
    let c = place_of_port(ports, nr);
    assert(first_port_with_nr(ports, nr, c));
    if c < i {
        assert(ports[c].nr != nr);
    }
    if i < c {
        assert(ports[i].nr != nr);
    }
}

/// The largest port number in use; 0 if there is no port.
pub fn get_max_nr(ports: &Vec<SerialPort>) -> (max: u32)
    ensures
        forall|i: int| 0 <= i < ports@.len() ==> (#[trigger] ports@[i]).nr <= max,
        max == 0 || has_port(ports@, max),
{
    let n: usize = ports.len();
    let mut max: u32 = 0;
    let mut i: usize = 0;
    while i < n
        invariant
            i <= n,
            n == ports@.len(),
            forall|j: int| 0 <= j < i ==> (#[trigger] ports@[j]).nr <= max,
            max == 0 || has_port(ports@, max),
        decreases n - i,
    {
        let nr: u32 = ports[i].nr;
        if nr > max {
            max = nr;
            assert(ports@[i as int].nr == max);
        }
        i += 1;
    }
    max
}

/// The place of the first port with the number `nr`, if there is such a
/// port.
pub fn find_port_by_nr(ports: &Vec<SerialPort>, nr: u32) -> (found: Option<usize>)
    ensures
        found == port_by_nr(ports@, nr),
        found matches Some(i) ==> first_port_with_nr(ports@, nr, i as int),
{
    let n: usize = ports.len();
    let mut i: usize = 0;
    while i < n
        invariant
            i <= n,
            n == ports@.len(),
            forall|j: int| 0 <= j < i ==> (#[trigger] ports@[j]).nr != nr,
        decreases n - i,
    {
        if ports[i].nr == nr {
            proof {
                lemma_place_of_port(ports@, nr, i as int);
            }
            return Some(i);
        }
        i += 1;
    }
    None
}

/// Size of the configuration space in bytes.
pub const CONFIG_SPACE_SIZE: usize = 12;

/// Size of a saved device state in bytes: the two feature words and the
/// configuration space, filled up to a multiple of eight.
pub const STATE_SIZE: usize = 32;

/// The configuration space of the console, which the guest may read and not
/// write.
#[derive(Debug, Clone, Copy, PartialEq, Eq)]
pub struct VirtioConsoleConfig {
    /// Columns of the console, told if the size feature is agreed on.
    pub cols: u16,
    /// Rows of the console.
    pub rows: u16,
    /// Largest number of ports that the device supports.
    pub max_nr_ports: u32,
    /// For emergency writes, which this device does not offer.
    pub emerg_wr: u32,
}

/// The configuration space as the guest sees it: twelve bytes, the fields in
/// order, each with its lowest byte first.
pub open spec fn config_bytes(config: VirtioConsoleConfig) -> Seq<u8> {
    le_bytes_u16(config.cols) + le_bytes_u16(config.rows) + le_bytes_u32(config.max_nr_ports)
        + le_bytes_u32(config.emerg_wr)
}

impl VirtioConsoleConfig {
    /// The configuration of a console with room for `max_nr_ports` ports.
    pub fn new(max_nr_ports: u32) -> (config: Self)
        ensures
            config == (VirtioConsoleConfig { cols: 0, rows: 0, max_nr_ports, emerg_wr: 0 }),
    {
        VirtioConsoleConfig { cols: 0u16, rows: 0u16, max_nr_ports, emerg_wr: 0u32 }
    }

    /// The configuration space as the guest sees it.
    pub fn as_bytes(&self) -> (bytes: Vec<u8>)
        ensures
            bytes@ == config_bytes(*self),
            bytes@.len() == CONFIG_SPACE_SIZE,
    {
        let mut bytes: Vec<u8> = Vec::new();
        put_le_u16(&mut bytes, self.cols);
        put_le_u16(&mut bytes, self.rows);
        put_le_u32(&mut bytes, self.max_nr_ports);
        put_le_u32(&mut bytes, self.emerg_wr);
        proof {
            assert(bytes@ =~= config_bytes(*self));
        }
        bytes
    }
}

/// What is saved of a console when the machine migrates. The state of the
/// ports is not part of it: the guest negotiates it anew.
#[derive(Debug, Clone, Copy, PartialEq, Eq)]
pub struct VirtioSerialState {
    /// Features that the device offers.
    pub device_features: u64,
    /// Features that device and driver agreed on.
    pub driver_features: u64,
    /// The configuration space.
    pub config_space: VirtioConsoleConfig,
}

/// A saved state as bytes: the two feature words, the configuration space,
/// and four bytes of zero.
pub open spec fn state_bytes(state: VirtioSerialState) -> Seq<u8> {
    le_bytes_u64(state.device_features) + le_bytes_u64(state.driver_features) + config_bytes(
        state.config_space,
    ) + seq![0u8, 0u8, 0u8, 0u8]
}

/// The state that 32 bytes stand for.
pub open spec fn state_of_bytes(bytes: Seq<u8>) -> VirtioSerialState {
    VirtioSerialState {
        device_features: le_u64(bytes.subrange(0, 8)) as u64,
        driver_features: le_u64(bytes.subrange(8, 16)) as u64,
        config_space: VirtioConsoleConfig {
            cols: le_u16(bytes.subrange(16, 18)) as u16,
            rows: le_u16(bytes.subrange(18, 20)) as u16,
            max_nr_ports: le_u32(bytes.subrange(20, 24)) as u32,
            emerg_wr: le_u32(bytes.subrange(24, 28)) as u32,
        },
    }
}

/// The parts of a saved state are found again at their places.
proof fn lemma_state_parts(
    device: Seq<u8>,
    driver: Seq<u8>,
    cols: Seq<u8>,
    rows: Seq<u8>,
    ports: Seq<u8>,
    emerg: Seq<u8>,
    fill: Seq<u8>,
)
    requires
        device.len() == 8,
        driver.len() == 8,
        cols.len() == 2,
        rows.len() == 2,
        ports.len() == 4,
        emerg.len() == 4,
        fill.len() == 4,
    ensures
        ({
            let all = device + driver + (cols + rows + ports + emerg) + fill;
            &&& all.len() == 32
            &&& all.subrange(0, 8) == device
            &&& all.subrange(8, 16) == driver
            &&& all.subrange(16, 18) == cols
            &&& all.subrange(18, 20) == rows
            &&& all.subrange(20, 24) == ports
            &&& all.subrange(24, 28) == emerg
        }),
{
    let all = device + driver + (cols + rows + ports + emerg) + fill;
    assert(all.subrange(0, 8) =~= device);
    assert(all.subrange(8, 16) =~= driver);
    assert(all.subrange(16, 18) =~= cols);
    assert(all.subrange(18, 20) =~= rows);
    assert(all.subrange(20, 24) =~= ports);
    assert(all.subrange(24, 28) =~= emerg);
}

/// The bytes of a saved state stand for that state.
pub proof fn lemma_state_round_trip(state: VirtioSerialState)
    ensures
        state_bytes(state).len() == STATE_SIZE,
        state_of_bytes(state_bytes(state)) == state,
{
    let c = state.config_space;
    lemma_le_u64_round_trip(state.device_features);
    lemma_le_u64_round_trip(state.driver_features);
    lemma_le_u16_round_trip(c.cols);
    lemma_le_u16_round_trip(c.rows);
    lemma_le_u32_round_trip(c.max_nr_ports);
    lemma_le_u32_round_trip(c.emerg_wr);
    lemma_state_parts(
        le_bytes_u64(state.device_features),
        le_bytes_u64(state.driver_features),
        le_bytes_u16(c.cols),
        le_bytes_u16(c.rows),
        le_bytes_u32(c.max_nr_ports),
        le_bytes_u32(c.emerg_wr),
        seq![0u8, 0u8, 0u8, 0u8],
    );
}

impl VirtioSerialState {
    /// The state as bytes.
    pub fn as_bytes(&self) -> (bytes: Vec<u8>)
        ensures
            bytes@ == state_bytes(*self),
            bytes@.len() == STATE_SIZE,
    {
        let mut bytes: Vec<u8> = Vec::new();
        put_le_u64(&mut bytes, self.device_features);
        put_le_u64(&mut bytes, self.driver_features);
        put_le_u16(&mut bytes, self.config_space.cols);
        put_le_u16(&mut bytes, self.config_space.rows);
        put_le_u32(&mut bytes, self.config_space.max_nr_ports);
        put_le_u32(&mut bytes, self.config_space.emerg_wr);
        bytes.push(0);
        bytes.push(0);
        bytes.push(0);
        bytes.push(0);
        proof {
            assert(bytes@ =~= state_bytes(*self));
        }
        bytes
    }

    /// The state that `bytes` stand for, if they are as many as a state has.
    pub fn from_bytes(bytes: &[u8]) -> (state: Option<Self>)
        ensures
            state == (if bytes@.len() == STATE_SIZE {
                Some(state_of_bytes(bytes@))
            } else {
                None
            }),
    {
        if bytes.len() != STATE_SIZE {
            return None;
        }
        let device_features: u64 = read_le_u64(slice_subrange(bytes, 0, 8));
        let driver_features: u64 = read_le_u64(slice_subrange(bytes, 8, 16));
        let cols: u16 = read_le_u16(slice_subrange(bytes, 16, 18));
        let rows: u16 = read_le_u16(slice_subrange(bytes, 18, 20));
        let max_nr_ports: u32 = read_le_u32(slice_subrange(bytes, 20, 24));
        let emerg_wr: u32 = read_le_u32(slice_subrange(bytes, 24, 28));
        Some(
            VirtioSerialState {
                device_features,
                driver_features,
                config_space: VirtioConsoleConfig { cols, rows, max_nr_ports, emerg_wr },
            },
        )
    }
}

/// The features that a console offers: compliance with version 1, the
/// console size and several ports.
pub const SERIAL_FEATURES: u64 = 0x1_0000_0003;

/// The console device.
#[derive(Debug, Clone, PartialEq, Eq)]
pub struct Serial {
    /// What every virtio device keeps.
    pub base: VirtioBase,
    /// The configuration space.
    pub config_space: VirtioConsoleConfig,
    /// Largest number of ports.
    pub max_nr_ports: u32,
    /// The ports, in the order in which they were added.
    pub ports: Vec<SerialPort>,
}

/// How one port is wired to its pair of queues.
#[derive(Debug, Clone, Copy, PartialEq, Eq)]
pub struct PortBinding {
    /// Number of the port that the queues belong to.
    pub nr: u32,
    /// The queue from host to guest.
    pub rx_queue: u64,
    /// The queue from guest to host.
    pub tx_queue: u64,
    /// Place of the port among the ports of the device, if the device has a
    /// port with that number. Without one, what arrives on the queues is
    /// thrown away.
    pub port: Option<usize>,
}

/// The control queue from host to guest.
pub const CONTROL_RX_QUEUE: u64 = 2;

/// The control queue from guest to host.
pub const CONTROL_TX_QUEUE: u64 = 3;

/// The number of the port that queue `queue` belongs to; the control queues
/// belong to none.
pub open spec fn queue_port_nr(queue: u64) -> Option<u32> {
    let pair = queue / 2;
    if pair == 1 {
        None
    } else if pair == 0 {
        Some(0u32)
    } else {
        Some((pair - 1) as u32)
    }
}

/// The queue from host to guest of port `nr`.
pub open spec fn rx_queue_of_port(nr: u32) -> u64 {
    if nr == 0 {
        0
    } else {
        (2 * (nr + 1)) as u64
    }
}

/// How many ports `queue_count` queues serve: every pair of queues but the
/// control pair serves one.
pub open spec fn bound_ports(queue_count: u64) -> nat {
    let pairs = queue_count / 2;
    if pairs >= 2 {
        (pairs - 1) as nat
    } else {
        pairs as nat
    }
}

/// The wiring of port number `nr`.
pub open spec fn binding_of(ports: Seq<SerialPort>, nr: u32) -> PortBinding {
    PortBinding {
        nr,
        rx_queue: rx_queue_of_port(nr),
        tx_queue: (rx_queue_of_port(nr) + 1) as u64,
        port: port_by_nr(ports, nr),
    }
}

/// The wiring of all ports that `queue_count` queues serve, in the order of
/// the port numbers.
pub open spec fn bindings_of(ports: Seq<SerialPort>, queue_count: u64) -> Seq<PortBinding> {
    Seq::new(bound_ports(queue_count), |nr: int| binding_of(ports, nr as u32))
}

/// Whether activation wires the port at place `i`: it is the first with its
/// number, and the queues serve that number.
pub open spec fn is_wired(ports: Seq<SerialPort>, queue_count: u64, i: int) -> bool {
    ports[i].nr < bound_ports(queue_count) && first_port_with_nr(ports, ports[i].nr, i)
}

/// The ports after activation: those that got queues are marked, and all can
/// reach the control queues.
pub open spec fn activated_ports(ports: Seq<SerialPort>, queue_count: u64) -> Seq<SerialPort> {
    Seq::new(
        ports.len(),
        |i: int|
            SerialPort {
                activated: ports[i].activated || is_wired(ports, queue_count, i),
                ctrl_attached: true,
                ..ports[i]
            },
    )
}

/// The ports after deactivation.
pub open spec fn deactivated_ports(ports: Seq<SerialPort>) -> Seq<SerialPort> {
    Seq::new(
        ports.len(),
        |i: int|
            SerialPort {
                activated: false,
                guest_connected: false,
                ctrl_attached: false,
                ..ports[i]
            },
    )
}

/// The number of the port that queue `queue` belongs to; the control queues
/// belong to none.
pub fn port_of_queue(queue: u64) -> (nr: Option<u32>)
    requires
        queue / 2 <= 0x1_0000_0000,
    ensures
        nr == queue_port_nr(queue),
{
    let pair: u64 = queue / 2;
    if pair == 1 {
        None
    } else if pair == 0 {
        Some(0)
    } else {
        Some((pair - 1) as u32)
    }
}

/// The queues that a port is bound to belong to that port, and the control
/// queues belong to none: queues 0 and 1 are those of port 0, queues 2 and 3
/// carry control messages, and from there on each pair belongs to the next
/// port.
pub proof fn lemma_queue_layout(nr: u32)
    ensures
        queue_port_nr(rx_queue_of_port(nr)) == Some(nr),
        queue_port_nr((rx_queue_of_port(nr) + 1) as u64) == Some(nr),
        queue_port_nr(CONTROL_RX_QUEUE) is None,
        queue_port_nr(CONTROL_TX_QUEUE) is None,
{
}

/// Negotiation agrees on exactly the features that are both offered and
/// requested: once the driver has acknowledged the two halves of `requested`,
/// in either order, the agreed features are `device & requested`, whatever
/// was agreed on before.
pub proof fn lemma_negotiated_features(device: u64, driver: u64, requested: u64)
    ensures
        acknowledged(
            device,
            acknowledged(device, driver, 0, feature_page(requested, 0)),
            1,
            feature_page(requested, 1),
        ) == device & requested,
        acknowledged(
            device,
            acknowledged(device, driver, 1, feature_page(requested, 1)),
            0,
            feature_page(requested, 0),
        ) == device & requested,
{
    let low: u32 = feature_page(requested, 0) & feature_page(device, 0);
    let high: u32 = feature_page(requested, 1) & feature_page(device, 1);
    assert(low == ((requested % 0x1_0000_0000) as u32) & ((device % 0x1_0000_0000) as u32));
    assert(high == ((requested / 0x1_0000_0000) as u32) & ((device / 0x1_0000_0000) as u32));
    assert((((requested / 0x1_0000_0000) as u32) & ((device / 0x1_0000_0000) as u32)) as u64
        * 0x1_0000_0000 + ((((requested % 0x1_0000_0000) as u32) & ((device % 0x1_0000_0000) as u32))
        as u64) == device & requested) by (bit_vector);
}

/// What the driver acknowledges and the device does not offer is not agreed
/// on: a page on which the device offers nothing of what is acknowledged
/// ends up empty.
pub proof fn lemma_unoffered_features(device: u64, driver: u64, page: u32, value: u32)
    requires
        page <= 1,
        value & feature_page(device, page) == 0,
    ensures
        feature_page(acknowledged(device, driver, page, value), page) == 0,
{
}

impl Serial {
    /// What holds of every console: it has two queues for each port that it
    /// may have, and two for control.
    pub open spec fn wf(&self) -> bool {
        self.base.queue_num == 2 * self.max_nr_ports + 2
    }

    /// A console as configured, with two queues for each port and two for
    /// control, and without ports yet.
    pub fn new(serial_cfg: VirtioSerialInfo) -> (serial: Self)
        ensures
            serial.wf(),
            serial.base == (VirtioBase {
                device_type: VIRTIO_TYPE_CONSOLE,
                queue_num: (2 * serial_cfg.max_ports + 2) as u64,
                queue_size_max: DEFAULT_VIRTQUEUE_SIZE,
                device_features: 0,
                driver_features: 0,
                broken: false,
            }),
            serial.config_space == (VirtioConsoleConfig {
                cols: 0,
                rows: 0,
                max_nr_ports: serial_cfg.max_ports,
                emerg_wr: 0,
            }),
            serial.max_nr_ports == serial_cfg.max_ports,
            serial.ports@.len() == 0,
    {
        let queue_num: u64 = (serial_cfg.max_ports as u64) * 2 + 2;
        Serial {
            base: VirtioBase::new(VIRTIO_TYPE_CONSOLE, queue_num, DEFAULT_VIRTQUEUE_SIZE),
            config_space: VirtioConsoleConfig::new(serial_cfg.max_ports),
            max_nr_ports: serial_cfg.max_ports,
            ports: Vec::new(),
        }
    }

    /// Number of queues of the device.
    pub fn queue_num(&self) -> (n: u64)
        ensures
            n == self.base.queue_num,
    {
        self.base.queue_num
    }

    /// Makes the device ready for the guest: sets the features it offers.
    pub fn realize(&mut self)
        ensures
            *final(self) == (Serial {
                base: VirtioBase { device_features: SERIAL_FEATURES, ..old(self).base },
                ..*old(self)
            }),
    {
        self.init_config_features();
    }

    /// Sets the features that the device offers.
    pub fn init_config_features(&mut self)
        ensures
            *final(self) == (Serial {
                base: VirtioBase { device_features: SERIAL_FEATURES, ..old(self).base },
                ..*old(self)
            }),
    {
        let features: u64 = 1u64 << VIRTIO_F_VERSION_1 | 1u64 << VIRTIO_CONSOLE_F_SIZE | 1u64
            << VIRTIO_CONSOLE_F_MULTIPORT;
        assert(1u64 << 32u32 | 1u64 << 0u32 | 1u64 << 1u32 == 0x1_0000_0003u64) by (bit_vector);
        self.base.device_features = features;
    }

    /// One page of the features that the device offers.
    pub fn device_features(&self, features_select: u32) -> (page: u32)
        ensures
            page == feature_page(self.base.device_features, features_select),
    {
        read_u32(self.base.device_features, features_select)
    }

    /// One page of the features that device and driver agreed on.
    pub fn driver_features(&self, features_select: u32) -> (page: u32)
        ensures
            page == feature_page(self.base.driver_features, features_select),
    {
        read_u32(self.base.driver_features, features_select)
    }

    /// Takes the driver's acknowledgement of the features `value` on page
    /// `page`. Of the acknowledged features only those that the device offers
    /// on that page are agreed on: they are the new content of the page. The
    /// other page stays as it is.
    pub fn set_driver_features(&mut self, page: u32, value: u32)
        ensures
            *final(self) == (Serial {
                base: VirtioBase {
                    driver_features: acknowledged(
                        old(self).base.device_features,
                        old(self).base.driver_features,
                        page,
                        value,
                    ),
                    ..old(self).base
                },
                ..*old(self)
            }),
            page <= 1 ==> feature_page(final(self).base.driver_features, page) == value
                & feature_page(old(self).base.device_features, page),
            page <= 1 ==> feature_page(final(self).base.driver_features, (1 - page) as u32)
                == feature_page(old(self).base.driver_features, (1 - page) as u32),
    {
        let agreed: u32 = value & self.device_features(page);
        let features: u64 = if page == 0 {
            write_u64(agreed, self.driver_features(1))
        } else {
            write_u64(self.driver_features(0), agreed)
        };
        self.base.driver_features = features;
    }

    /// Reads the part of the configuration space that starts at `offset` and
    /// is as long as `data`. A part that reaches beyond the twelve bytes of
    /// the space is refused.
    pub fn read_config(&self, offset: u64, data: &mut [u8]) -> (r: Result<(), VirtioError>)
        ensures
            offset + old(data)@.len() <= CONFIG_SPACE_SIZE ==> r is Ok && final(data)@
                == config_bytes(self.config_space).subrange(
                offset as int,
                offset + old(data)@.len(),
            ),
            offset + old(data)@.len() > CONFIG_SPACE_SIZE ==> final(data)@ == old(data)@ && r
                == Err::<(), VirtioError>(
                VirtioError::DevConfigOverflow {
                    offset,
                    len: old(data)@.len() as u64,
                    size: CONFIG_SPACE_SIZE as u64,
                },
            ),
    {
        let config: Vec<u8> = self.config_space.as_bytes();
        read_config_default(config.as_slice(), offset, data)
    }

    /// Refuses to write the configuration space, whatever is to be written.
    pub fn write_config(&mut self, _offset: u64, _data: &[u8]) -> (r: Result<(), VirtioError>)
        ensures
            r == Err::<(), VirtioError>(VirtioError::ConfigWriteUnsupported),
            *final(self) == *old(self),
    {
        Err(VirtioError::ConfigWriteUnsupported)
    }

    /// Records that the device met an error it cannot recover from. From then
    /// on its handlers do nothing.
    pub fn report_virtio_error(&mut self)
        ensures
            *final(self) == (Serial {
                base: VirtioBase { broken: true, ..old(self).base },
                ..*old(self)
            }),
    {
        self.base.broken = true;
    }

    /// What is saved of the device when the machine migrates.
    pub fn get_state(&self) -> (state: VirtioSerialState)
        ensures
            state == (VirtioSerialState {
                device_features: self.base.device_features,
                driver_features: self.base.driver_features,
                config_space: self.config_space,
            }),
    {
        VirtioSerialState {
            device_features: self.base.device_features,
            driver_features: self.base.driver_features,
            config_space: self.config_space,
        }
    }

    /// The saved state of the device as bytes.
    pub fn get_state_vec(&self) -> (bytes: Vec<u8>)
        ensures
            bytes@ == state_bytes(
                VirtioSerialState {
                    device_features: self.base.device_features,
                    driver_features: self.base.driver_features,
                    config_space: self.config_space,
                },
            ),
            bytes@.len() == STATE_SIZE,
    {
        self.get_state().as_bytes()
    }

    /// Restores the device from a saved state. Bytes that are not as many as
    /// a state has are refused, and the device stays as it is.
    pub fn set_state_mut(&mut self, state: &[u8]) -> (r: Result<(), VirtioError>)
        ensures
            state@.len() == STATE_SIZE ==> r is Ok && *final(self) == (Serial {
                base: VirtioBase {
                    device_features: state_of_bytes(state@).device_features,
                    driver_features: state_of_bytes(state@).driver_features,
                    ..old(self).base
                },
                config_space: state_of_bytes(state@).config_space,
                ..*old(self)
            }),
            state@.len() != STATE_SIZE ==> *final(self) == *old(self) && r == Err::<
                (),
                VirtioError,
            >(VirtioError::BadState { got: state@.len() as u64, expected: STATE_SIZE as u64 }),
    {
        match VirtioSerialState::from_bytes(state) {
            Some(saved) => {
                self.base.device_features = saved.device_features;
                self.base.driver_features = saved.driver_features;
                self.config_space = saved.config_space;
                Ok(())
            },
            None => Err(
                VirtioError::BadState { got: state.len() as u64, expected: STATE_SIZE as u64 },
            ),
        }
    }

    /// Wires the ports of a console that may have a port at all to the
    /// `queue_count` queues that the transport brought. Another number of
    /// queues than the device has is refused.
    /// Otherwise every pair of queues but the control pair is bound to the
    /// port number that belongs to it, and to the first port with that
    /// number if there is one; such a port is marked as activated. All ports
    /// are put in reach of the control queues.
    pub fn activate(&mut self, queue_count: u64) -> (r: Result<Vec<PortBinding>, VirtioError>)
        requires
            old(self).wf(),
            old(self).max_nr_ports >= 1,
        ensures
            final(self).wf(),
            queue_count != old(self).base.queue_num ==> *final(self) == *old(self) && r == Err::<
                Vec<PortBinding>,
                VirtioError,
            >(
                VirtioError::IncorrectQueueNum {
                    expected: old(self).base.queue_num,
                    actual: queue_count,
                },
            ),
            queue_count == old(self).base.queue_num ==> {
                &&& r is Ok
                &&& r->Ok_0@ == bindings_of(old(self).ports@, queue_count)
                &&& final(self).ports@ == activated_ports(old(self).ports@, queue_count)
                &&& final(self).base == old(self).base
                &&& final(self).config_space == old(self).config_space
                &&& final(self).max_nr_ports == old(self).max_nr_ports
            },
    {
        if queue_count != self.base.queue_num {
            return Err(
                VirtioError::IncorrectQueueNum {
                    expected: self.base.queue_num,
                    actual: queue_count,
                },
            );
        }
        let count: u64 = queue_count / 2 - 1;
        let mut bindings: Vec<PortBinding> = Vec::new();
        let mut nr: u64 = 0;
        while nr < count
            invariant
                nr <= count,
                count == bound_ports(queue_count),
                count <= u32::MAX,
                *self == *old(self),
                bindings@ == Seq::new(nr as nat, |t: int| binding_of(self.ports@, t as u32)),
            decreases count - nr,
        {
            let rx_queue: u64 = if nr == 0 {
                0
            } else {
                2 * (nr + 1)
            };
            let port: Option<usize> = find_port_by_nr(&self.ports, nr as u32);
            bindings.push(PortBinding { nr: nr as u32, rx_queue, tx_queue: rx_queue + 1, port });
            nr += 1;
            proof {
                assert(bindings@ =~= Seq::new(
                    nr as nat,
                    |t: int| binding_of(self.ports@, t as u32),
                ));
            }
        }
        let n: usize = self.ports.len();
        let mut i: usize = 0;
        while i < n
            invariant
                i <= n,
                n == self.ports@.len(),
                n == old(self).ports@.len(),
                self.base == old(self).base,
                self.config_space == old(self).config_space,
                self.max_nr_ports == old(self).max_nr_ports,
                count == bound_ports(queue_count),
                forall|j: int|
                    0 <= j < i ==> self.ports@[j] == activated_ports(
                        old(self).ports@,
                        queue_count,
                    )[j],
                forall|j: int| i <= j < n ==> self.ports@[j] == old(self).ports@[j],
            decreases n - i,
        {
            let nr: u32 = self.ports[i].nr;
            let wired: bool = (nr as u64) < count && find_first_port(&self.ports, nr, i);
            proof {
                let now = self.ports@;
                let before = old(self).ports@;
                assert forall|j: int| 0 <= j < i implies now[j].nr == before[j].nr by {
                    assert(now[j] == activated_ports(before, queue_count)[j]);
                }
                if first_port_with_nr(now, nr, i as int) {
                    assert forall|j: int| 0 <= j < i implies (#[trigger] before[j]).nr != nr by {
                        assert(now[j].nr != nr);
                    }
                }
                if first_port_with_nr(before, nr, i as int) {
                    assert forall|j: int| 0 <= j < i implies (#[trigger] now[j]).nr != nr by {
                        assert(before[j].nr != nr);
                    }
                }
                assert(first_port_with_nr(now, nr, i as int) == first_port_with_nr(
                    before,
                    nr,
                    i as int,
                ));
            }
            if wired {
                self.ports[i].activated = true;
            }
            self.ports[i].ctrl_attached = true;
            i += 1;
        }
        proof {
            assert(self.ports@ =~= activated_ports(old(self).ports@, queue_count));
        }
        Ok(bindings)
    }

    /// Takes the device out of service: every port is deactivated.
    pub fn deactivate(&mut self)
        ensures
            final(self).ports@ == deactivated_ports(old(self).ports@),
            final(self).base == old(self).base,
            final(self).config_space == old(self).config_space,
            final(self).max_nr_ports == old(self).max_nr_ports,
    {
        let n: usize = self.ports.len();
        let mut i: usize = 0;
        while i < n
            invariant
                i <= n,
                n == self.ports@.len(),
                n == old(self).ports@.len(),
                self.base == old(self).base,
                self.config_space == old(self).config_space,
                self.max_nr_ports == old(self).max_nr_ports,
                forall|j: int|
                    0 <= j < i ==> self.ports@[j] == deactivated_ports(old(self).ports@)[j],
                forall|j: int| i <= j < n ==> self.ports@[j] == old(self).ports@[j],
            decreases n - i,
        {
            self.ports[i].deactivate();
            i += 1;
        }
        proof {
            assert(self.ports@ =~= deactivated_ports(old(self).ports@));
        }
    }
}

/// Whether no port before place `i` has the number `nr` that the port at
/// place `i` has.
fn find_first_port(ports: &Vec<SerialPort>, nr: u32, i: usize) -> (first: bool)
    requires
        i < ports@.len(),
        ports@[i as int].nr == nr,
    ensures
        first == first_port_with_nr(ports@, nr, i as int),
{
    let mut j: usize = 0;
    while j < i
        invariant
            j <= i,
            i < ports@.len(),
            forall|t: int| 0 <= t < j ==> (#[trigger] ports@[t]).nr != nr,
        decreases i - j,
    {
        if ports[j].nr == nr {
            return false;
        }
        j += 1;
    }
    true
}

} // verus!
