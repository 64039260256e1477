//! Transports to the embedding services: netlink sockets, preferred, and
//! character devices as fallback; their settings and capabilities.

use vstd::prelude::*;
use crate::ipc::{IpcError, IpcErrorView, IpcResult, ipc_unit_is};
use crate::shared::message;

verus! {

/// Netlink family of the filesystem's messages.
pub const NETLINK_VEXFS: u16 = 31;

/// Largest netlink message, in bytes.
pub const NETLINK_MAX_MSG_SIZE: usize = 32768;

/// Multicast group for service discovery.
pub const VEXFS_MCAST_SERVICE_DISCOVERY: u32 = 1;

/// Multicast group for service events.
pub const VEXFS_MCAST_SERVICE_EVENTS: u32 = 2;

/// Kind of transport.
#[derive(Debug, Clone, Copy, PartialEq, Eq, Structural)]
pub enum TransportType {
    /// Netlink socket, preferred.
    Netlink,
    /// Character device.
    CharDevice,
    /// Unix domain socket, userspace only.
    UnixSocket,
}

/// Settings of a transport.
#[derive(Debug, Clone, Copy)]
pub struct TransportConfig {
    pub transport_type: TransportType,
    /// Message buffer size, in bytes.
    pub buffer_size: usize,
    pub connection_timeout_ms: u64,
    pub max_retries: u32,
    pub enable_compression: bool,
    pub enable_encryption: bool,
}

impl Default for TransportConfig {
    /// Netlink with a 32 KiB buffer, a 5 s connection timeout, 3 retries,
    /// no compression or encryption.
    fn default() -> (c: Self)
        ensures
            c.transport_type == TransportType::Netlink,
            c.buffer_size == NETLINK_MAX_MSG_SIZE,
            c.connection_timeout_ms == 5000,
            c.max_retries == 3,
            !c.enable_compression,
            !c.enable_encryption,
    {
        TransportConfig {
            transport_type: TransportType::Netlink,
            buffer_size: NETLINK_MAX_MSG_SIZE,
            connection_timeout_ms: 5000,
            max_retries: 3,
            enable_compression: false,
            enable_encryption: false,
        }
    }
}

/// A netlink socket transport.
pub struct NetlinkTransport {
    config: TransportConfig,
    socket_fd: Option<i32>,
    connected: bool,
    buffer: Vec<u8>,
    sequence_number: u32,
}

impl NetlinkTransport {
    /// The settings.
    pub closed spec fn settings(&self) -> TransportConfig {
        self.config
    }

    /// The socket, once created.
    pub closed spec fn socket(&self) -> Option<i32> {
        self.socket_fd
    }

    /// Whether the transport is connected.
    pub closed spec fn is_up(&self) -> bool {
        self.connected
    }

    /// The sequence number the next message gets.
    pub closed spec fn sequence(&self) -> u32 {
        self.sequence_number
    }

    /// A transport without a socket, not connected, numbering messages
    /// from 1.
    pub fn new(config: TransportConfig) -> (t: Self)
        ensures
            t.settings() == config,
            t.socket() is None,
            !t.is_up(),
            t.sequence() == 1,
    {
        let buffer_size = config.buffer_size;
        NetlinkTransport {
            socket_fd: None,
            connected: false,
            buffer: Vec::with_capacity(buffer_size),
            sequence_number: 1,
            config,
        }
    }

    /// Create the socket and join the discovery and event groups; the
    /// transport is then connected.
    pub fn initialize(&mut self) -> (r: IpcResult<()>)
        ensures
            r is Ok,
            final(self).is_up(),
            final(self).socket() is Some,
            final(self).settings() == old(self).settings(),
            final(self).sequence() == old(self).sequence(),
    {
        self.socket_fd = Some(42);
        self.connected = true;
        Ok(())
    }

    /// Close the socket; the transport is then disconnected.
    pub fn shutdown(&mut self) -> (r: IpcResult<()>)
        ensures
            r is Ok,
            !final(self).is_up(),
            final(self).socket() is None,
            final(self).settings() == old(self).settings(),
            final(self).sequence() == old(self).sequence(),
    {
        self.socket_fd = None;
        self.connected = false;
        Ok(())
    }

    /// Whether the transport is connected.
    pub fn is_connected(&self) -> (b: bool)
        ensures
            b == self.is_up(),
    {
        self.connected
    }

    /// Check that a message can be sent: the transport must be connected
    /// and the message must fit the buffer.
    pub fn check_send(&self, data_len: usize) -> (r: IpcResult<()>)
        ensures
            ipc_unit_is(
                r,
                if !self.is_up() {
                    Err(IpcErrorView::TransportError("Not connected"@))
                } else if data_len > self.settings().buffer_size {
                    Err(IpcErrorView::InvalidMessage("Message too large"@))
                } else {
                    Ok(())
                },
            ),
    {
        if !self.connected {
            return Err(IpcError::TransportError(message("Not connected")));
        }
        if data_len > self.config.buffer_size {
            return Err(IpcError::InvalidMessage(message("Message too large")));
        }
        Ok(())
    }

    /// The next sequence number; numbers wrap around.
    pub fn next_sequence(&mut self) -> (seq: u32)
        ensures
            seq == old(self).sequence(),
            final(self).sequence() == (if old(self).sequence() == u32::MAX { 0 } else { old(self).sequence() + 1 }),
            final(self).is_up() == old(self).is_up(),
            final(self).socket() == old(self).socket(),
            final(self).settings() == old(self).settings(),
    {
        let seq = self.sequence_number;
        self.sequence_number = if self.sequence_number == u32::MAX { 0 } else { self.sequence_number + 1 };
        seq
    }
}

/// A character device transport.
pub struct CharDeviceTransport {
    config: TransportConfig,
    device_fd: Option<i32>,
    connected: bool,
    device_path: String,
}

impl CharDeviceTransport {
    /// The settings.
    pub closed spec fn settings(&self) -> TransportConfig {
        self.config
    }

    /// The device path.
    pub closed spec fn path(&self) -> Seq<char> {
        self.device_path@
    }

    /// Whether the transport is connected.
    pub closed spec fn is_up(&self) -> bool {
        self.connected
    }

    /// The open device, if any.
    pub closed spec fn device(&self) -> Option<i32> {
        self.device_fd
    }

    /// A transport on the given device, not open and not connected.
    pub fn new(config: TransportConfig, device_path: String) -> (t: Self)
        ensures
            t.settings() == config,
            t.path() == device_path@,
            !t.is_up(),
            t.device() is None,
    {
        CharDeviceTransport { config, device_fd: None, connected: false, device_path }
    }

    /// Open the device; the transport is then connected.
    pub fn initialize(&mut self) -> (r: IpcResult<()>)
        ensures
            r is Ok,
            final(self).is_up(),
            final(self).device() is Some,
            final(self).settings() == old(self).settings(),
            final(self).path() == old(self).path(),
    {
        self.device_fd = Some(42);
        self.connected = true;
        Ok(())
    }

    /// Close the device; the transport is then disconnected.
    pub fn shutdown(&mut self) -> (r: IpcResult<()>)
        ensures
            r is Ok,
            !final(self).is_up(),
            final(self).device() is None,
            final(self).settings() == old(self).settings(),
            final(self).path() == old(self).path(),
    {
        self.device_fd = None;
        self.connected = false;
        Ok(())
    }

    /// Whether the transport is connected.
    pub fn is_connected(&self) -> (b: bool)
        ensures
            b == self.is_up(),
    {
        self.connected
    }
}

/// A transport of either kind.
pub enum Transport {
    Netlink(NetlinkTransport),
    CharDevice(CharDeviceTransport),
}

/// Making transports.
pub struct TransportFactory;

impl TransportFactory {
    /// The transport the settings ask for: netlink, or a character device
    /// at /dev/vexfs_ipc; Unix sockets are not available.
    pub fn create_transport(config: TransportConfig) -> (r: IpcResult<Transport>)
        ensures
            config.transport_type == TransportType::Netlink ==> (r matches Ok(Transport::Netlink(t))
                && t.settings() == config && !t.is_up()),
            config.transport_type == TransportType::CharDevice ==> (r matches Ok(Transport::CharDevice(t))
                && t.settings() == config && t.path() == "/dev/vexfs_ipc"@ && !t.is_up()),
            config.transport_type == TransportType::UnixSocket ==> (r matches Err(e) && e@
                == IpcErrorView::TransportError("Unix socket not implemented"@)),
    {
        match config.transport_type {
            TransportType::Netlink => Ok(Transport::Netlink(NetlinkTransport::new(config))),
            TransportType::CharDevice => {
                let device_path = message("/dev/vexfs_ipc");
                Ok(Transport::CharDevice(CharDeviceTransport::new(config, device_path)))
            },
            TransportType::UnixSocket => Err(IpcError::TransportError(message("Unix socket not implemented"))),
        }
    }

    /// The transport to use: netlink.
    pub fn get_recommended_transport() -> (t: TransportType)
        ensures
            t == TransportType::Netlink,
    {
        TransportType::Netlink
    }
}

/// What a transport offers.
#[derive(Debug, Clone, Copy, PartialEq, Eq, Structural)]
pub struct TransportCapabilities {
    pub supports_multicast: bool,
    pub supports_broadcast: bool,
    pub max_message_size: usize,
    pub supports_async: bool,
    pub supports_encryption: bool,
    pub supports_compression: bool,
}

/// The capabilities of each kind of transport: netlink has multicast,
/// broadcast and asynchronous delivery with 32 KiB messages; a character
/// device is synchronous with 64 KiB messages; a Unix socket is
/// asynchronous with 64 KiB messages.
pub open spec fn capabilities_of(t: TransportType) -> TransportCapabilities {
    match t {
        TransportType::Netlink => TransportCapabilities {
            supports_multicast: true,
            supports_broadcast: true,
            max_message_size: NETLINK_MAX_MSG_SIZE,
            supports_async: true,
            supports_encryption: false,
            supports_compression: false,
        },
        TransportType::CharDevice => TransportCapabilities {
            supports_multicast: false,
            supports_broadcast: false,
            max_message_size: 65536,
            supports_async: false,
            supports_encryption: false,
            supports_compression: false,
        },
        TransportType::UnixSocket => TransportCapabilities {
            supports_multicast: false,
            supports_broadcast: false,
            max_message_size: 65536,
            supports_async: true,
            supports_encryption: false,
            supports_compression: false,
        },
    }
}

/// Transport helpers.
pub struct TransportUtils;

impl TransportUtils {
    /// Check transport settings: the buffer and the timeout must not be
    /// zero.
    pub fn validate_config(config: &TransportConfig) -> (r: IpcResult<()>)
        ensures
            ipc_unit_is(
                r,
                if config.buffer_size == 0 {
                    Err(IpcErrorView::InvalidMessage("Invalid buffer size"@))
                } else if config.connection_timeout_ms == 0 {
                    Err(IpcErrorView::InvalidMessage("Invalid timeout"@))
                } else {
                    Ok(())
                },
            ),
    {
        if config.buffer_size == 0 {
            return Err(IpcError::InvalidMessage(message("Invalid buffer size")));
        }
        if config.connection_timeout_ms == 0 {
            return Err(IpcError::InvalidMessage(message("Invalid timeout")));
        }
        Ok(())
    }

    /// The capabilities of a kind of transport.
    pub fn get_transport_capabilities(transport_type: &TransportType) -> (c: TransportCapabilities)
        ensures
            c == capabilities_of(*transport_type),
    {
        match transport_type {
            TransportType::Netlink => TransportCapabilities {
                supports_multicast: true,
                supports_broadcast: true,
                max_message_size: NETLINK_MAX_MSG_SIZE,
                supports_async: true,
                supports_encryption: false,
                supports_compression: false,
            },
            TransportType::CharDevice => TransportCapabilities {
                supports_multicast: false,
                supports_broadcast: false,
                max_message_size: 65536,
                supports_async: false,
                supports_encryption: false,
                supports_compression: false,
            },
            TransportType::UnixSocket => TransportCapabilities {
                supports_multicast: false,
                supports_broadcast: false,
                max_message_size: 65536,
                supports_async: true,
                supports_encryption: false,
                supports_compression: false,
            },
        }
    }
}

} // verus!
