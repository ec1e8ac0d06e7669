//! The live transmission context of one flow.

use vstd::prelude::*;
use crate::address::SocketAddress;
use crate::flow::FlowParameters;

verus! {

/// The payload every datagram of a flow carries: `len` zero bytes.
pub open spec fn zero_payload(len: nat) -> Seq<u8> {
    Seq::new(len, |i: int| 0u8)
}

/// The socket of a flow could not be bound to its source address.
#[derive(Clone, Copy, Debug, PartialEq, Eq)]
pub struct BindError {
    /// The local endpoint that was asked for.
    pub endpoint: SocketAddress,
}

/// What a flow owns while it transmits: its parameters, its bound socket
/// `S`, the destination and the payload buffer.
///
/// The socket is carried, never inspected: the library decides what is sent
/// and where, and whoever drives it does the sending.
#[derive(Debug)]
pub struct FlowTxBlock<S> {
    flow_parameters: FlowParameters,
    socket: S,
    dest_socket_addr: SocketAddress,
    data_buffer: Vec<u8>,
}

/// The mathematical content of a [`FlowTxBlock`].
pub struct FlowTxBlockView<S> {
    pub flow_parameters: FlowParameters,
    pub socket: S,
    pub dest_socket_addr: SocketAddress,
    pub data_buffer: Seq<u8>,
}

impl<S> FlowTxBlockView<S> {
    /// The context that `flow_parameters` and a socket bound for it make up:
    /// the destination is the flow's own and the buffer is `packet_len` zero
    /// bytes.
    pub open spec fn built_from(flow_parameters: FlowParameters, socket: S) -> Self {
        FlowTxBlockView {
            flow_parameters,
            socket,
            dest_socket_addr: flow_parameters.spec_dest_socket_addr(),
            data_buffer: zero_payload(flow_parameters.packet_len as nat),
        }
    }

    /// A context agrees with the flow it was built from.
    pub open spec fn wf(&self) -> bool {
        *self == Self::built_from(self.flow_parameters, self.socket)
    }
}

impl<S> View for FlowTxBlock<S> {
    type V = FlowTxBlockView<S>;

    closed spec fn view(&self) -> FlowTxBlockView<S> {
        FlowTxBlockView::built_from(self.flow_parameters, self.socket)
    }
}

/// One datagram to put on the wire: through which socket, to whom, and with
/// which bytes.
#[derive(Debug)]
pub struct Datagram<'a, S> {
    pub socket: &'a S,
    pub dest: SocketAddress,
    pub payload: &'a [u8],
}

impl<S> FlowTxBlock<S> {
    /// The destination and the buffer that a context holds are those of its
    /// view.
    #[verifier::type_invariant]
    spec fn inv(&self) -> bool {
        &&& self.dest_socket_addr == self@.dest_socket_addr
        &&& self.data_buffer@ == self@.data_buffer
    }

    /// Every context agrees with the flow it was built from.
    pub proof fn lemma_view_wf(self)
        ensures
            self@.wf(),
    {
    }

    /// Builds the context of `flow_parameters` from the outcome of binding a
    /// socket to `flow_parameters.source_socket_addr()`: `Some` with the
    /// bound socket, `None` where the bind failed.
    ///
    /// A failed bind is the only way to fail, and nothing is allocated then.
    /// The buffer is allocated as any vector is: a length that the machine
    /// cannot hold ends the process.
    pub fn new(flow_parameters: FlowParameters, socket: Option<S>) -> (block: Result<
        FlowTxBlock<S>,
        BindError,
    >)
        ensures
            match socket {
                Some(bound) => block matches Ok(b) && b@ == FlowTxBlockView::built_from(
                    flow_parameters,
                    bound,
                ),
                None => block == Err::<FlowTxBlock<S>, BindError>(
                    BindError { endpoint: flow_parameters.spec_source_socket_addr() },
                ),
            },
    {
        match socket {
            Some(udp_socket) => {
                let dest_socket_addr = flow_parameters.dest_socket_addr();
                let data_buffer = vec![0u8; flow_parameters.packet_len];
                assert(data_buffer@ =~= zero_payload(flow_parameters.packet_len as nat));
                Ok(FlowTxBlock { flow_parameters, socket: udp_socket, dest_socket_addr, data_buffer })
            },
            None => Err(BindError { endpoint: flow_parameters.source_socket_addr() }),
        }
    }

    /// The flow this context was built for.
    pub fn flow_parameters(&self) -> (flow_parameters: &FlowParameters)
        ensures
            *flow_parameters == self@.flow_parameters,
    {
        &self.flow_parameters
    }

    /// The socket bound for the flow.
    pub fn socket(&self) -> (socket: &S)
        ensures
            *socket == self@.socket,
    {
        &self.socket
    }

    /// Where the flow's datagrams go: the destination its parameters name.
    pub fn dest_socket_addr(&self) -> (endpoint: SocketAddress)
        ensures
            endpoint == self@.dest_socket_addr,
            endpoint == self@.flow_parameters.spec_dest_socket_addr(),
    {
        proof {
            use_type_invariant(self);
        }
        self.dest_socket_addr
    }

    /// The payload buffer: `packet_len` zero bytes.
    pub fn data_buffer(&self) -> (buffer: &Vec<u8>)
        ensures
            buffer@ == self@.data_buffer,
            buffer@ == zero_payload(self@.flow_parameters.packet_len as nat),
    {
        proof {
            use_type_invariant(self);
        }
        &self.data_buffer
    }

    /// The next datagram of the flow. Every one is the same: the flow's
    /// payload of `packet_len` zero bytes, to the flow's destination, through
    /// the flow's socket.
    pub fn transmit(&self) -> (datagram: Datagram<'_, S>)
        ensures
            *datagram.socket == self@.socket,
            datagram.dest == self@.flow_parameters.spec_dest_socket_addr(),
            datagram.payload@ == zero_payload(self@.flow_parameters.packet_len as nat),
    {
        proof {
            use_type_invariant(self);
        }
        Datagram {
            socket: &self.socket,
            dest: self.dest_socket_addr,
            payload: self.data_buffer.as_slice(),
        }
    }
}

} // verus!
