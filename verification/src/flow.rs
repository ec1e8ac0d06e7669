//! The description of one flow: where it goes, how fast, how large.

use vstd::prelude::*;
use crate::address::Ipv4Address;
use crate::address::SocketAddress;

verus! {

/// The traffic-shaping model a flow declares.
///
/// The model is carried with the flow; pacing is constant-rate whatever it
/// names.
#[derive(Clone, Copy, Debug, PartialEq, Eq, Hash)]
pub enum TrafficModel {
    Uniform,
    TruncNorm,
    RandomSampling,
    TruncNormSymmetric,
    Gamma,
    Precomputed,
}

/// One flow of the input list.
///
/// `prob_mat`, `variance`, `traffic_model`, `src_host`, `time_slice`,
/// `tag_value` and `transmit_rates` are reserved: they travel with the flow
/// and no part of the transmission engine reads them.
#[derive(Debug, PartialEq, Eq)]
pub struct FlowParameters {
    /// Destination UDP port.
    pub dest_port: u16,
    /// Destination host.
    pub dest_addr: Ipv4Address,
    /// Local address the sending socket is bound to.
    pub source_addr: Ipv4Address,
    /// Reserved. Each entry is the IEEE 754 binary64 bit pattern of one
    /// probability.
    pub prob_mat: Vec<u64>,
    /// Nominal transmission rate, in the unit of `packet_len` per second.
    pub tx_rate: u64,
    /// Reserved.
    pub variance: u64,
    /// Reserved.
    pub traffic_model: TrafficModel,
    /// Payload size in bytes; also the size term of the pacing formula.
    pub packet_len: usize,
    /// Reserved.
    pub src_host: u64,
    /// Reserved.
    pub time_slice: u64,
    /// Reserved.
    pub tag_value: Vec<u8>,
    /// Reserved.
    pub transmit_rates: Option<Vec<u64>>,
}

impl Clone for FlowParameters {
    /// A second copy of the flow, field for field.
    fn clone(&self) -> (copy: FlowParameters)
        ensures
            copy.dest_port == self.dest_port,
            copy.dest_addr == self.dest_addr,
            copy.source_addr == self.source_addr,
            copy.prob_mat@ == self.prob_mat@,
            copy.tx_rate == self.tx_rate,
            copy.variance == self.variance,
            copy.traffic_model == self.traffic_model,
            copy.packet_len == self.packet_len,
            copy.src_host == self.src_host,
            copy.time_slice == self.time_slice,
            copy.tag_value@ == self.tag_value@,
            match (copy.transmit_rates, self.transmit_rates) {
                (Some(copied), Some(rates)) => copied@ == rates@,
                (None, None) => true,
                _ => false,
            },
    {
        let transmit_rates = match &self.transmit_rates {
            Some(rates) => Some(rates.clone()),
            None => None,
        };
        FlowParameters {
            dest_port: self.dest_port,
            dest_addr: self.dest_addr,
            source_addr: self.source_addr,
            prob_mat: self.prob_mat.clone(),
            tx_rate: self.tx_rate,
            variance: self.variance,
            traffic_model: self.traffic_model,
            packet_len: self.packet_len,
            src_host: self.src_host,
            time_slice: self.time_slice,
            tag_value: self.tag_value.clone(),
            transmit_rates,
        }
    }
}

impl FlowParameters {
    /// The local endpoint of the flow: its source address with port 0, so
    /// that the system picks an ephemeral port.
    pub open spec fn spec_source_socket_addr(&self) -> SocketAddress {
        SocketAddress { addr: self.source_addr, port: 0 }
    }

    /// The remote endpoint of the flow.
    pub open spec fn spec_dest_socket_addr(&self) -> SocketAddress {
        SocketAddress { addr: self.dest_addr, port: self.dest_port }
    }

    /// The endpoint to bind the flow's socket to.
    #[verifier::when_used_as_spec(spec_source_socket_addr)]
    pub fn source_socket_addr(&self) -> (endpoint: SocketAddress)
        ensures
            endpoint == self.spec_source_socket_addr(),
    {
        SocketAddress::new(self.source_addr, 0)
    }

    /// The endpoint the flow's datagrams are sent to.
    #[verifier::when_used_as_spec(spec_dest_socket_addr)]
    pub fn dest_socket_addr(&self) -> (endpoint: SocketAddress)
        ensures
            endpoint == self.spec_dest_socket_addr(),
    {
        SocketAddress::new(self.dest_addr, self.dest_port)
    }
}

} // verus!
